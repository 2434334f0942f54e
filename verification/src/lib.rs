use vstd::prelude::*;

pub mod text;
pub mod case;
pub mod type_path;
pub mod output;
pub mod str_map;
pub mod error;
pub mod option_kv;
pub mod paths;
pub mod util;
pub mod lang;
pub mod protoc;
pub mod overlay;
pub mod config;
pub mod descriptor;
pub mod proto_type;
pub mod context;
pub mod metadata;
pub mod render_plan;
pub mod dir_init;
pub mod helpers;
pub mod cli_config;
pub mod script_api;
