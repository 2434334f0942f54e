//! The settings of a renderer: file naming, casing, native type names and overlays.
use vstd::prelude::*;
use crate::case::Case;
use crate::output::ScriptedConfig;
use crate::overlay::{OverlayConfig, ValueTargets};
use crate::str_map::{text_map, StrMap};

verus! {

/// The case each kind of name is written in.
#[derive(Clone, Copy, Debug)]
pub struct CaseConfig {
    pub file_name: Case,
    pub import: Case,
    pub package: Case,
    pub message_name: Case,
    pub field_name: Case,
    pub enum_name: Case,
    pub enum_value_name: Case,
}

impl Default for CaseConfig {
    /// Files in `lower-kebab`, imports, packages and fields in `lower_snake`, messages,
    /// enums and enum values in `UpperCamel`.
    fn default() -> (r: Self)
        ensures
            r.file_name == Case::LowerKebab,
            r.import == Case::LowerSnake,
            r.package == Case::LowerSnake,
            r.message_name == Case::UpperCamel,
            r.field_name == Case::LowerSnake,
            r.enum_name == Case::UpperCamel,
            r.enum_value_name == Case::UpperCamel,
    {
        CaseConfig {
            file_name: Case::LowerKebab,
            import: Case::LowerSnake,
            package: Case::LowerSnake,
            message_name: Case::UpperCamel,
            field_name: Case::LowerSnake,
            enum_name: Case::UpperCamel,
            enum_value_name: Case::UpperCamel,
        }
    }
}

/// The names of the protobuf primitive types.
pub open spec fn primitive_names() -> Seq<Seq<char>> {
    seq![
        "float"@, "double"@, "int32"@, "int64"@, "uint32"@, "uint64"@, "sint32"@, "sint64"@,
        "fixed32"@, "fixed64"@, "sfixed32"@, "sfixed64"@, "bool"@, "string"@, "bytes"@,
    ]
}

/// The type table that writes each protobuf primitive under its own name.
pub open spec fn identity_type_config() -> Map<Seq<char>, Seq<char>> {
    Map::new(|k: Seq<char>| primitive_names().contains(k), |k: Seq<char>| k)
}

/// The settings of a renderer.
pub struct RendererConfig {
    /// Extension of the files written, without the dot.
    pub file_extension: String,
    /// Name of the metadata file written in each directory, without extension.
    pub metadata_file_name: String,
    /// Whether all the files of one package are written into one output file.
    pub one_file_per_package: bool,
    /// Output file name for files without a package, when writing one file per package.
    pub default_package_file_name: String,
    /// Proto files that get no output file.
    pub ignored_files: Vec<String>,
    /// Imports that are left out of file contexts.
    pub ignored_imports: Vec<String>,
    /// Lines written at the top of each output file; `None` for the built-in header.
    pub generated_header: Option<Vec<String>>,
    pub case_config: CaseConfig,
    /// Native type names, by protobuf type name.
    pub type_config: StrMap<String>,
    /// Separator written between package components.
    pub package_separator: String,
    /// What a relative type path writes for each step up to a parent package.
    pub field_relative_parent_prefix: Option<String>,
    /// Field names that replace others, after casing.
    pub field_name_override: StrMap<String>,
    pub overlays: OverlayConfig,
    pub scripted: ScriptedConfig,
}

fn insert_identity(m: &mut StrMap<String>, name: &str)
    ensures
        text_map(final(m)@) == text_map(old(m)@).insert(name@, name@),
{
    m.insert(name.to_owned(), name.to_owned());
    assert(text_map(m@) =~= text_map(old(m)@).insert(name@, name@));
}

/// The type table that writes each protobuf primitive under its own name.
pub fn default_type_config() -> (r: StrMap<String>)
    ensures
        text_map(r@) == identity_type_config(),
{
    let mut m: StrMap<String> = StrMap::new();
    insert_identity(&mut m, "float");
    insert_identity(&mut m, "double");
    insert_identity(&mut m, "int32");
    insert_identity(&mut m, "int64");
    insert_identity(&mut m, "uint32");
    insert_identity(&mut m, "uint64");
    insert_identity(&mut m, "sint32");
    insert_identity(&mut m, "sint64");
    insert_identity(&mut m, "fixed32");
    insert_identity(&mut m, "fixed64");
    insert_identity(&mut m, "sfixed32");
    insert_identity(&mut m, "sfixed64");
    insert_identity(&mut m, "bool");
    insert_identity(&mut m, "string");
    insert_identity(&mut m, "bytes");
    assert(text_map(m@) =~= identity_type_config()) by {
        assert forall|k: Seq<char>| primitive_names().contains(k) implies text_map(m@).contains_key(k) by {
            let i = choose|i: int| 0 <= i < primitive_names().len() && primitive_names()[i] == k;
            assert(0 <= i < 15);
        }
        assert forall|k: Seq<char>| text_map(m@).contains_key(k) implies primitive_names().contains(k) by {
            if k == "float"@ { assert(primitive_names()[0] == k); }
            else if k == "double"@ { assert(primitive_names()[1] == k); }
            else if k == "int32"@ { assert(primitive_names()[2] == k); }
            else if k == "int64"@ { assert(primitive_names()[3] == k); }
            else if k == "uint32"@ { assert(primitive_names()[4] == k); }
            else if k == "uint64"@ { assert(primitive_names()[5] == k); }
            else if k == "sint32"@ { assert(primitive_names()[6] == k); }
            else if k == "sint64"@ { assert(primitive_names()[7] == k); }
            else if k == "fixed32"@ { assert(primitive_names()[8] == k); }
            else if k == "fixed64"@ { assert(primitive_names()[9] == k); }
            else if k == "sfixed32"@ { assert(primitive_names()[10] == k); }
            else if k == "sfixed64"@ { assert(primitive_names()[11] == k); }
            else if k == "bool"@ { assert(primitive_names()[12] == k); }
            else if k == "string"@ { assert(primitive_names()[13] == k); }
            else { assert(primitive_names()[14] == k); }
        }
    }
    m
}

impl Default for RendererConfig {
    /// No extension, metadata files named `metadata`, one output file per proto file,
    /// `default` for files without a package, nothing ignored, the built-in header,
    /// default casing, primitives under their own names, `.` between package
    /// components, no parent prefix, no overrides and no overlays.
    fn default() -> (r: Self)
        ensures
            r.file_extension@ == Seq::<char>::empty(),
            r.metadata_file_name@ == "metadata"@,
            !r.one_file_per_package,
            r.default_package_file_name@ == "default"@,
            r.ignored_files@.len() == 0,
            r.ignored_imports@.len() == 0,
            r.generated_header is None,
            r.case_config.file_name == Case::LowerKebab,
            r.case_config.import == Case::LowerSnake,
            r.case_config.package == Case::LowerSnake,
            r.case_config.message_name == Case::UpperCamel,
            r.case_config.field_name == Case::LowerSnake,
            r.case_config.enum_name == Case::UpperCamel,
            r.case_config.enum_value_name == Case::UpperCamel,
            text_map(r.type_config@) == identity_type_config(),
            r.package_separator@ == "."@,
            r.field_relative_parent_prefix is None,
            r.field_name_override@ == Map::<Seq<char>, String>::empty(),
            r.overlays.by_key_view() == Map::<Seq<char>, ValueTargets>::empty(),
            r.overlays.by_target_view() == Map::<Seq<char>, Map<Seq<char>, serde_yaml::Value>>::empty(),
    {
        RendererConfig {
            file_extension: String::new(),
            metadata_file_name: "metadata".to_owned(),
            one_file_per_package: false,
            default_package_file_name: "default".to_owned(),
            ignored_files: Vec::new(),
            ignored_imports: Vec::new(),
            generated_header: None,
            case_config: CaseConfig::default(),
            type_config: default_type_config(),
            package_separator: ".".to_owned(),
            field_relative_parent_prefix: None,
            field_name_override: StrMap::new(),
            overlays: OverlayConfig::default(),
            scripted: ScriptedConfig::default(),
        }
    }
}

} // verus!
