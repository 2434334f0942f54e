# protox

protox generates code and other text from protobuf definitions. It runs `protoc` on a
directory of `.proto` files, turns the descriptor set that `protoc` writes into
rendering contexts (files, imports, messages, fields, enums, directory metadata) and
renders them with handlebars templates or rhai scripts.

## Layout

- `src/` is the library, written in Verus. Each function states what it computes in its
  `requires`/`ensures`, and Verus proves it:
  - `text`, `paths`, `case`, `type_path`: strings, paths, name casing and type paths
    relative to a package.
  - `descriptor`, `proto_type`, `context/`: descriptors as plain values and the contexts
    built from them.
  - `config`, `overlay`, `option_kv`, `str_map`: renderer settings, overlay tables and
    custom `key=value` options.
  - `render_plan`, `metadata`: which output files are written where, and what each
    directory's metadata lists.
  - `output`, `helpers`, `script_api`: what scripts and templates can call.
  - `lang`, `protoc`, `cli_config`, `dir_init`: command line settings, the `protoc`
    command line and the files of a new script or template directory.
- `app/` is the program around the library: the command line (clap), running `protoc`,
  reading the descriptor set (prost), the renderers (handlebars, rhai) and all file
  input and output.
- `tests/` runs the library on concrete values.
