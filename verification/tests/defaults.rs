use protox::case::Case;
use protox::config::RendererConfig;
use protox::descriptor::{FieldDescriptor, FieldOptions};
use protox::dir_init::{initialize_script_dir, initialize_template_dir, InitContent};
use protox::error::Error;
use protox::lang::{encode_output_path, EncodeConfig};
use protox::proto_type::{complex_type_name, primitive_from_id, primitive_type_name, ProtoType};

#[test]
fn renderer_config_defaults() {
    let config = RendererConfig::default();
    assert_eq!(config.file_extension, "");
    assert_eq!(config.metadata_file_name, "metadata");
    assert_eq!(config.one_file_per_package, false);
    assert_eq!(config.default_package_file_name, "default");
    assert_eq!(config.package_separator, ".");
    assert!(config.generated_header.is_none());
    assert_eq!(config.case_config.file_name, Case::LowerKebab);
    assert_eq!(config.case_config.message_name, Case::UpperCamel);
    assert_eq!(config.type_config.len(), 15);
    assert_eq!(config.type_config.get("sfixed64"), Some(&"sfixed64".to_owned()));
}

#[test]
fn script_dir_files() {
    let files = initialize_script_dir("/new/dir");
    assert_eq!(files.len(), 2);
    assert_eq!(files[0].path, "/new/dir/config.json");
    assert!(matches!(files[0].content, InitContent::DefaultConfig));
    assert_eq!(files[1].path, "/new/dir/main.rhai");
    match &files[1].content {
        InitContent::Text(t) => {
            assert!(t.contains("fn render_file(file, output)"));
            assert!(!t.starts_with(' '));
        },
        InitContent::DefaultConfig => panic!("main script expected"),
    }
}

#[test]
fn template_dir_files() {
    let files = initialize_template_dir("rel");
    assert_eq!(files.len(), 2);
    assert_eq!(files[0].path, "rel/config.json");
    assert_eq!(files[1].path, "rel/file.hbs");
    assert!(matches!(&files[1].content, InitContent::Text(_)));
}

#[test]
fn primitive_ids() {
    assert_eq!(primitive_from_id(1), Ok("double"));
    assert_eq!(primitive_from_id(9), Ok("string"));
    assert_eq!(primitive_from_id(18), Ok("sint64"));
    assert_eq!(primitive_from_id(11), Err(Error::NotPrimitive(11)));
    assert_eq!(primitive_from_id(19), Err(Error::InvalidProtoType(19)));
    assert_eq!(primitive_from_id(0), Err(Error::InvalidProtoType(0)));
}

#[test]
fn primitive_native_names() {
    let mut config = RendererConfig::default();
    assert_eq!(primitive_type_name(5, &config), Ok("int32"));
    config.type_config.insert("int32".to_owned(), "int".to_owned());
    assert_eq!(primitive_type_name(5, &config), Ok("int"));
    config.type_config.remove("bytes");
    assert_eq!(primitive_type_name(12, &config), Err(Error::NoNativeType("bytes".to_owned())));
    assert_eq!(primitive_type_name(14, &config), Err(Error::NotPrimitive(14)));
}

#[test]
fn complex_names() {
    let mut config = RendererConfig::default();
    assert_eq!(complex_type_name(".pkg.Msg", &config), "pkg.Msg");
    config.type_config.insert("pkg.Msg".to_owned(), "NativeMsg".to_owned());
    assert_eq!(complex_type_name(".pkg.Msg", &config), "NativeMsg");
}

#[test]
fn proto_type_of_fields() {
    let by_id = FieldDescriptor { kind: Some(3), ..Default::default() };
    assert!(matches!(ProtoType::from_field(&by_id), Ok(ProtoType::Type(3))));
    let by_name = FieldDescriptor { kind: Some(11), type_ref: Some(".a.B".to_owned()), ..Default::default() };
    assert!(matches!(ProtoType::from_field(&by_name), Ok(ProtoType::TypeName(n)) if n == ".a.B"));
    let native = FieldDescriptor {
        type_ref: Some(".a.B".to_owned()),
        options: Some(FieldOptions { native_type: Some("Vec3".to_owned()), ..Default::default() }),
        ..Default::default()
    };
    assert!(matches!(ProtoType::from_field(&native), Ok(ProtoType::NativeTypeOverride(n)) if n == "Vec3"));
    let none = FieldDescriptor { name: Some("f".to_owned()), ..Default::default() };
    assert!(matches!(ProtoType::from_field(&none), Err(Error::MissingFieldType(n)) if n == "f"));
}

#[test]
fn encode_output_is_stem_with_bin() {
    let config = EncodeConfig {
        target: "/in/data/sample.txt".to_owned(),
        message_type: "pkg.Msg".to_owned(),
        output: "/out".to_owned(),
    };
    assert_eq!(encode_output_path(&config), "/out/sample.bin");
}
