use protox::case::Case;
use protox::config::{CaseConfig, RendererConfig};
use protox::context::file::FileContext;
use protox::descriptor::{EnumDescriptor, FileDescriptor, FileOptions, MessageDescriptor};
use protox::error::Error;
use protox::option_kv::insert_custom_options;
use protox::str_map::StrMap;

#[test]
fn file_source_file() -> Result<(), Error> {
    let config = RendererConfig::default();
    let name = "file_name".to_owned();
    let file = FileDescriptor { name: Some(name.clone()), ..Default::default() };
    let context = FileContext::new(&file, &config)?;
    assert_eq!(context.source_file(), name);
    Ok(())
}

#[test]
fn package() -> Result<(), Error> {
    let config = RendererConfig {
        package_separator: "::".to_string(),
        case_config: CaseConfig { package: Case::Upper, ..Default::default() },
        ..Default::default()
    };
    let file = FileDescriptor {
        name: Some("file_name".to_owned()),
        package: Some("some.package.name".to_owned()),
        ..Default::default()
    };
    let context = FileContext::new(&file, &config)?;
    assert_eq!(context.package(), "SOME::PACKAGE::NAME");
    Ok(())
}

#[test]
fn no_package_is_empty() -> Result<(), Error> {
    let file = FileDescriptor { name: Some("f".to_owned()), ..Default::default() };
    let context = FileContext::new(&file, &RendererConfig::default())?;
    assert_eq!(context.package(), "");
    Ok(())
}

#[test]
fn file_missing_name_errors() {
    let config = RendererConfig::default();
    let file = FileDescriptor::default();
    assert!(matches!(FileContext::new(&file, &config), Err(Error::Missing(_))));
}

#[test]
fn file_file_options() -> Result<(), Error> {
    let config = RendererConfig::default();
    let file = FileDescriptor {
        name: Some("file_name".to_owned()),
        options: Some(FileOptions {
            java_package: Some("java_package".to_owned()),
            java_outer_classname: Some("java_outer_classname".to_owned()),
            java_multiple_files: Some(true),
            java_string_check_utf8: Some(true),
            optimize_for: Some(1234),
            go_package: Some("go_package".to_owned()),
            cc_generic_services: Some(true),
            java_generic_services: Some(true),
            py_generic_services: Some(true),
            php_generic_services: Some(true),
            deprecated: Some(true),
            cc_enable_arenas: Some(true),
            objc_class_prefix: Some("objc_class_prefix".to_owned()),
            csharp_namespace: Some("csharp_namespace".to_owned()),
            swift_prefix: Some("swift_prefix".to_owned()),
            php_class_prefix: Some("php_class_prefix".to_owned()),
            php_namespace: Some("php_namespace".to_owned()),
            php_metadata_namespace: Some("php_metadata_namespace".to_owned()),
            ruby_package: Some("ruby_package".to_owned()),
            key_values: vec![],
        }),
        ..Default::default()
    };
    let context = FileContext::new(&file, &config)?;
    let options = context.options().as_ref().expect("options kept");
    assert_eq!(options.java_package.as_deref(), Some("java_package"));
    assert_eq!(options.java_outer_classname.as_deref(), Some("java_outer_classname"));
    assert_eq!(options.java_multiple_files, Some(true));
    assert_eq!(options.java_string_check_utf8, Some(true));
    assert_eq!(options.optimize_for, Some(1234));
    assert_eq!(options.go_package.as_deref(), Some("go_package"));
    assert_eq!(options.cc_generic_services, Some(true));
    assert_eq!(options.java_generic_services, Some(true));
    assert_eq!(options.py_generic_services, Some(true));
    assert_eq!(options.php_generic_services, Some(true));
    assert_eq!(options.deprecated, Some(true));
    assert_eq!(options.cc_enable_arenas, Some(true));
    assert_eq!(options.objc_class_prefix.as_deref(), Some("objc_class_prefix"));
    assert_eq!(options.csharp_namespace.as_deref(), Some("csharp_namespace"));
    assert_eq!(options.swift_prefix.as_deref(), Some("swift_prefix"));
    assert_eq!(options.php_class_prefix.as_deref(), Some("php_class_prefix"));
    assert_eq!(options.php_namespace.as_deref(), Some("php_namespace"));
    assert_eq!(options.php_metadata_namespace.as_deref(), Some("php_metadata_namespace"));
    assert_eq!(options.ruby_package.as_deref(), Some("ruby_package"));
    Ok(())
}

#[test]
fn file_key_value_options() -> Result<(), Error> {
    let file = FileDescriptor {
        name: Some("file_name".to_owned()),
        options: Some(FileOptions {
            key_values: vec!["key0=value0".to_owned(), "key1=value1".to_owned()],
            ..Default::default()
        }),
        ..Default::default()
    };
    let context = FileContext::new(&file, &RendererConfig::default())?;
    let mut map: StrMap<String> = StrMap::new();
    insert_custom_options(&mut map, &context.options().as_ref().expect("options kept").key_values)?;
    assert_eq!(map.get("key0"), Some(&"value0".to_owned()));
    assert_eq!(map.get("key1"), Some(&"value1".to_owned()));
    Ok(())
}

#[test]
fn ignored_imports() -> Result<(), Error> {
    let ignored_file = "some/ignored/file.proto";
    let other_file = "included/file.proto";
    let mut config = RendererConfig::default();
    config.ignored_imports.push("some/ignored/file.proto".to_owned());
    let file = FileDescriptor {
        name: Some("name".to_owned()),
        dependency: vec![ignored_file.to_owned(), other_file.to_owned()],
        ..Default::default()
    };
    let context = FileContext::new(&file, &config)?;
    assert_eq!(context.imports().len(), 1, "If 2 imports we didn't ignore the configured one");
    assert_eq!(context.imports()[0].file_path(), other_file);
    Ok(())
}

#[test]
fn messages_see_the_file_package() -> Result<(), Error> {
    let file = FileDescriptor {
        name: Some("name".to_owned()),
        package: Some("pkg".to_owned()),
        message_type: vec![MessageDescriptor {
            name: Some("M".to_owned()),
            field: vec![protox::descriptor::FieldDescriptor {
                name: Some("f".to_owned()),
                type_ref: Some(".pkg.Other".to_owned()),
                ..Default::default()
            }],
            ..Default::default()
        }],
        enum_type: vec![EnumDescriptor { name: Some("E".to_owned()), ..Default::default() }],
        ..Default::default()
    };
    let context = FileContext::new(&file, &RendererConfig::default())?;
    let field = &context.messages()[0].fields()[0];
    assert_eq!(field.relative_type().map(String::as_str), Some("Other"));
    assert_eq!(field.fully_qualified_type().map(String::as_str), Some("pkg.Other"));
    assert_eq!(context.enums()[0].name(), "E");
    Ok(())
}

#[test]
fn bad_enum_fails_the_file() {
    let file = FileDescriptor {
        name: Some("name".to_owned()),
        enum_type: vec![EnumDescriptor::default()],
        ..Default::default()
    };
    assert!(FileContext::new(&file, &RendererConfig::default()).is_err());
}
