use protox::config::RendererConfig;
use protox::context::file::FileContext;
use protox::context::message::MessageContext;
use protox::descriptor::{
    EnumDescriptor, EnumOptions, EnumValueDescriptor, EnumValueOptions, FieldDescriptor, FieldOptions, FileDescriptor,
    FileOptions, MessageDescriptor, MessageOptions,
};
use protox::error::Error;
use protox::render_plan::{config_format, template_name, ConfigFormat};
use protox::script_api::{
    enum_opt_allow_alias, enum_opt_get_kv, enum_value_number, enum_value_opt_deprecated, field_opt_ctype,
    field_opt_get_kv, field_opt_packed, file_opt_deprecated, file_opt_get_kv, file_opt_go_package,
    file_opt_optimize_for, file_package, file_source_file, message_opt_get_kv, message_opt_map_entry, message_overlay,
    yaml_value_as_array, yaml_value_as_bool, yaml_value_as_int, yaml_value_as_map, yaml_value_as_str,
    yaml_value_as_string, yaml_value_is_array, yaml_value_is_bool, yaml_value_is_float, yaml_value_is_int,
    yaml_value_is_map, yaml_value_is_null, yaml_value_is_str, yaml_value_is_valid, OPTIMIZE_FOR_SPEED,
};

fn some_string() -> serde_yaml::Value {
    serde_yaml::Value::String("some_value".to_owned())
}

fn five() -> serde_yaml::Value {
    serde_yaml::Value::Number(5.into())
}

#[test]
fn is_valid() {
    assert_eq!(yaml_value_is_valid(&some_string()), true);
    assert_eq!(yaml_value_is_valid(&five()), true);
    assert_eq!(yaml_value_is_valid(&serde_yaml::Value::Null), false);
}

#[test]
fn is_null() {
    assert_eq!(yaml_value_is_null(&some_string()), false);
    assert_eq!(yaml_value_is_null(&five()), false);
    assert_eq!(yaml_value_is_null(&serde_yaml::Value::Null), true);
}

#[test]
fn is_str() {
    assert_eq!(yaml_value_is_str(&some_string()), true);
}

#[test]
fn is_not_str() {
    assert_eq!(yaml_value_is_str(&five()), false);
}

#[test]
fn is_bool() {
    assert_eq!(yaml_value_is_bool(&serde_yaml::Value::Bool(true)), true);
}

#[test]
fn is_not_bool() {
    assert_eq!(yaml_value_is_bool(&some_string()), false);
}

#[test]
fn is_int() {
    assert_eq!(yaml_value_is_int(&five()), true);
}

#[test]
fn is_not_int() {
    assert_eq!(yaml_value_is_int(&serde_yaml::Value::Bool(true)), false);
}

#[test]
fn mod_is_array() {
    assert_eq!(yaml_value_is_array(&serde_yaml::Value::Sequence(serde_yaml::Sequence::new())), true);
}

#[test]
fn is_not_array() {
    assert_eq!(yaml_value_is_array(&five()), false);
}

#[test]
fn mod_is_map() {
    assert_eq!(yaml_value_is_map(&serde_yaml::Value::Mapping(serde_yaml::Mapping::new())), true);
}

#[test]
fn is_not_map() {
    assert_eq!(yaml_value_is_map(&five()), false);
}

#[test]
fn as_str() -> Result<(), Error> {
    let result = yaml_value_as_str(&serde_yaml::Value::String("hello".to_owned()))?;
    assert_eq!(result, "hello".to_owned());
    Ok(())
}

#[test]
fn as_bool() -> Result<(), Error> {
    let result = yaml_value_as_bool(&serde_yaml::Value::Bool(true))?;
    assert!(result);
    Ok(())
}

#[test]
fn as_int() -> Result<(), Error> {
    let result = yaml_value_as_int(&five())?;
    assert_eq!(result, 5);
    Ok(())
}

#[test]
fn as_array() -> Result<(), Error> {
    let expected = vec![serde_yaml::Value::Number(1.into()), serde_yaml::Value::Number(2.into())];
    let arr = yaml_value_as_array(&serde_yaml::Value::Sequence(expected.clone()))?;
    assert!(yaml_value_as_int(&arr[0])? == 1 && yaml_value_as_int(&arr[1])? == 2);
    Ok(())
}

#[test]
fn as_map() -> Result<(), Error> {
    let mut mapping = serde_yaml::Mapping::new();
    mapping.insert(serde_yaml::Value::String("a".to_owned()), serde_yaml::Value::Number(1.into()));
    mapping.insert(serde_yaml::Value::String("b".to_owned()), serde_yaml::Value::Number(2.into()));
    let map = yaml_value_as_map(&serde_yaml::Value::Mapping(mapping))?;
    let get = |k: &str| map.iter().find(|(key, _)| key == k).map(|(_, v)| v.clone()).unwrap();
    assert!(yaml_value_as_int(&get("a"))? == 1 && yaml_value_as_int(&get("b"))? == 2);
    Ok(())
}

#[test]
fn as_map_leaves_out_keys_that_are_not_strings() -> Result<(), Error> {
    let mut mapping = serde_yaml::Mapping::new();
    mapping.insert(serde_yaml::Value::Number(1.into()), serde_yaml::Value::Number(10.into()));
    mapping.insert(serde_yaml::Value::String("b".to_owned()), serde_yaml::Value::Bool(true));
    let map = yaml_value_as_map(&serde_yaml::Value::Mapping(mapping))?;
    assert_eq!(map.len(), 1);
    assert_eq!(map[0].0, "b");
    assert_eq!(map[0].1, serde_yaml::Value::Bool(true));
    Ok(())
}

#[test]
fn as_functions_refuse_other_types() {
    assert!(matches!(yaml_value_as_str(&five()), Err(Error::WrongValueType(_))));
    assert!(matches!(yaml_value_as_string(&five()), Err(Error::WrongValueType(_))));
    assert!(matches!(yaml_value_as_int(&some_string()), Err(Error::WrongValueType(_))));
    assert!(matches!(yaml_value_as_bool(&five()), Err(Error::WrongValueType(_))));
    assert!(matches!(yaml_value_as_array(&five()), Err(Error::WrongValueType(_))));
    assert!(matches!(yaml_value_as_map(&five()), Err(Error::WrongValueType(_))));
}

#[test]
fn is_float_only_for_floats() {
    assert_eq!(yaml_value_is_float(&serde_yaml::Value::Number(5.5.into())), true);
    assert_eq!(yaml_value_is_float(&five()), false);
}

fn kv() -> Vec<String> {
    vec!["test_key=some_value".to_owned()]
}

#[test]
fn integration_tests_kv_option() {
    let options = FileOptions { key_values: kv(), ..Default::default() };
    assert_eq!(file_opt_get_kv(&options, "test_key".to_owned()), "some_value");
}

#[test]
fn enum_kv_option() {
    let options = EnumOptions { key_values: kv(), ..Default::default() };
    assert_eq!(enum_opt_get_kv(&options, "test_key".to_owned()), "some_value");
}

#[test]
fn message_kv_option() {
    let options = MessageOptions { key_values: kv(), ..Default::default() };
    assert_eq!(message_opt_get_kv(&options, "test_key".to_owned()), "some_value");
}

#[test]
fn field_kv_option() {
    let options = FieldOptions { key_values: kv(), ..Default::default() };
    assert_eq!(field_opt_get_kv(&options, "test_key".to_owned()), "some_value");
}

#[test]
fn kv_option_first_match_wins_and_absent_is_empty() {
    let options = FileOptions {
        key_values: vec!["a=1".to_owned(), "b=x=y".to_owned(), "a=2".to_owned()],
        ..Default::default()
    };
    assert_eq!(file_opt_get_kv(&options, "a".to_owned()), "1");
    assert_eq!(file_opt_get_kv(&options, "b".to_owned()), "x=y");
    assert_eq!(file_opt_get_kv(&options, "c".to_owned()), "");
}

#[test]
fn unset_options_read_as_defaults() {
    let file = FileOptions::default();
    assert_eq!(file_opt_deprecated(&file), false);
    assert_eq!(file_opt_go_package(&file), "");
    assert_eq!(file_opt_optimize_for(&file), OPTIMIZE_FOR_SPEED as i64);
    assert_eq!(file_opt_optimize_for(&file), 1);
    assert_eq!(enum_opt_allow_alias(&EnumOptions::default()), false);
    assert_eq!(enum_value_opt_deprecated(&EnumValueOptions::default()), false);
    assert_eq!(message_opt_map_entry(&MessageOptions::default()), false);
    assert_eq!(field_opt_ctype(&FieldOptions::default()), 0);
    assert_eq!(field_opt_packed(&FieldOptions::default()), false);
}

#[test]
fn set_options_read_as_set() {
    let file = FileOptions {
        deprecated: Some(true),
        go_package: Some("some value".to_owned()),
        optimize_for: Some(123),
        ..Default::default()
    };
    assert_eq!(file_opt_deprecated(&file), true);
    assert_eq!(file_opt_go_package(&file), "some value");
    assert_eq!(file_opt_optimize_for(&file), 123);
    let field = FieldOptions { ctype: Some(2), packed: Some(true), ..Default::default() };
    assert_eq!(field_opt_ctype(&field), 2);
    assert_eq!(field_opt_packed(&field), true);
}

#[test]
fn file_getters() -> Result<(), Error> {
    let proto = FileDescriptor {
        name: Some("dir/file.proto".to_owned()),
        package: Some("root.sub".to_owned()),
        ..Default::default()
    };
    let context = FileContext::new(&proto, &RendererConfig::default())?;
    assert_eq!(file_source_file(&context), "dir/file.proto");
    assert_eq!(file_package(&context), "root.sub");
    Ok(())
}

#[test]
fn enum_value_number_as_script_integer() -> Result<(), Error> {
    let proto = FileDescriptor {
        name: Some("name".to_owned()),
        enum_type: vec![EnumDescriptor {
            name: Some("E".to_owned()),
            value: vec![EnumValueDescriptor { name: Some("V".to_owned()), number: Some(-7), options: None }],
            ..Default::default()
        }],
        ..Default::default()
    };
    let context = FileContext::new(&proto, &RendererConfig::default())?;
    assert_eq!(enum_value_number(&context.enums()[0].values()[0]), -7i64);
    Ok(())
}

#[test]
fn message_overlay_is_null_when_absent() -> Result<(), Error> {
    let message = MessageDescriptor {
        name: Some("M".to_owned()),
        field: vec![FieldDescriptor { name: Some("f".to_owned()), kind: Some(5), ..Default::default() }],
        ..Default::default()
    };
    let context = MessageContext::new(&message, Some("pkg"), &RendererConfig::default())?;
    assert!(message_overlay(&context, "missing".to_owned()).is_null());
    Ok(())
}

#[test]
fn json() {
    assert_eq!(config_format("config.json"), Ok(ConfigFormat::Json));
}

#[test]
fn yaml() {
    assert_eq!(config_format("config.yaml"), Ok(ConfigFormat::Yaml));
}

#[test]
fn yml() {
    assert_eq!(config_format("config.yml"), Ok(ConfigFormat::Yaml));
}

#[test]
fn config_format_errors() {
    assert!(matches!(config_format("dir/config"), Err(Error::Missing(_))));
    assert_eq!(config_format("config.toml"), Err(Error::UnsupportedConfigType("toml".to_owned())));
}

#[test]
fn template_names() {
    assert_eq!(template_name("/root/file.hbs"), Some("file".to_owned()));
    assert_eq!(template_name("/root/metadata.hbs"), Some("metadata".to_owned()));
    assert_eq!(template_name("/root/config.json"), None);
    assert_eq!(template_name("/root/hbs"), None);
}
