use protox::case::Case;
use protox::config::RendererConfig;
use protox::context::enums::EnumContext;
use protox::descriptor::{EnumDescriptor, EnumOptions, EnumValueDescriptor};
use protox::error::Error;
use protox::option_kv::insert_custom_options;
use protox::str_map::StrMap;

fn enum_value(number: i32) -> EnumValueDescriptor {
    EnumValueDescriptor { name: Some(number.to_string()), number: Some(number), options: None }
}

fn named_enum_value(name: &str, number: i32) -> EnumValueDescriptor {
    EnumValueDescriptor { name: Some(name.to_string()), number: Some(number), options: None }
}

#[test]
fn enum_name() -> Result<(), Error> {
    let config = RendererConfig::default();
    let proto = EnumDescriptor { name: Some("MsgName".to_string()), ..Default::default() };
    let context = EnumContext::new(&proto, &config)?;
    assert_eq!(context.name(), "MsgName");
    Ok(())
}

#[test]
fn enum_name_with_case() -> Result<(), Error> {
    let mut config = RendererConfig::default();
    config.case_config.enum_name = Case::UpperSnake;
    let proto = EnumDescriptor { name: Some("MsgName".to_string()), ..Default::default() };
    let context = EnumContext::new(&proto, &config)?;
    assert_eq!(context.name(), "MSG_NAME");
    Ok(())
}

#[test]
fn enum_missing_name_errors() {
    let config = RendererConfig::default();
    let proto = EnumDescriptor::default();
    assert!(matches!(EnumContext::new(&proto, &config), Err(Error::Missing(_))));
}

#[test]
fn values() -> Result<(), Error> {
    let config = RendererConfig::default();
    let mut proto = EnumDescriptor { name: Some("EnumName".to_string()), ..Default::default() };
    proto.value.push(enum_value(1));
    proto.value.push(enum_value(2));
    let context = EnumContext::new(&proto, &config)?;
    assert_eq!(context.values()[0].name(), "1");
    assert_eq!(context.values()[0].number(), 1);
    assert_eq!(context.values()[1].name(), "2");
    assert_eq!(context.values()[1].number(), 2);
    Ok(())
}

#[test]
fn values_with_case() -> Result<(), Error> {
    let mut config = RendererConfig::default();
    config.case_config.enum_value_name = Case::UpperSnake;
    let mut proto = EnumDescriptor { name: Some("EnumName".to_string()), ..Default::default() };
    proto.value.push(named_enum_value("ValueName1", 1));
    proto.value.push(named_enum_value("ValueName2", 2));
    let context = EnumContext::new(&proto, &config)?;
    assert_eq!(context.values()[0].name(), "VALUE_NAME1");
    assert_eq!(context.values()[0].number(), 1);
    assert_eq!(context.values()[1].name(), "VALUE_NAME2");
    assert_eq!(context.values()[1].number(), 2);
    Ok(())
}

#[test]
fn enum_key_value_options() -> Result<(), Error> {
    let config = RendererConfig::default();
    let proto = EnumDescriptor {
        name: Some("EnumName".to_string()),
        options: Some(EnumOptions {
            key_values: vec!["key0=value0".to_string(), "key1=value1".to_string()],
            ..Default::default()
        }),
        ..Default::default()
    };
    let context = EnumContext::new(&proto, &config)?;
    let mut map: StrMap<String> = StrMap::new();
    insert_custom_options(&mut map, &context.options().as_ref().expect("options kept").key_values)?;
    assert_eq!(map.get("key0"), Some(&"value0".to_string()));
    assert_eq!(map.get("key1"), Some(&"value1".to_string()));
    Ok(())
}

#[test]
fn value_without_number_is_error() {
    let config = RendererConfig::default();
    let proto = EnumDescriptor {
        name: Some("EnumName".to_string()),
        value: vec![EnumValueDescriptor { name: Some("A".to_string()), number: None, options: None }],
        ..Default::default()
    };
    assert_eq!(EnumContext::new(&proto, &config).err(), Some(Error::InvalidEnumValue("EnumName".to_string())));
}
