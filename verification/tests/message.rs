use protox::case::Case;
use protox::config::RendererConfig;
use protox::context::message::{collect_map_data, fully_qualify_map_type, full_name, MessageContext};
use protox::descriptor::{FieldDescriptor, MessageDescriptor, MessageOptions};
use protox::error::Error;
use protox::overlay::OverlayConfig;
use protox::str_map::StrMap;

fn field(name: &str) -> FieldDescriptor {
    FieldDescriptor { name: Some(name.to_string()), type_ref: Some("type".to_owned()), ..Default::default() }
}

#[test]
fn message_name() -> Result<(), Error> {
    let config = RendererConfig::default();
    let msg_name = "MsgName".to_owned();
    let message = MessageDescriptor { name: Some(msg_name.clone()), ..Default::default() };
    let context = MessageContext::new(&message, None, &config)?;
    assert_eq!(context.name(), msg_name);
    Ok(())
}

#[test]
fn message_name_with_case() -> Result<(), Error> {
    let mut config = RendererConfig::default();
    config.case_config.message_name = Case::UpperSnake;
    let message = MessageDescriptor { name: Some("msgName".to_owned()), ..Default::default() };
    let context = MessageContext::new(&message, None, &config)?;
    assert_eq!(context.name(), "MSG_NAME");
    Ok(())
}

#[test]
fn message_missing_name_errors() {
    let config = RendererConfig::default();
    let message = MessageDescriptor::default();
    let result = MessageContext::new(&message, None, &config);
    assert!(matches!(result, Err(Error::Missing(_))));
}

#[test]
fn creates_fields_from_proto() -> Result<(), Error> {
    let config = RendererConfig::default();
    let mut proto = MessageDescriptor::default();
    proto.name = Some("enum_name".to_owned());
    proto.field.push(field("field0"));
    proto.field.push(field("field1"));
    let context = MessageContext::new(&proto, None, &config)?;
    assert_eq!(context.fields().get(0).map(|f| f.name()), Some("field0"));
    assert_eq!(context.fields().get(1).map(|f| f.name()), Some("field1"));
    Ok(())
}

#[test]
fn overlay() -> Result<(), Error> {
    let proto = MessageDescriptor { name: Some("MessageName".to_owned()), ..Default::default() };
    let package = "some.package";
    let mut inner = StrMap::new();
    inner.insert("some_key".to_owned(), serde_yaml::Value::String("some_value".to_owned()));
    let mut by_target = StrMap::new();
    by_target.insert("some.package.MessageName".to_owned(), inner);
    let config = RendererConfig { overlays: OverlayConfig::new(StrMap::new(), by_target), ..Default::default() };
    let context = MessageContext::new(&proto, Some(package), &config)?;
    assert_eq!(
        context.overlay("some_key").expect("key did not exist"),
        &serde_yaml::Value::String("some_value".to_owned())
    );
    Ok(())
}

#[test]
fn no_overlays_without_package() -> Result<(), Error> {
    let proto = MessageDescriptor { name: Some("MessageName".to_owned()), ..Default::default() };
    let context = MessageContext::new(&proto, None, &RendererConfig::default())?;
    assert_eq!(context.overlays().len(), 0);
    assert_eq!(full_name(None, &Some("M".to_owned())), None);
    assert_eq!(full_name(Some("p.q"), &Some("M".to_owned())), Some("p.q.M".to_owned()));
    Ok(())
}

fn map_entry(name: &str, key_kind: i32, value_kind: i32) -> MessageDescriptor {
    MessageDescriptor {
        name: Some(name.to_owned()),
        field: vec![
            FieldDescriptor { name: Some("key".to_owned()), kind: Some(key_kind), ..Default::default() },
            FieldDescriptor { name: Some("value".to_owned()), kind: Some(value_kind), ..Default::default() },
        ],
        options: Some(MessageOptions { map_entry: Some(true), ..Default::default() }),
        ..Default::default()
    }
}

#[test]
fn map_entries_by_fully_qualified_name() -> Result<(), Error> {
    assert_eq!(fully_qualify_map_type("Entry", "Outer", Some("pkg.sub")), ".pkg.sub.Outer.Entry");
    assert_eq!(fully_qualify_map_type("Entry", "Outer", None), ".Outer.Entry");
    let message = MessageDescriptor {
        name: Some("Outer".to_owned()),
        nested_type: vec![
            map_entry("AEntry", 9, 5),
            MessageDescriptor { name: Some("NotAMap".to_owned()), ..Default::default() },
        ],
        ..Default::default()
    };
    let data = collect_map_data(&message, Some("pkg"))?;
    assert_eq!(data.len(), 1);
    assert!(data.contains_key(".pkg.Outer.AEntry"));
    assert!(!data.contains_key(".pkg.Outer.NotAMap"));
    Ok(())
}

#[test]
fn map_entry_without_value_is_error() {
    let mut entry = map_entry("AEntry", 9, 5);
    entry.field.pop();
    let message = MessageDescriptor { name: Some("Outer".to_owned()), nested_type: vec![entry], ..Default::default() };
    assert_eq!(collect_map_data(&message, None).err(), Some(Error::MissingMapField("value".to_owned())));
    assert!(MessageContext::new(&message, None, &RendererConfig::default()).is_err());
}

#[test]
fn map_field_in_message() -> Result<(), Error> {
    let message = MessageDescriptor {
        name: Some("Outer".to_owned()),
        field: vec![FieldDescriptor {
            name: Some("things".to_owned()),
            type_ref: Some(".Outer.ThingsEntry".to_owned()),
            label: Some(3),
            ..Default::default()
        }],
        nested_type: vec![map_entry("ThingsEntry", 9, 2)],
        ..Default::default()
    };
    let context = MessageContext::new(&message, None, &RendererConfig::default())?;
    let f = &context.fields()[0];
    assert!(f.is_map());
    assert!(!f.is_array());
    assert_eq!(f.fully_qualified_key_type().map(String::as_str), Some("string"));
    assert_eq!(f.fully_qualified_value_type().map(String::as_str), Some("float"));
    Ok(())
}
