use protox::error::Error;
use protox::option_kv::{insert_custom_options, split_kv_or_error};
use protox::str_map::StrMap;

fn pair(a: &str, b: &str) -> (String, String) {
    (a.to_string(), b.to_string())
}

#[test]
fn single_separator() -> Result<(), Error> {
    assert_eq!(split_kv_or_error("key=value")?, pair("key", "value"));
    Ok(())
}

#[test]
fn multiple_separators() -> Result<(), Error> {
    assert_eq!(split_kv_or_error("key==value")?, pair("key", "=value"));
    assert_eq!(split_kv_or_error("key=value=asd")?, pair("key", "value=asd"));
    Ok(())
}

#[test]
fn empty_key() {
    assert!(split_kv_or_error("=value").is_err());
}

#[test]
fn empty_value() {
    assert!(split_kv_or_error("key=").is_err());
}

#[test]
fn no_separator() {
    assert!(split_kv_or_error("keyvalue").is_err());
}

#[test]
fn invalid_separator() {
    assert_eq!(split_kv_or_error("key;value"), Err(Error::InvalidKeyValue("key;value".to_string())));
}

#[test]
fn test_insert_custom_options() -> Result<(), Error> {
    let mut map: StrMap<String> = StrMap::new();
    insert_custom_options(&mut map, &vec!["key0=value0".to_string(), "key1=value1".to_string()])?;
    assert_eq!(map.get("key0"), Some(&"value0".to_string()));
    assert_eq!(map.get("key1"), Some(&"value1".to_string()));
    Ok(())
}

#[test]
fn later_option_replaces_earlier() -> Result<(), Error> {
    let mut map: StrMap<String> = StrMap::new();
    insert_custom_options(&mut map, &vec!["k=1".to_string(), "k=2".to_string()])?;
    assert_eq!(map.len(), 1);
    assert_eq!(map.get("k"), Some(&"2".to_string()));
    Ok(())
}

#[test]
fn invalid_option_stops_insertion() {
    let mut map: StrMap<String> = StrMap::new();
    let r = insert_custom_options(&mut map, &vec!["a=1".to_string(), "bad".to_string(), "c=3".to_string()]);
    assert_eq!(r, Err(Error::InvalidKeyValue("bad".to_string())));
    assert_eq!(map.get("a"), Some(&"1".to_string()));
    assert!(!map.contains_key("c"));
}
