use protox::overlay::{OverlayConfig, ValueTargets};
use protox::str_map::StrMap;
use std::collections::HashMap;

fn yaml_string(value: &str) -> serde_yaml::Value {
    serde_yaml::Value::String(value.to_owned())
}

fn value_targets(value: &str, targets: &[&str]) -> ValueTargets {
    ValueTargets { value: yaml_string(value), targets: targets.iter().map(|t| t.to_string()).collect() }
}

fn by_key(entries: Vec<(&str, &str, &[&str])>) -> StrMap<ValueTargets> {
    let mut m = StrMap::new();
    for (key, value, targets) in entries {
        m.insert(key.to_string(), value_targets(value, targets));
    }
    m
}

fn by_target(entries: Vec<(&str, &[(&str, &str)])>) -> StrMap<StrMap<serde_yaml::Value>> {
    let mut m = StrMap::new();
    for (target, kv) in entries {
        let mut inner = StrMap::new();
        for (k, v) in kv {
            inner.insert(k.to_string(), yaml_string(v));
        }
        m.insert(target.to_string(), inner);
    }
    m
}

fn as_hash(m: Option<&StrMap<serde_yaml::Value>>) -> Option<HashMap<String, serde_yaml::Value>> {
    m.map(|m| m.entries().iter().map(|(k, v)| (k.clone(), v.clone())).collect())
}

fn arbitrary_by_key() -> StrMap<ValueTargets> {
    by_key(vec![("key0", "value0", &["target0"]), ("key0", "value0", &["target0", "target1"])])
}

fn arbitrary_by_target() -> StrMap<StrMap<serde_yaml::Value>> {
    by_target(vec![("target0", &[("key2", "value2"), ("key3", "value3")]), ("target1", &[("key0", "value5")])])
}

#[test]
fn true_after_initialize_with_by_key_config() {
    let mut config = OverlayConfig::from_tables(arbitrary_by_key(), StrMap::new());
    assert!(!config.is_initialized());
    config.initialize();
    assert!(config.is_initialized());
}

#[test]
fn true_after_initialize_with_by_target_config() {
    let mut config = OverlayConfig::from_tables(StrMap::new(), arbitrary_by_target());
    assert!(!config.is_initialized());
    config.initialize();
    assert!(config.is_initialized());
}

#[test]
fn new_initializes_automatically() {
    let config = OverlayConfig::new(arbitrary_by_key(), arbitrary_by_target());
    assert!(config.is_initialized());
}

#[test]
fn from_by_key_data() {
    let config = OverlayConfig::new(
        by_key(vec![("key0", "value0", &["target0"]), ("key1", "value1", &["target0", "target1"])]),
        StrMap::new(),
    );
    assert_eq!(
        as_hash(config.by_target("target0")),
        Some(HashMap::from([
            ("key0".to_string(), yaml_string("value0")),
            ("key1".to_string(), yaml_string("value1")),
        ]))
    );
    assert_eq!(
        as_hash(config.by_target("target1")),
        Some(HashMap::from([("key1".to_string(), yaml_string("value1"))]))
    );
}

#[test]
fn from_by_target_data() {
    let config = OverlayConfig::new(
        StrMap::new(),
        by_target(vec![
            ("target0", &[("key0", "value0"), ("key1", "value1")]),
            ("target1", &[("key0", "value1"), ("key2", "value2")]),
        ]),
    );
    assert_eq!(
        as_hash(config.by_target("target0")),
        Some(HashMap::from([
            ("key0".to_string(), yaml_string("value0")),
            ("key1".to_string(), yaml_string("value1")),
        ]))
    );
    assert_eq!(
        as_hash(config.by_target("target1")),
        Some(HashMap::from([
            ("key0".to_string(), yaml_string("value1")),
            ("key2".to_string(), yaml_string("value2")),
        ]))
    );
}

#[test]
fn both_by_key_and_target() {
    let config = OverlayConfig::new(
        by_key(vec![("key0", "value0", &["target0"])]),
        by_target(vec![("target0", &[("key1", "value1")])]),
    );
    assert_eq!(
        as_hash(config.by_target("target0")),
        Some(HashMap::from([
            ("key0".to_string(), yaml_string("value0")),
            ("key1".to_string(), yaml_string("value1")),
        ]))
    );
}

#[test]
fn by_target_overrides_by_key() {
    let config = OverlayConfig::new(
        by_key(vec![("key0", "value0", &["target0"])]),
        by_target(vec![("target0", &[("key0", "override_value!")])]),
    );
    assert_eq!(
        as_hash(config.by_target("target0")),
        Some(HashMap::from([("key0".to_string(), yaml_string("override_value!"))]))
    );
}

#[test]
fn initializing_twice_changes_nothing() {
    let mut config = OverlayConfig::new(
        by_key(vec![("key0", "value0", &["target0", "target1"])]),
        by_target(vec![("target0", &[("key1", "value1")])]),
    );
    let once = (as_hash(config.by_target("target0")), as_hash(config.by_target("target1")));
    config.initialize();
    let twice = (as_hash(config.by_target("target0")), as_hash(config.by_target("target1")));
    assert_eq!(once, twice);
    assert_eq!(config.by_target("missing").is_none(), true);
    assert_eq!(config.by_target_opt_clone(&None).len(), 0);
    assert_eq!(config.by_target_opt_clone(&Some("target1".to_string())).len(), 1);
}
