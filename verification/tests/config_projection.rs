use outpost_metadata::config::{property_json, task_metadata, ConfigEntry};
use serde_json::Value;

fn entry(key: &str, value: &str) -> ConfigEntry {
    ConfigEntry { key: key.to_string(), value: value.to_string() }
}

fn text(s: &str) -> Value {
    Value::String(s.to_string())
}

fn members(doc: &Value) -> Vec<String> {
    doc.as_object().unwrap().keys().cloned().collect()
}

#[test]
fn empty_configuration_gives_only_empty_capabilities() {
    let doc = task_metadata(&Vec::new());
    assert_eq!(members(&doc), vec!["capabilities".to_string()]);
    assert_eq!(doc["capabilities"], Value::Array(Vec::new()));
}

#[test]
fn unrecognised_keys_are_dropped() {
    let entries = vec![
        entry("CONFIG_ARCH_ARM", "y"),
        entry("CONFIG_TASKS_FOO", "1"),
        entry("CONFIG_CAPS", "y"),
        entry("config_task_foo", "y"),
        entry("XCONFIG_TASK_FOO", "y"),
        entry("CONFIG_TASK", "y"),
        entry("", ""),
    ];
    let doc = task_metadata(&entries);
    assert_eq!(members(&doc), vec!["capabilities".to_string()]);
    assert_eq!(doc["capabilities"], Value::Array(Vec::new()));
}

#[test]
fn task_key_with_y_becomes_one() {
    let doc = task_metadata(&vec![entry("CONFIG_TASK_FOO", "y")]);
    assert_eq!(doc["foo"], text("1"));
    assert_eq!(members(&doc), vec!["capabilities".to_string(), "foo".to_string()]);
}

#[test]
fn task_key_keeps_other_values() {
    let doc = task_metadata(&vec![
        entry("CONFIG_TASK_FOO", "bar"),
        entry("CONFIG_TASK_UPPER", "Y"),
        entry("CONFIG_TASK_WORD", "yes"),
        entry("CONFIG_TASK_NO", "n"),
        entry("CONFIG_TASK_EMPTY", ""),
        entry("CONFIG_TASK_MIXED", "BaR 0x10"),
    ]);
    assert_eq!(doc["foo"], text("bar"));
    assert_eq!(doc["upper"], text("Y"));
    assert_eq!(doc["word"], text("yes"));
    assert_eq!(doc["no"], text("n"));
    assert_eq!(doc["empty"], text(""));
    assert_eq!(doc["mixed"], text("BaR 0x10"));
}

#[test]
fn property_names_are_stripped_and_lowered() {
    let doc = task_metadata(&vec![
        entry("CONFIG_TASK_Stack_SIZE", "4096"),
        entry("CONFIG_TASK_", "nameless"),
    ]);
    assert_eq!(doc["stack_size"], text("4096"));
    assert_eq!(doc[""], text("nameless"));
    assert_eq!(
        members(&doc),
        vec!["".to_string(), "capabilities".to_string(), "stack_size".to_string()]
    );
}

#[test]
fn capability_key_lists_capability_whatever_its_value() {
    for value in ["y", "n", "", "anything"] {
        let doc = task_metadata(&vec![entry("CONFIG_CAP_NET", value)]);
        assert_eq!(doc["capabilities"], Value::Array(vec![text("net")]));
        assert_eq!(members(&doc), vec!["capabilities".to_string()]);
    }
}

#[test]
fn capabilities_keep_order_and_repeats() {
    let doc = task_metadata(&vec![
        entry("CONFIG_CAP_NET", "y"),
        entry("CONFIG_TASK_FOO", "y"),
        entry("CONFIG_CAP_DEV_Timer", "y"),
        entry("CONFIG_OTHER", "y"),
        entry("CONFIG_CAP_NET", "n"),
    ]);
    assert_eq!(
        doc["capabilities"],
        Value::Array(vec![text("net"), text("dev_timer"), text("net")])
    );
    assert_eq!(doc["foo"], text("1"));
}

#[test]
fn last_duplicate_task_key_wins() {
    let doc = task_metadata(&vec![
        entry("CONFIG_TASK_FOO", "first"),
        entry("CONFIG_TASK_BAR", "other"),
        entry("CONFIG_TASK_FOO", "y"),
        entry("CONFIG_TASK_foo", "last"),
    ]);
    assert_eq!(doc["foo"], text("last"));
    assert_eq!(doc["bar"], text("other"));
    let doc = task_metadata(&vec![entry("CONFIG_TASK_FOO", "a"), entry("CONFIG_TASK_FOO", "y")]);
    assert_eq!(doc["foo"], text("1"));
}

#[test]
fn capabilities_member_replaces_property_of_that_name() {
    let doc = task_metadata(&vec![
        entry("CONFIG_TASK_CAPABILITIES", "mine"),
        entry("CONFIG_CAP_IO", "y"),
    ]);
    assert_eq!(doc["capabilities"], Value::Array(vec![text("io")]));
    assert_eq!(members(&doc), vec!["capabilities".to_string()]);
}

#[test]
fn property_json_coerces_only_y() {
    assert_eq!(property_json("y"), text("1"));
    assert_eq!(property_json("Y"), text("Y"));
    assert_eq!(property_json("1"), text("1"));
    assert_eq!(property_json("yy"), text("yy"));
    assert_eq!(property_json(""), text(""));
}

#[test]
fn task_metadata_is_deterministic() {
    let entries = vec![
        entry("CONFIG_TASK_FOO", "y"),
        entry("CONFIG_CAP_NET", "y"),
        entry("CONFIG_TASK_PRIORITY", "42"),
    ];
    assert_eq!(task_metadata(&entries), task_metadata(&entries));
    assert_eq!(
        task_metadata(&entries).to_string(),
        "{\"capabilities\":[\"net\"],\"foo\":\"1\",\"priority\":\"42\"}"
    );
}
