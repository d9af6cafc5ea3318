use select_option::{AnyMap, AnyValue};

#[test]
fn an_empty_map_holds_nothing() {
    let map = AnyMap::new();
    assert!(map.get("id").is_none());
    assert_eq!(map.get_str_value("id"), None);
    assert_eq!(map.get_i64_value("color"), None);
}

#[test]
fn a_string_is_read_back_under_its_key() {
    let mut map = AnyMap::new();
    map.insert_str_value("name", "Done".to_string());
    assert_eq!(map.get_str_value("name"), Some("Done".to_string()));
    assert_eq!(map.get_str_value("id"), None);
    assert!(matches!(map.get("name"), Some(AnyValue::Str(text)) if text == "Done"));
}

#[test]
fn an_integer_is_read_back_under_its_key() {
    let mut map = AnyMap::new();
    map.insert_i64_value("color", 4);
    assert_eq!(map.get_i64_value("color"), Some(4));
    assert!(matches!(map.get("color"), Some(AnyValue::Int(4))));
}

#[test]
fn a_value_of_another_type_is_not_read() {
    let mut map = AnyMap::new();
    map.insert_i64_value("id", 12);
    map.insert_str_value("color", "3".to_string());
    assert_eq!(map.get_str_value("id"), None);
    assert_eq!(map.get_i64_value("color"), None);
    assert_eq!(map.get_i64_value("id"), Some(12));
    assert_eq!(map.get_str_value("color"), Some("3".to_string()));
}

#[test]
fn a_second_insert_replaces_the_first() {
    let mut map = AnyMap::new();
    map.insert_str_value("name", "To do".to_string());
    map.insert_str_value("id", "a1".to_string());
    map.insert_str_value("name", "Doing".to_string());
    assert_eq!(map.get_str_value("name"), Some("Doing".to_string()));
    assert_eq!(map.get_str_value("id"), Some("a1".to_string()));
    map.insert_i64_value("name", 7);
    assert_eq!(map.get_str_value("name"), None);
    assert_eq!(map.get_i64_value("name"), Some(7));
}

#[test]
fn keys_are_compared_exactly() {
    let mut map = AnyMap::new();
    map.insert(" id", AnyValue::Int(1));
    map.insert("ID", AnyValue::Int(2));
    map.insert("", AnyValue::Int(3));
    assert_eq!(map.get_i64_value("id"), None);
    assert_eq!(map.get_i64_value(" id"), Some(1));
    assert_eq!(map.get_i64_value("ID"), Some(2));
    assert_eq!(map.get_i64_value(""), Some(3));
}
