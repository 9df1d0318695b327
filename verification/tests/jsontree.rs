use picoref::json::{at_index, field_str, get_field, int_of, parse_json, str_of, JsonValue};

#[test]
fn parsing_builds_the_expected_tree() {
    let v = parse_json("{\"a\": [1, \"x\", null, true], \"b\": 2.5}").unwrap();
    let a = get_field(&v, &"a".to_string()).unwrap();
    let first = at_index(a, 0).unwrap();
    assert_eq!(int_of(first), Some(1));
    let second = at_index(a, 1).unwrap();
    assert_eq!(str_of(second).as_deref(), Some("x"));
    assert!(matches!(at_index(a, 2).unwrap(), JsonValue::Null));
    assert!(matches!(at_index(a, 3).unwrap(), JsonValue::Bool(true)));
    assert!(at_index(a, 4).is_none());
    // a non-integer number keeps its text but denotes no i64
    let b = get_field(&v, &"b".to_string()).unwrap();
    assert_eq!(int_of(b), None);
    assert!(matches!(b, JsonValue::Num(None, t) if t == "2.5"));
}

#[test]
fn missing_fields_and_non_strings_read_as_nothing() {
    let v = parse_json("{\"n\": 7}").unwrap();
    assert!(get_field(&v, &"m".to_string()).is_none());
    assert!(field_str(&v, &"n".to_string()).is_none());
    assert!(str_of(&v).is_none());
    assert!(int_of(&v).is_none());
}

#[test]
fn invalid_text_does_not_parse() {
    assert!(parse_json("{not json").is_none());
    assert!(parse_json("").is_none());
}
