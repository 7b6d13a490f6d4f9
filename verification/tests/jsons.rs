use mexc_lag::json::{
    parse_json, with_fields, with_fields_or_alone, FieldValue, Json, SetError,
};

#[test]
fn values_are_read() {
    let v = parse_json(r#"{"a":1,"b":"x","c":true,"d":null,"e":1.5,"f":[1,"y"]}"#).unwrap();
    assert_eq!(v.int_field("a"), Some(1));
    assert_eq!(v.text_field("b"), Some("x".to_string()));
    assert_eq!(v.flag_field("c"), Some(true));
    assert!(matches!(v.get("d"), Some(Json::Null)));
    assert!(matches!(v.get("e"), Some(Json::Number(None, t)) if t == "1.5"));
    assert!(v.int_field("e").is_none());
    assert!(v.int_field("b").is_none());
    assert!(v.text_field("a").is_none());
    assert!(v.flag_field("a").is_none());
    assert!(v.get("g").is_none());
    match v.get("f") {
        Some(Json::Array(items)) => {
            assert_eq!(items.len(), 2);
            assert!(matches!(&items[0], Json::Number(Some(1), t) if t == "1"));
            assert!(matches!(&items[1], Json::Text(s) if s == "y"));
        }
        _ => panic!("no array"),
    }
}

#[test]
fn what_is_no_json_is_not_read() {
    for t in ["", "{", "abc", "{\"a\":}", "[1,]", "1 2"] {
        assert!(parse_json(t).is_none(), "{}", t);
    }
}

#[test]
fn the_last_field_of_a_name_counts() {
    let v = parse_json(r#"{"a":1,"a":2}"#).unwrap();
    assert_eq!(v.int_field("a"), Some(2));
}

#[test]
fn large_numbers_are_no_integers() {
    let v = parse_json(r#"{"a":9223372036854775807,"b":9223372036854775808}"#).unwrap();
    assert_eq!(v.int_field("a"), Some(i64::MAX));
    assert!(v.int_field("b").is_none());
}

fn sample() -> Vec<(String, FieldValue)> {
    vec![
        ("n".to_string(), FieldValue::Number(-5)),
        ("t".to_string(), FieldValue::Text("a\"b".to_string())),
        ("f".to_string(), FieldValue::Flag(false)),
    ]
}

#[test]
fn set_fields_are_read_back_and_others_kept() {
    let new = with_fields(r#"{"n":1,"other":{"x":[1,2]},"u":"v"}"#, &sample()).unwrap();
    let v = parse_json(&new).unwrap();
    assert_eq!(v.int_field("n"), Some(-5));
    assert_eq!(v.text_field("t"), Some("a\"b".to_string()));
    assert_eq!(v.flag_field("f"), Some(false));
    assert_eq!(v.text_field("u"), Some("v".to_string()));
    assert!(matches!(v.get("other"), Some(Json::Object(_))));
    assert!(new.contains("\n  \"n\": -5"));
}

#[test]
fn fields_are_set_in_nothing() {
    let v = parse_json(&with_fields("null", &sample()).unwrap()).unwrap();
    assert_eq!(v.int_field("n"), Some(-5));
}

#[test]
fn the_first_of_two_fields_with_a_name_counts() {
    let fields = vec![
        ("a".to_string(), FieldValue::Number(1)),
        ("a".to_string(), FieldValue::Number(2)),
    ];
    let v = parse_json(&with_fields("{}", &fields).unwrap()).unwrap();
    assert_eq!(v.int_field("a"), Some(1));
}

#[test]
fn fields_are_not_set_in_something_else() {
    assert_eq!(with_fields("{", &sample()), Err(SetError::NoJson));
    assert_eq!(with_fields("[1]", &sample()), Err(SetError::NoObject));
    assert_eq!(with_fields("7", &sample()), Err(SetError::NoObject));
}

#[test]
fn fields_stand_alone_where_there_is_no_object() {
    for start in [None, Some("{"), Some("[1]"), Some("null")] {
        let v = parse_json(&with_fields_or_alone(start, &sample())).unwrap();
        assert_eq!(v.int_field("n"), Some(-5));
        assert!(v.get("u").is_none());
    }
    let v = parse_json(&with_fields_or_alone(Some(r#"{"u":"v"}"#), &sample())).unwrap();
    assert_eq!(v.text_field("u"), Some("v".to_string()));
}

#[test]
fn deep_texts_are_not_read() {
    let deep = "[".repeat(127) + &"]".repeat(127);
    assert!(parse_json(&deep).is_some());
    let deeper = "[".repeat(128) + &"]".repeat(128);
    assert!(parse_json(&deeper).is_none());
}

#[test]
fn fields_beside_other_numbers_are_read_back() {
    let new = with_fields(r#"{"x":1.5e300,"y":0.1,"k":7,"t":"s"}"#, &sample()).unwrap();
    let v = parse_json(&new).unwrap();
    assert_eq!(v.int_field("k"), Some(7));
    assert_eq!(v.text_field("t"), Some("a\"b".to_string()));
    assert_eq!(v.int_field("n"), Some(-5));
    assert!(matches!(v.get("x"), Some(Json::Number(None, _))));
}

fn number_text(v: &Json, name: &str) -> String {
    match v.get(name) {
        Some(Json::Number(_, t)) => t.clone(),
        _ => panic!("no number"),
    }
}

#[test]
fn decimals_are_kept() {
    let old = r#"{"a":1.5,"b":100.0,"c":0.00012,"d":123456789.012345,"e":-0,"g":[2.25]}"#;
    let v = parse_json(&with_fields(old, &sample()).unwrap()).unwrap();
    assert_eq!(number_text(&v, "a"), "1.5");
    assert_eq!(number_text(&v, "b"), "100.0");
    assert_eq!(number_text(&v, "c"), "0.00012");
    assert_eq!(number_text(&v, "d"), "123456789.012345");
    assert_eq!(number_text(&v, "e"), "-0.0");
    assert_eq!(number_text(&v, "n"), "-5");
    match v.get("g") {
        Some(Json::Array(items)) => {
            assert!(matches!(&items[0], Json::Number(None, t) if t == "2.25"));
        }
        _ => panic!("no array"),
    }
    assert!(v.get("h").is_none());
}

#[test]
fn large_and_small_decimals_have_an_exponent() {
    let v = parse_json(r#"{"a":1e16,"b":1e15,"c":0.0000001}"#).unwrap();
    assert_eq!(number_text(&v, "a"), "1e+16");
    assert_eq!(number_text(&v, "b"), "1000000000000000.0");
    assert_eq!(number_text(&v, "c"), "1e-7");
    let old = r#"{"c":-0.000000123456789,"d":1e99,"e":1e-300}"#;
    let v = parse_json(&with_fields(old, &sample()).unwrap()).unwrap();
    assert_eq!(number_text(&v, "c"), "-1.23456789e-7");
    assert_eq!(v.int_field("n"), Some(-5));
}

#[test]
fn an_object_with_the_private_name_is_read_as_its_text() {
    let text = r#"{"$serde_json::private::RawValue":"[\"x\"]"}"#;
    assert!(matches!(parse_json(text), Some(Json::Array(_))));
    let new = with_fields_or_alone(Some(text), &sample());
    assert!(new.contains("$serde_json::private::RawValue"));
    assert!(new.contains("\"n\": -5"));
}
