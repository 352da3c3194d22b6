use rotuli::datum::{Datum, Number};
use rotuli::error::{MetadataFault, SiteError};
use rotuli::metadata::Metadata;

fn text(s: &str) -> Datum {
    Datum::String(s.to_string())
}

fn sample() -> Metadata {
    Metadata::new(vec![
        ("title".to_string(), text("Hello")),
        ("ok".to_string(), Datum::Bool(true)),
        ("draft".to_string(), Datum::Bool(false)),
        ("tags".to_string(), Datum::Sequence(vec![text("a"), text("b")])),
    ])
}

#[test]
fn get_finds_the_value_of_a_key() {
    let m = sample();
    assert_eq!(m.get("title"), Some(&text("Hello")));
    assert_eq!(m.get("ok"), Some(&Datum::Bool(true)));
    assert_eq!(m.get("missing"), None);
    assert_eq!(m.get("Title"), None);
}

#[test]
fn get_takes_the_first_entry_of_a_key() {
    let m = Metadata::new(vec![("k".to_string(), text("first")), ("k".to_string(), text("second"))]);
    assert_eq!(m.get("k"), Some(&text("first")));
}

#[test]
fn get_bool_or_default_reads_truth_values() {
    let m = sample();
    assert!(matches!(m.get_bool_or_default("ok", false), Ok(true)));
    assert!(matches!(m.get_bool_or_default("draft", true), Ok(false)));
    assert!(matches!(m.get_bool_or_default("missing", true), Ok(true)));
    assert!(matches!(m.get_bool_or_default("missing", false), Ok(false)));
    assert!(matches!(m.get_bool_or_false("missing"), Ok(false)));
    assert!(matches!(m.get_bool_or_false("ok"), Ok(true)));
}

#[test]
fn get_bool_or_default_refuses_other_values() {
    let m = sample();
    match m.get_bool_or_default("title", false) {
        Err(SiteError::TypeMismatch { key }) => assert_eq!(key, "title"),
        other => panic!("expected a type mismatch, got {:?}", other),
    }
    assert!(matches!(m.get_bool_or_false("tags"), Err(SiteError::TypeMismatch { .. })));
}

#[test]
fn get_text_reads_texts_only() {
    let m = sample();
    assert_eq!(m.get_text("title"), Some(&"Hello".to_string()));
    assert_eq!(m.get_text("ok"), None);
    assert_eq!(m.get_text("missing"), None);
}

#[test]
fn keys_come_in_the_order_of_the_block() {
    assert_eq!(sample().keys(), vec!["title", "ok", "draft", "tags"]);
    assert_eq!(Metadata::new(vec![]).keys(), Vec::<String>::new());
}

#[test]
fn contains_key_goes_by_presence() {
    let m = Metadata::new(vec![("empty".to_string(), Datum::Null)]);
    assert!(m.contains_key("empty"));
    assert!(!m.contains_key("other"));
}

#[test]
fn from_string_reads_a_yaml_mapping() {
    let m = Metadata::from_string("title: Hello\nok: true\ncount: 3\nnothing: ~\n").unwrap();
    assert_eq!(m.keys(), vec!["title", "ok", "count", "nothing"]);
    assert_eq!(m.get("title"), Some(&text("Hello")));
    assert_eq!(m.get("ok"), Some(&Datum::Bool(true)));
    assert_eq!(m.get("count"), Some(&Datum::Number(Number::PosInt(3))));
    assert_eq!(m.get("nothing"), Some(&Datum::Null));
}

#[test]
fn from_string_reads_nested_values() {
    let m = Metadata::from_string("tags: [a, b]\nauthor:\n  name: Ann\n  age: -4\nratio: 1.5\n").unwrap();
    assert_eq!(m.get("tags"), Some(&Datum::Sequence(vec![text("a"), text("b")])));
    assert_eq!(
        m.get("author"),
        Some(&Datum::Mapping(vec![
            ("name".to_string(), text("Ann")),
            ("age".to_string(), Datum::Number(Number::NegInt(-4))),
        ]))
    );
    assert_eq!(m.get("ratio"), Some(&Datum::Number(Number::Float("1.5".to_string()))));
}

#[test]
fn from_string_keeps_the_order_of_declaration() {
    let m = Metadata::from_string("zebra: 1\napple: 2\nmango: 3\n").unwrap();
    assert_eq!(m.keys(), vec!["zebra", "apple", "mango"]);
}

#[test]
fn from_string_refuses_malformed_yaml() {
    assert!(matches!(Metadata::from_string("a: [1, 2"), Err(MetadataFault::Syntax(_))));
    assert!(matches!(Metadata::from_string("a: b: c: d"), Err(MetadataFault::Syntax(_))));
}

#[test]
fn from_string_refuses_what_is_no_mapping() {
    assert!(matches!(Metadata::from_string("- a\n- b\n"), Err(MetadataFault::Syntax(_))));
    assert!(matches!(Metadata::from_string("just a text"), Err(MetadataFault::Syntax(_))));
}

#[test]
fn from_string_refuses_keys_that_are_no_strings() {
    assert!(matches!(Metadata::from_string("1: one\n"), Err(MetadataFault::NotAMapping)));
    assert!(matches!(
        Metadata::from_string("outer:\n  true: nested\n"),
        Err(MetadataFault::NotAMapping)
    ));
}

#[test]
fn from_value_takes_mappings_only() {
    let m = Metadata::from_value(Datum::Mapping(vec![("a".to_string(), Datum::Bool(true))])).unwrap();
    assert_eq!(m.keys(), vec!["a"]);
    assert!(matches!(Metadata::from_value(Datum::Null), Err(MetadataFault::NotAMapping)));
    assert!(matches!(Metadata::from_value(text("x")), Err(MetadataFault::NotAMapping)));
    assert!(matches!(
        Metadata::from_value(Datum::Sequence(vec![])),
        Err(MetadataFault::NotAMapping)
    ));
}

#[test]
fn datum_equality_goes_by_content() {
    let a = Datum::Mapping(vec![("k".to_string(), Datum::Sequence(vec![Datum::Number(Number::PosInt(1))]))]);
    let b = Datum::Mapping(vec![("k".to_string(), Datum::Sequence(vec![Datum::Number(Number::PosInt(1))]))]);
    let c = Datum::Mapping(vec![("k".to_string(), Datum::Sequence(vec![Datum::Number(Number::PosInt(2))]))]);
    assert_eq!(a, b);
    assert_ne!(a, c);
    assert_ne!(Datum::Null, Datum::Bool(false));
    assert_ne!(Datum::Number(Number::PosInt(1)), Datum::Number(Number::NegInt(1)));
    assert_ne!(Datum::Sequence(vec![]), Datum::Mapping(vec![]));
    assert_eq!(a.clone(), a);
}

#[test]
fn number_from_readings_prefers_whole_numbers() {
    assert_eq!(Number::from_readings(Some(3), Some(3), "3".to_string()), Number::PosInt(3));
    assert_eq!(Number::from_readings(None, Some(-3), "-3".to_string()), Number::NegInt(-3));
    assert_eq!(
        Number::from_readings(None, None, "0.5".to_string()),
        Number::Float("0.5".to_string())
    );
}
