use rrr_make::util::serde::{read_kind, field_kind, DoubleOption, ExplicitNone, ExplicitOption, FieldKind};

#[test]
fn explicit_none_is_written_as_none() {
    assert_eq!(ExplicitNone::as_str(), "none");
}

#[test]
fn explicit_none_reads_only_none() {
    assert!(ExplicitNone::from_text("none").is_some());
    assert!(ExplicitNone::from_text("None").is_none());
    assert!(ExplicitNone::from_text("nonE").is_none());
    assert!(ExplicitNone::from_text("").is_none());
    assert!(ExplicitNone::from_text("none ").is_none());
}

#[test]
fn explicit_option_converts_both_ways() {
    let some: ExplicitOption<u64> = ExplicitOption::from_option(Some(7));
    assert_eq!(some, ExplicitOption::Value(7));
    assert_eq!(some.into_option(), Some(7));
    let none: ExplicitOption<u64> = ExplicitOption::from_option(None);
    assert!(none.is_none());
    assert_eq!(none.into_option(), None);
    let default: ExplicitOption<u64> = ExplicitOption::default();
    assert_eq!(default, ExplicitOption::none());
}

#[test]
fn three_states_round_trip() {
    let unset: DoubleOption<String> = None;
    let explicit_none: DoubleOption<String> = Some(ExplicitOption::none());
    let value: DoubleOption<String> = Some(ExplicitOption::Value("World".to_string()));
    assert_eq!(field_kind(&unset), FieldKind::Unset);
    assert_eq!(field_kind(&explicit_none), FieldKind::ExplicitNone);
    assert_eq!(field_kind(&value), FieldKind::Value);
    // Written forms: left out, the string "none", the value's own form.
    assert_eq!(read_kind(None), FieldKind::Unset);
    assert_eq!(read_kind(Some(Some(ExplicitNone::as_str()))), FieldKind::ExplicitNone);
    assert_eq!(read_kind(Some(Some("World"))), FieldKind::Value);
    assert_eq!(read_kind(Some(None)), FieldKind::Value);
}

/// What a written field reads back as, from a TOML document.
fn read_back(document: &str) -> FieldKind {
    let table = toml::from_str::<toml::Table>(document).unwrap();
    match table.get("optional_field") {
        None => read_kind(None),
        Some(toml::Value::String(s)) => read_kind(Some(Some(s.as_str()))),
        Some(_) => read_kind(Some(None)),
    }
}

#[test]
fn explicit_option_toml() {
    // Unset: the field is left out.
    let unset = toml::Table::new();
    let written = toml::to_string(&unset).unwrap();
    assert_eq!(written, "");
    assert_eq!(read_back(&written), FieldKind::Unset);

    // Explicit none: the field holds the string "none".
    let mut explicit_none = toml::Table::new();
    explicit_none.insert("optional_field".to_string(), toml::Value::String(ExplicitNone::as_str().to_string()));
    let written = toml::to_string(&explicit_none).unwrap();
    assert_eq!(written, "optional_field = \"none\"\n");
    assert_eq!(read_back(&written), FieldKind::ExplicitNone);

    // A value: the field holds the value's own form.
    let mut inner = toml::Table::new();
    inner.insert("hello".to_string(), toml::Value::String("World".to_string()));
    let mut value = toml::Table::new();
    value.insert("optional_field".to_string(), toml::Value::Table(inner));
    let written = toml::to_string(&value).unwrap();
    assert_eq!(read_back(&written), FieldKind::Value);

    let mut number = toml::Table::new();
    number.insert("optional_field".to_string(), toml::Value::Integer(0));
    assert_eq!(read_back(&toml::to_string(&number).unwrap()), FieldKind::Value);

    let mut text = toml::Table::new();
    text.insert("optional_field".to_string(), toml::Value::String("World".to_string()));
    assert_eq!(read_back(&toml::to_string(&text).unwrap()), FieldKind::Value);
}
