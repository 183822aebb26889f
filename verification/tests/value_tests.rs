use finance_miner::literal::parse_documents;
use finance_miner::text::decimal_string;
use finance_miner::value::{find_entry, to_display_string, ParsedValue};

fn text(s: &str) -> ParsedValue {
    ParsedValue::Text(s.to_string())
}

#[test]
fn decimal_string_renders_extremes() {
    assert_eq!(decimal_string(0), "0");
    assert_eq!(decimal_string(7), "7");
    assert_eq!(decimal_string(10), "10");
    assert_eq!(decimal_string(42), "42");
    assert_eq!(decimal_string(-7), "-7");
    assert_eq!(decimal_string(1002003), "1002003");
    assert_eq!(decimal_string(i64::MAX), "9223372036854775807");
    assert_eq!(decimal_string(i64::MIN), "-9223372036854775808");
}

#[test]
fn decimal_string_agrees_with_the_standard_rendering() {
    for value in [-1000i64, -999, -10, -9, -1, 0, 1, 9, 10, 99, 100, 12345, 1 << 40] {
        assert_eq!(decimal_string(value), value.to_string());
    }
}

#[test]
fn display_string_of_text_integer_and_boolean() {
    assert_eq!(to_display_string(&text("Sberbank")), "Sberbank");
    assert_eq!(to_display_string(&ParsedValue::Integer(42)), "42");
    assert_eq!(to_display_string(&ParsedValue::Boolean(true)), "true");
    assert_eq!(to_display_string(&ParsedValue::Boolean(false)), "false");
    assert_eq!(to_display_string(&ParsedValue::Integer(-15)), "-15");
}

#[test]
fn display_string_of_real_keeps_the_spelling() {
    assert_eq!(to_display_string(&ParsedValue::Real("1.50".to_string())), "1.50");
}

#[test]
fn display_string_of_other_shapes_is_empty() {
    assert_eq!(to_display_string(&ParsedValue::Null), "");
    assert_eq!(to_display_string(&ParsedValue::Invalid), "");
    assert_eq!(to_display_string(&ParsedValue::Alias(3)), "");
    assert_eq!(to_display_string(&ParsedValue::Sequence(vec![text("a")])), "");
    assert_eq!(
        to_display_string(&ParsedValue::Mapping(vec![(text("k"), text("v"))])),
        ""
    );
    assert_eq!(to_display_string(&ParsedValue::Sequence(vec![])), "");
}

#[test]
fn accessors_tell_the_shapes_apart() {
    let sequence = ParsedValue::Sequence(vec![ParsedValue::Integer(1)]);
    let mapping = ParsedValue::Mapping(vec![(text("k"), ParsedValue::Integer(2))]);
    assert_eq!(text("a").as_str(), Some(&"a".to_string()));
    assert_eq!(ParsedValue::Integer(1).as_str(), None);
    assert_eq!(ParsedValue::Integer(5).as_i64(), Some(5));
    assert_eq!(text("5").as_i64(), None);
    assert_eq!(sequence.as_vec().map(|v| v.len()), Some(1));
    assert!(mapping.as_vec().is_none());
    assert_eq!(mapping.as_hash().map(|e| e.len()), Some(1));
    assert!(sequence.as_hash().is_none());
}

#[test]
fn get_finds_the_value_under_a_text_key() {
    let mapping = ParsedValue::Mapping(vec![
        (ParsedValue::Integer(1), text("by number")),
        (text("code"), text("SBER")),
        (text("title"), text("MICEX")),
    ]);
    assert_eq!(mapping.get("code"), Some(&text("SBER")));
    assert_eq!(mapping.get("title"), Some(&text("MICEX")));
    assert_eq!(mapping.get("1"), None);
    assert_eq!(mapping.get("absent"), None);
    assert_eq!(text("code").get("code"), None);
    assert_eq!(ParsedValue::Sequence(vec![text("code")]).get("code"), None);
}

#[test]
fn find_entry_takes_the_first_of_equal_keys() {
    let entries = vec![
        (text("k"), ParsedValue::Integer(1)),
        (text("k"), ParsedValue::Integer(2)),
    ];
    assert_eq!(find_entry(&entries, "k"), Some(&ParsedValue::Integer(1)));
    assert_eq!(find_entry(&Vec::new(), "k"), None);
}

#[test]
fn parse_documents_reads_an_array_of_texts() {
    let docs = parse_documents("[\"1\",\"2\"]").unwrap();
    assert_eq!(docs, vec![ParsedValue::Sequence(vec![text("1"), text("2")])]);
}

#[test]
fn parse_documents_reads_every_scalar_shape() {
    let docs = parse_documents("[1, -2, 1.5, true, false, ~, abc, \"7\"]").unwrap();
    assert_eq!(
        docs,
        vec![ParsedValue::Sequence(vec![
            ParsedValue::Integer(1),
            ParsedValue::Integer(-2),
            ParsedValue::Real("1.5".to_string()),
            ParsedValue::Boolean(true),
            ParsedValue::Boolean(false),
            ParsedValue::Null,
            text("abc"),
            text("7"),
        ])]
    );
}

#[test]
fn parse_documents_reads_nested_mappings() {
    let docs = parse_documents("{quote: {code: \"SBER\", market: {title: \"MICEX\"}}}").unwrap();
    assert_eq!(
        docs,
        vec![ParsedValue::Mapping(vec![(
            text("quote"),
            ParsedValue::Mapping(vec![
                (text("code"), text("SBER")),
                (
                    text("market"),
                    ParsedValue::Mapping(vec![(text("title"), text("MICEX"))])
                ),
            ])
        )])]
    );
}

#[test]
fn parse_documents_orders_entries_by_key() {
    let docs = parse_documents("{\"b\": 1, \"a\": 2}").unwrap();
    assert_eq!(
        docs,
        vec![ParsedValue::Mapping(vec![
            (text("a"), ParsedValue::Integer(2)),
            (text("b"), ParsedValue::Integer(1)),
        ])]
    );
}

#[test]
fn parse_documents_of_empty_text_has_no_document() {
    assert_eq!(parse_documents(""), Some(Vec::new()));
}

#[test]
fn parse_documents_rejects_an_unclosed_array() {
    assert_eq!(parse_documents("[1, 2"), None);
}

#[test]
fn parse_documents_rejects_an_unknown_alias() {
    assert_eq!(parse_documents("[*missing]"), None);
}

#[test]
fn parse_documents_reads_several_documents() {
    let docs = parse_documents("--- 1\n--- [2]\n").unwrap();
    assert_eq!(
        docs,
        vec![ParsedValue::Integer(1), ParsedValue::Sequence(vec![ParsedValue::Integer(2)])]
    );
}
