use finance_miner::detail::{
    apply_detail, issue_pattern, parse_capture, parse_detail, resolve_code, resolve_market_name,
    select_document,
};
use finance_miner::emitent::Emitent;
use finance_miner::error::{MinerError, ParseError};
use finance_miner::pattern::Pattern;
use finance_miner::value::ParsedValue;

fn text(s: &str) -> ParsedValue {
    ParsedValue::Text(s.to_string())
}

fn mapping(entries: Vec<(&str, ParsedValue)>) -> ParsedValue {
    ParsedValue::Mapping(entries.into_iter().map(|(k, v)| (text(k), v)).collect())
}

fn not_found(details: &str) -> MinerError {
    MinerError::ParseError(ParseError::BlockNotFound(details.to_string()))
}

fn full_detail() -> ParsedValue {
    mapping(vec![(
        "quote",
        mapping(vec![
            ("code", text("SBER")),
            ("market", mapping(vec![("title", text("MICEX"))])),
        ]),
    )])
}

#[test]
fn detail_resolves_code_and_market_name() {
    let info = full_detail();
    assert_eq!(resolve_code(&info), "SBER");
    assert_eq!(resolve_market_name(&info), "MICEX");
}

#[test]
fn detail_with_empty_quote_resolves_to_empty_strings() {
    let info = mapping(vec![("quote", mapping(vec![]))]);
    assert_eq!(resolve_code(&info), "");
    assert_eq!(resolve_market_name(&info), "");
}

#[test]
fn detail_of_wrong_shape_resolves_to_empty_strings() {
    for info in [
        ParsedValue::Null,
        text("quote"),
        mapping(vec![]),
        mapping(vec![("quote", text("SBER"))]),
        mapping(vec![("quote", mapping(vec![("code", ParsedValue::Integer(5))]))]),
        mapping(vec![("quote", mapping(vec![("market", text("MICEX"))]))]),
        mapping(vec![(
            "quote",
            mapping(vec![("market", mapping(vec![("title", ParsedValue::Boolean(true))]))]),
        )]),
    ] {
        assert_eq!(resolve_code(&info), "");
        assert_eq!(resolve_market_name(&info), "");
    }
}

#[test]
fn apply_detail_fills_only_the_resolved_fields() {
    let mut record = Emitent::bare(3, "17".to_string());
    record.name = "Sberbank".to_string();
    record.uri = "sberbank".to_string();
    apply_detail(&mut record, &full_detail());
    assert_eq!(record.code, "SBER");
    assert_eq!(record.market_name, "MICEX");
    assert_eq!(record.internal_id, 3);
    assert_eq!(record.id, "17");
    assert_eq!(record.name, "Sberbank");
    assert_eq!(record.uri, "sberbank");
    assert_eq!(record.market_id, "");
}

#[test]
fn parse_detail_reads_the_embedded_object() {
    let pattern = issue_pattern().unwrap();
    assert_eq!(pattern.as_str(), "Main.issue = (.*);");
    let page = "<script>\nMain.issue = {quote: {code: \"SBER\", market: {title: \"MICEX\"}}};\n</script>";
    assert_eq!(parse_detail(&pattern, page), Ok(full_detail()));
}

#[test]
fn parse_detail_fails_where_the_block_is_absent() {
    let pattern = issue_pattern().unwrap();
    assert_eq!(
        parse_detail(&pattern, "<html></html>"),
        Err(not_found("Emitent captures not found"))
    );
}

#[test]
fn parse_detail_fails_where_the_block_does_not_parse() {
    let pattern = issue_pattern().unwrap();
    assert_eq!(
        parse_detail(&pattern, "Main.issue = {quote: [1, 2};"),
        Err(not_found("Yaml block cannot be decoded"))
    );
    assert_eq!(
        parse_detail(&pattern, "Main.issue = ;"),
        Err(not_found("Yaml block cannot be decoded"))
    );
}

#[test]
fn parse_detail_fails_where_the_capture_took_no_part() {
    let pattern = Pattern::new("issue(=\\d+)?;").unwrap();
    assert_eq!(
        parse_detail(&pattern, "issue;"),
        Err(not_found("Emitent capture doesn't exist"))
    );
    assert_eq!(parse_detail(&pattern, "issue=12;"), Ok(text("=12")));
    let no_group = Pattern::new("issue;").unwrap();
    assert_eq!(
        parse_detail(&no_group, "issue;"),
        Err(not_found("Emitent capture doesn't exist"))
    );
}

#[test]
fn parse_detail_takes_the_first_match() {
    let pattern = issue_pattern().unwrap();
    assert_eq!(
        parse_detail(&pattern, "Main.issue = 1;\nMain.issue = 2;"),
        Ok(ParsedValue::Integer(1))
    );
}

#[test]
fn parse_capture_tells_the_failures_apart() {
    assert_eq!(parse_capture(None), Err(not_found("Emitent captures not found")));
    assert_eq!(parse_capture(Some(None)), Err(not_found("Emitent capture doesn't exist")));
    assert_eq!(
        parse_capture(Some(Some("[".to_string()))),
        Err(not_found("Yaml block cannot be decoded"))
    );
    assert_eq!(parse_capture(Some(Some("[7]".to_string()))), Ok(ParsedValue::Sequence(vec![ParsedValue::Integer(7)])));
}

#[test]
fn select_document_takes_the_first() {
    assert_eq!(select_document(None), Err(not_found("Yaml block cannot be decoded")));
    assert_eq!(
        select_document(Some(Vec::new())),
        Err(not_found("Yaml block cannot be decoded"))
    );
    assert_eq!(select_document(Some(vec![text("a"), text("b")])), Ok(text("a")));
}
