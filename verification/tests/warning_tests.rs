use finance_miner::assemble::{assemble_noting, extracted_warnings, note_skipped, CatalogPatterns};
use finance_miner::error::{CatalogError, Region, Warning};
use finance_miner::value::ParsedValue;
use finance_miner::warnings::{
    display_strings, join_warnings, knows_id, note_positions, note_slugs,
};

fn text(s: &str) -> ParsedValue {
    ParsedValue::Text(s.to_string())
}

fn texts(items: &[&str]) -> ParsedValue {
    ParsedValue::Sequence(items.iter().map(|s| text(s)).collect())
}

fn slugs(items: &[(&str, &str)]) -> ParsedValue {
    ParsedValue::Mapping(items.iter().map(|(k, v)| (text(k), text(v))).collect())
}

#[test]
fn scalars_are_told_from_other_shapes() {
    assert!(text("a").is_scalar());
    assert!(ParsedValue::Integer(1).is_scalar());
    assert!(ParsedValue::Real("1.5".to_string()).is_scalar());
    assert!(ParsedValue::Boolean(false).is_scalar());
    assert!(!ParsedValue::Null.is_scalar());
    assert!(!ParsedValue::Invalid.is_scalar());
    assert!(!ParsedValue::Alias(1).is_scalar());
    assert!(!texts(&[]).is_scalar());
    assert!(!slugs(&[]).is_scalar());
}

#[test]
fn a_clean_join_gives_no_warning() {
    let notes = join_warnings(
        &texts(&["1", "2"]),
        &texts(&["A", "B"]),
        &texts(&["m", "m"]),
        &slugs(&[("1", "a"), ("2", "b")]),
    );
    assert_eq!(notes, Vec::new());
}

#[test]
fn orphans_are_reported_by_position() {
    let notes = join_warnings(
        &texts(&["1"]),
        &texts(&["A", "B", "C"]),
        &texts(&["m", "n"]),
        &slugs(&[]),
    );
    assert_eq!(
        notes,
        vec![
            Warning::Orphan(Region::Names, 1),
            Warning::Orphan(Region::Names, 2),
            Warning::Orphan(Region::Markets, 1),
        ]
    );
}

#[test]
fn unknown_slug_keys_are_reported_by_entry() {
    let notes = join_warnings(
        &texts(&["1", "2"]),
        &texts(&[]),
        &texts(&[]),
        &slugs(&[("2", "b"), ("9", "nine"), ("1", "a"), ("", "none")]),
    );
    assert_eq!(notes, vec![Warning::UnknownSlugKey(1), Warning::UnknownSlugKey(3)]);
}

#[test]
fn shapes_without_display_string_are_reported() {
    let notes = join_warnings(
        &ParsedValue::Sequence(vec![text("1"), ParsedValue::Null, texts(&["x"])]),
        &ParsedValue::Sequence(vec![ParsedValue::Invalid, text("B")]),
        &ParsedValue::Sequence(vec![ParsedValue::Integer(1), slugs(&[])]),
        &ParsedValue::Mapping(vec![
            (text("1"), ParsedValue::Null),
            (ParsedValue::Null, text("empty id")),
            (texts(&[]), texts(&[])),
            (ParsedValue::Alias(2), text("x")),
        ]),
    );
    assert_eq!(
        notes,
        vec![
            Warning::UnexpectedShape(Region::Ids, 1),
            Warning::UnexpectedShape(Region::Ids, 2),
            Warning::UnexpectedShape(Region::Names, 0),
            Warning::UnexpectedShape(Region::Markets, 1),
            Warning::UnexpectedShape(Region::Urls, 0),
            Warning::UnexpectedShape(Region::Urls, 1),
            Warning::UnexpectedShape(Region::Urls, 2),
            Warning::UnexpectedShape(Region::Urls, 2),
            Warning::UnexpectedShape(Region::Urls, 3),
        ]
    );
}

#[test]
fn collections_of_another_shape_give_no_warning() {
    let notes = join_warnings(&text("1"), &ParsedValue::Null, &text("m"), &texts(&["x"]));
    assert_eq!(notes, Vec::new());
}

#[test]
fn the_parts_of_the_warnings_add_up() {
    let mut notes = vec![Warning::UnknownSlugKey(7)];
    note_positions(&mut notes, Region::Names, &texts(&["A", "B"]), 1);
    note_slugs(&mut notes, &slugs(&[("x", "y")]), &vec!["1".to_string()]);
    note_skipped(&mut notes, Region::Urls, &vec![2, 5]);
    assert_eq!(
        notes,
        vec![
            Warning::UnknownSlugKey(7),
            Warning::Orphan(Region::Names, 1),
            Warning::UnknownSlugKey(0),
            Warning::SkippedCapture(Region::Urls, 2),
            Warning::SkippedCapture(Region::Urls, 5),
        ]
    );
}

#[test]
fn display_strings_and_knows_id() {
    let shown = display_strings(&ParsedValue::Sequence(vec![
        text("a"),
        ParsedValue::Integer(7),
        ParsedValue::Null,
    ]));
    assert_eq!(shown, vec!["a".to_string(), "7".to_string(), String::new()]);
    assert_eq!(display_strings(&text("a")), Vec::<String>::new());
    assert!(knows_id(&shown, &"7".to_string()));
    assert!(knows_id(&shown, &String::new()));
    assert!(!knows_id(&shown, &"b".to_string()));
    assert!(!knows_id(&Vec::new(), &"a".to_string()));
}

#[test]
fn extracted_warnings_need_every_region_once() {
    let one = vec![texts(&["1"])];
    let names = vec![texts(&["A", "B"])];
    let urls = vec![slugs(&[("2", "b")])];
    assert_eq!(
        extracted_warnings(&one, &names, &one, &urls),
        vec![Warning::Orphan(Region::Names, 1), Warning::UnknownSlugKey(0)]
    );
    assert_eq!(extracted_warnings(&one, &Vec::new(), &one, &urls), Vec::new());
    let twice = vec![texts(&["1"]), texts(&["2"])];
    assert_eq!(extracted_warnings(&twice, &names, &one, &urls), Vec::new());
}

#[test]
fn assemble_noting_returns_the_records_and_the_warnings() {
    let patterns = CatalogPatterns::compile().unwrap();
    let text = "var aEmitentIds = [\"1\",\"2\"];var aEmitentNames = [\"Alpha\",\"Beta\",\"Gamma\"];var aEmitentMarkets = [\"1\",\"1\"];var aEmitentUrls = {\"1\":\"alpha\",\"3\":\"lost\"};";
    let (catalog, warnings) = assemble_noting(&patterns, text);
    let records = catalog.unwrap();
    assert_eq!(records.len(), 2);
    assert_eq!(records[0].uri, "alpha");
    assert_eq!(records[1].uri, "");
    assert_eq!(
        warnings,
        vec![Warning::Orphan(Region::Names, 2), Warning::UnknownSlugKey(1)]
    );
}

#[test]
fn assemble_noting_reports_a_skipped_capture() {
    let patterns = CatalogPatterns::compile().unwrap();
    let text = "var aEmitentIds = [\"1\"];var aEmitentNames = [\"A];var aEmitentNames = [\"A\"];var aEmitentMarkets = [1];var aEmitentUrls = {};";
    let (catalog, warnings) = assemble_noting(&patterns, text);
    assert_eq!(catalog.map(|records| records.len()), Ok(1));
    assert_eq!(warnings, vec![Warning::SkippedCapture(Region::Names, 0)]);
    let broken = "var aEmitentIds = [\"1];";
    let (catalog, warnings) = assemble_noting(&patterns, broken);
    assert_eq!(catalog, Err(CatalogError::Missing(Region::Ids)));
    assert_eq!(warnings, vec![Warning::SkippedCapture(Region::Ids, 0)]);
}
