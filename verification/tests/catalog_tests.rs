use finance_miner::assemble::{assemble, join_extracted, single_value, CatalogPatterns};
use finance_miner::catalog::{
    apply_slugs, join_markets, join_names, join_records, records_by_position, rekey,
};
use finance_miner::emitent::Emitent;
use finance_miner::error::{CatalogError, MinerError, Region};
use finance_miner::index::{copy_of, EmitentIndex};
use finance_miner::value::ParsedValue;

fn text(s: &str) -> ParsedValue {
    ParsedValue::Text(s.to_string())
}

fn texts(items: &[&str]) -> ParsedValue {
    ParsedValue::Sequence(items.iter().map(|s| text(s)).collect())
}

fn slugs(items: &[(&str, &str)]) -> ParsedValue {
    ParsedValue::Mapping(items.iter().map(|(k, v)| (text(k), text(v))).collect())
}

fn record(internal_id: u64, id: &str, name: &str, market_id: &str, uri: &str) -> Emitent {
    Emitent {
        internal_id,
        id: id.to_string(),
        name: name.to_string(),
        market_id: market_id.to_string(),
        market_name: String::new(),
        uri: uri.to_string(),
        code: String::new(),
    }
}

fn patterns() -> CatalogPatterns {
    CatalogPatterns::compile().expect("the catalog patterns compile")
}

const CATALOG: &str = "var aEmitentIds = [\"1\",\"2\"];\nvar aEmitentNames = [\"Alpha\",\"Beta\"];\nvar aEmitentMarkets = [\"1\",\"1\"];\nvar aEmitentUrls = {\"1\":\"alpha\",\"2\":\"beta\"};\n";

#[test]
fn assemble_joins_the_four_collections() {
    let mut records = assemble(&patterns(), CATALOG).unwrap();
    records.sort_by(|a, b| a.id.cmp(&b.id));
    assert_eq!(
        records,
        vec![record(0, "1", "Alpha", "1", "alpha"), record(1, "2", "Beta", "1", "beta")]
    );
}

#[test]
fn assemble_reads_literals_that_span_lines() {
    let text = "var aEmitentIds = [1,\r\n2];var aEmitentNames = ['O\\'Neil',\n'B'];var aEmitentMarkets = [7, 8];var aEmitentUrls = {1: 'a', 2: 'b'};";
    let records = assemble(&patterns(), text).unwrap();
    assert_eq!(
        records,
        vec![record(0, "1", "O'Neil", "7", "a"), record(1, "2", "B", "8", "b")]
    );
}

#[test]
fn assemble_reports_a_missing_region() {
    let without_names = CATALOG.replace("aEmitentNames", "aOther");
    assert_eq!(
        assemble(&patterns(), &without_names),
        Err(CatalogError::Missing(Region::Names))
    );
    let without_ids = CATALOG.replace("aEmitentIds", "aOther");
    assert_eq!(assemble(&patterns(), &without_ids), Err(CatalogError::Missing(Region::Ids)));
    let without_markets = CATALOG.replace("aEmitentMarkets", "aOther");
    assert_eq!(
        assemble(&patterns(), &without_markets),
        Err(CatalogError::Missing(Region::Markets))
    );
    let without_urls = CATALOG.replace("aEmitentUrls", "aOther");
    assert_eq!(assemble(&patterns(), &without_urls), Err(CatalogError::Missing(Region::Urls)));
    assert_eq!(assemble(&patterns(), ""), Err(CatalogError::Missing(Region::Ids)));
}

#[test]
fn assemble_tells_absent_from_empty() {
    let empty = "var aEmitentIds = [];var aEmitentNames = [];var aEmitentMarkets = [];var aEmitentUrls = {};";
    assert_eq!(assemble(&patterns(), empty), Ok(Vec::new()));
}

#[test]
fn assemble_reports_a_repeated_region() {
    let mut twice = String::from(CATALOG);
    twice.push_str("var aEmitentMarkets = [\"2\"];");
    assert_eq!(
        assemble(&patterns(), &twice),
        Err(CatalogError::Ambiguous(Region::Markets))
    );
}

#[test]
fn assemble_reports_a_region_that_does_not_parse_as_missing() {
    let broken = CATALOG.replace("[\"Alpha\",\"Beta\"]", "[\"Alpha\",\"Beta]");
    assert_eq!(assemble(&patterns(), &broken), Err(CatalogError::Missing(Region::Names)));
}

#[test]
fn single_value_wants_exactly_one() {
    assert_eq!(
        single_value(&Vec::new(), Region::Urls),
        Err(CatalogError::Missing(Region::Urls))
    );
    assert_eq!(
        single_value(&vec![text("a"), text("b")], Region::Ids),
        Err(CatalogError::Ambiguous(Region::Ids))
    );
    assert_eq!(single_value(&vec![text("a")], Region::Ids), Ok(&text("a")));
}

#[test]
fn join_extracted_checks_the_regions_in_order() {
    let one = vec![texts(&["1"])];
    let none: Vec<ParsedValue> = Vec::new();
    let urls = vec![slugs(&[("1", "a")])];
    assert_eq!(
        join_extracted(&none, &none, &none, &none),
        Err(CatalogError::Missing(Region::Ids))
    );
    assert_eq!(
        join_extracted(&one, &none, &none, &none),
        Err(CatalogError::Missing(Region::Names))
    );
    assert_eq!(
        join_extracted(&one, &one, &none, &none),
        Err(CatalogError::Missing(Region::Markets))
    );
    assert_eq!(
        join_extracted(&one, &one, &one, &none),
        Err(CatalogError::Missing(Region::Urls))
    );
    assert_eq!(
        join_extracted(&one, &one, &one, &urls),
        Ok(vec![record(0, "1", "1", "1", "a")])
    );
}

#[test]
fn join_records_gives_one_record_per_distinct_identifier() {
    let records = join_records(
        &texts(&["10", "20", "30"]),
        &texts(&["A", "B", "C"]),
        &texts(&["m1", "m2", "m3"]),
        &slugs(&[("30", "c"), ("10", "a")]),
    );
    assert_eq!(
        records,
        vec![
            record(0, "10", "A", "m1", "a"),
            record(1, "20", "B", "m2", ""),
            record(2, "30", "C", "m3", "c"),
        ]
    );
}

#[test]
fn join_records_coerces_scalars_to_strings() {
    let records = join_records(
        &ParsedValue::Sequence(vec![ParsedValue::Integer(7), ParsedValue::Boolean(true)]),
        &ParsedValue::Sequence(vec![ParsedValue::Real("1.5".to_string()), ParsedValue::Null]),
        &ParsedValue::Sequence(vec![ParsedValue::Integer(-1)]),
        &ParsedValue::Mapping(vec![(ParsedValue::Integer(7), ParsedValue::Integer(70))]),
    );
    assert_eq!(
        records,
        vec![record(0, "7", "1.5", "-1", "70"), record(1, "true", "", "", "")]
    );
}

#[test]
fn join_records_drops_orphan_names_and_markets() {
    let records = join_records(
        &texts(&["1"]),
        &texts(&["Alpha", "Orphan"]),
        &texts(&["m", "stray", "more"]),
        &slugs(&[]),
    );
    assert_eq!(records, vec![record(0, "1", "Alpha", "m", "")]);
    let none = join_records(&texts(&[]), &texts(&["Orphan"]), &texts(&["m"]), &slugs(&[]));
    assert_eq!(none, Vec::new());
}

#[test]
fn join_records_leaves_fields_empty_where_a_collection_is_short() {
    let records = join_records(&texts(&["1", "2"]), &texts(&["Alpha"]), &texts(&[]), &slugs(&[]));
    assert_eq!(records, vec![record(0, "1", "Alpha", "", ""), record(1, "2", "", "", "")]);
}

#[test]
fn join_records_drops_slugs_of_unknown_identifiers() {
    let with_unknown = join_records(
        &texts(&["1", "2"]),
        &texts(&["A", "B"]),
        &texts(&["m", "m"]),
        &slugs(&[("1", "a"), ("9", "nine"), ("2", "b")]),
    );
    let without = join_records(
        &texts(&["1", "2"]),
        &texts(&["A", "B"]),
        &texts(&["m", "m"]),
        &slugs(&[("1", "a"), ("2", "b")]),
    );
    assert_eq!(with_unknown, without);
    assert_eq!(with_unknown, vec![record(0, "1", "A", "m", "a"), record(1, "2", "B", "m", "b")]);
}

#[test]
fn join_records_lets_the_last_duplicate_stand() {
    let records = join_records(
        &texts(&["a", "b", "a"]),
        &texts(&["first", "second", "third"]),
        &texts(&["m0", "m1", "m2"]),
        &slugs(&[("a", "x"), ("a", "y")]),
    );
    assert_eq!(
        records,
        vec![record(1, "b", "second", "m1", ""), record(2, "a", "third", "m2", "y")]
    );
}

#[test]
fn join_records_treats_other_shapes_as_empty() {
    let records = join_records(&text("1"), &texts(&["A"]), &texts(&["m"]), &slugs(&[]));
    assert_eq!(records, Vec::new());
    let records = join_records(&texts(&["1"]), &ParsedValue::Null, &text("m"), &texts(&["x"]));
    assert_eq!(records, vec![record(0, "1", "", "", "")]);
}

#[test]
fn the_steps_of_the_join_compose() {
    let mut records = records_by_position(&texts(&["1", "2", "1"]));
    assert_eq!(
        records,
        vec![record(0, "1", "", "", ""), record(1, "2", "", "", ""), record(2, "1", "", "", "")]
    );
    join_names(&mut records, &texts(&["A", "B", "C", "D"]));
    join_markets(&mut records, &texts(&["m"]));
    assert_eq!(
        records,
        vec![record(0, "1", "A", "m", ""), record(1, "2", "B", "", ""), record(2, "1", "C", "", "")]
    );
    let mut index = rekey(records);
    assert_eq!(index.len(), 2);
    apply_slugs(&mut index, &slugs(&[("2", "two"), ("3", "three")]));
    assert_eq!(
        index.into_records(),
        vec![record(1, "2", "B", "", "two"), record(2, "1", "C", "", "")]
    );
}

#[test]
fn index_replaces_a_record_with_the_same_identifier() {
    let mut index = EmitentIndex::new();
    assert_eq!(index.len(), 0);
    index.insert(record(0, "a", "old", "", ""));
    index.insert(record(1, "b", "other", "", ""));
    index.insert(record(2, "a", "new", "", ""));
    assert_eq!(index.len(), 2);
    assert_eq!(index.position(&"a".to_string()), Some(1));
    assert_eq!(index.position(&"b".to_string()), Some(0));
    assert_eq!(index.position(&"c".to_string()), None);
    assert!(index.set_uri(&"b".to_string(), "slug".to_string()));
    assert!(!index.set_uri(&"c".to_string(), "lost".to_string()));
    assert_eq!(
        index.into_records(),
        vec![record(1, "b", "other", "", "slug"), record(2, "a", "new", "", "")]
    );
}

#[test]
fn copy_of_copies_every_field() {
    let record = Emitent {
        internal_id: 3,
        id: "i".to_string(),
        name: "n".to_string(),
        market_id: "m".to_string(),
        market_name: "mn".to_string(),
        uri: "u".to_string(),
        code: "c".to_string(),
    };
    assert_eq!(copy_of(&record), record);
}

#[test]
fn from_yaml_reads_position_and_identifier() {
    let value = ParsedValue::Mapping(vec![
        (text("id"), text("SBER")),
        (text("internal_id"), ParsedValue::Integer(5)),
        (text("name"), text("ignored")),
    ]);
    assert_eq!(Emitent::from_yaml(&value), Ok(record(5, "SBER", "", "", "")));
}

#[test]
fn from_yaml_takes_a_negative_position_by_its_bits() {
    let value = ParsedValue::Mapping(vec![
        (text("id"), text("x")),
        (text("internal_id"), ParsedValue::Integer(-1)),
    ]);
    assert_eq!(Emitent::from_yaml(&value).unwrap().internal_id, u64::MAX);
    let lowest = ParsedValue::Mapping(vec![
        (text("id"), text("x")),
        (text("internal_id"), ParsedValue::Integer(i64::MIN)),
    ]);
    assert_eq!(Emitent::from_yaml(&lowest).unwrap().internal_id, 1u64 << 63);
}

#[test]
fn from_yaml_says_what_is_wrong() {
    let failure = |value: ParsedValue| match Emitent::from_yaml(&value) {
        Err(MinerError::YamlConversionError(details)) => details,
        other => panic!("unexpected result: {:?}", other),
    };
    assert_eq!(failure(text("x")), "Root value is not hash");
    assert_eq!(failure(ParsedValue::Mapping(vec![])), "internal_id not found");
    assert_eq!(
        failure(ParsedValue::Mapping(vec![(text("internal_id"), text("5"))])),
        "internal_id is not int"
    );
    assert_eq!(
        failure(ParsedValue::Mapping(vec![(text("internal_id"), ParsedValue::Integer(5))])),
        "id not found"
    );
    assert_eq!(
        failure(ParsedValue::Mapping(vec![
            (text("internal_id"), ParsedValue::Integer(5)),
            (text("id"), ParsedValue::Integer(6)),
        ])),
        "id is not string"
    );
}

#[test]
fn default_record_is_empty() {
    assert_eq!(Emitent::default(), record(0, "", "", "", ""));
    assert_eq!(Emitent::bare(4, "x".to_string()), record(4, "x", "", "", ""));
}
