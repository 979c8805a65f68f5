use financisto2bluecoins::backup::{convert_entity, convert_maps, print_entity, read_records};
use financisto2bluecoins::error::MigrationError;
use financisto2bluecoins::model::{Financisto, FinancistoCategory, FinancistoCurrency};
use financisto2bluecoins::text::{escape_quote, int_to_text, parse_int};

fn lines(text: &[&str]) -> Vec<String> {
    text.iter().map(|s| s.to_string()).collect()
}

fn fields(pairs: &[(&str, &str)]) -> Vec<(String, String)> {
    pairs.iter().map(|(a, b)| (a.to_string(), b.to_string())).collect()
}

const HEADER: [&str; 4] = ["PACKAGE:ru.orangesoftware.financisto", "VERSION_CODE:200", "VERSION_NAME:1.8", "DATABASE_VERSION:220"];

fn currency_block() -> Vec<&'static str> {
    vec![
        "$ENTITY:currency",
        "_id:1",
        "updated_on:0",
        "title:US Dollar",
        "decimals:2",
        "symbol:$",
        "is_active:1",
        "name:USD",
        "is_default:1",
        "symbol_format:RS",
        "$$",
    ]
}

fn category_block() -> Vec<&'static str> {
    vec![
        "$ENTITY:category",
        "_id:3",
        "type:0",
        "updated_on:0",
        "right:10",
        "left:5",
        "last_location_id:0",
        "is_active:1",
        "title:Food: out",
        "last_project_id:0",
        "$$",
    ]
}

fn backup(blocks: Vec<Vec<&'static str>>) -> Vec<String> {
    let mut all: Vec<&str> = HEADER.to_vec();
    all.push("#START");
    for b in blocks {
        all.extend(b);
    }
    all.push("#END");
    lines(&all)
}

#[test]
fn reads_entities() {
    let data = convert_maps(&backup(vec![currency_block(), category_block()])).unwrap();
    assert_eq!(data.currencies.len(), 1);
    assert_eq!(data.categories.len(), 1);
    assert!(data.accounts.is_empty());
    assert!(data.transactions.is_empty());
    let c: &FinancistoCurrency = &data.currencies[0];
    assert_eq!(c.id, 1);
    assert_eq!(c.name, "USD");
    assert_eq!(c.entity, "currency");
    assert_eq!(c.decimal_separator, None);
    let k: &FinancistoCategory = &data.categories[0];
    assert_eq!((k.id, k.left, k.right), (3, 5, 10));
    assert_eq!(k.title, "Food: out");
}

#[test]
fn decoding_twice_gives_equal_entities() {
    let rec = fields(&[
        ("entity", "category"),
        ("_id", "3"),
        ("type", "0"),
        ("updated_on", "0"),
        ("right", "10"),
        ("left", "5"),
        ("last_location_id", "0"),
        ("is_active", "1"),
        ("title", "Food"),
        ("last_project_id", "0"),
    ]);
    let a = FinancistoCategory::from_record(&rec).unwrap();
    let b = FinancistoCategory::from_record(&rec).unwrap();
    assert_eq!(a, b);
}

#[test]
fn later_field_replaces_earlier() {
    let rec = fields(&[("_id", "1"), ("_id", "2")]);
    assert_eq!(financisto2bluecoins::decode::field(&rec, "_id").map(|s| s.as_str()), Some("2"));
}

#[test]
fn unknown_kinds_are_skipped() {
    let data = convert_maps(&backup(vec![vec!["$ENTITY:locations", "_id:1", "$$"]])).unwrap();
    assert!(data.currencies.is_empty() && data.categories.is_empty());
}

#[test]
fn missing_field_is_named() {
    let mut block = currency_block();
    block.retain(|l| !l.starts_with("name:"));
    let r = convert_maps(&backup(vec![block]));
    assert_eq!(
        r.unwrap_err(),
        MigrationError::MissingField { entity: "currency".to_string(), field: "name".to_string() }
    );
}

#[test]
fn malformed_number_is_named() {
    let mut block = category_block();
    block[4] = "right:ten";
    let r = convert_maps(&backup(vec![block]));
    assert_eq!(
        r.unwrap_err(),
        MigrationError::MalformedField { entity: "category".to_string(), field: "right".to_string() }
    );
}

#[test]
fn unterminated_record_fails() {
    let mut all = HEADER.to_vec();
    all.extend(["$ENTITY:currency", "_id:1"]);
    assert_eq!(convert_maps(&lines(&all)).unwrap_err(), MigrationError::UnterminatedRecord);
}

#[test]
fn convert_entity_reads_one_block() {
    let ls = lines(&["$ENTITY:account", "title:a:b", "no colon", "$$", "after"]);
    let mut index: usize = 0;
    let rec = convert_entity(&ls, &mut index).unwrap();
    assert_eq!(index, 4);
    assert_eq!(rec, fields(&[("entity", "account"), ("title", "a:b")]));
    let mut at_end: usize = 4;
    assert!(convert_entity(&ls, &mut at_end).is_none());
}

#[test]
fn print_entity_lists_each_kind_once() {
    let recs = read_records(&backup(vec![currency_block(), category_block(), currency_block()])).unwrap();
    assert_eq!(recs.len(), 3);
    assert_eq!(print_entity(&recs), vec!["currency".to_string(), "category".to_string()]);
    assert!(print_entity(&vec![]).is_empty());
}

#[test]
fn new_collection_is_empty() {
    let d = Financisto::new();
    assert!(d.currencies.is_empty() && d.accounts.is_empty() && d.categories.is_empty() && d.transactions.is_empty());
}

#[test]
fn integers_parse_like_from_str() {
    assert_eq!(parse_int("42", i32::MIN as i64, i32::MAX as i64), Some(42));
    assert_eq!(parse_int("+7", i32::MIN as i64, i32::MAX as i64), Some(7));
    assert_eq!(parse_int("-0012", i32::MIN as i64, i32::MAX as i64), Some(-12));
    assert_eq!(parse_int("-", i64::MIN, i64::MAX), None);
    assert_eq!(parse_int("", i64::MIN, i64::MAX), None);
    assert_eq!(parse_int(" 1", i64::MIN, i64::MAX), None);
    assert_eq!(parse_int("2147483648", i32::MIN as i64, i32::MAX as i64), None);
    assert_eq!(parse_int("-2147483648", i32::MIN as i64, i32::MAX as i64), Some(-2147483648));
    assert_eq!(parse_int("-9223372036854775808", i64::MIN, i64::MAX), Some(i64::MIN));
    assert_eq!(parse_int("9223372036854775808", i64::MIN, i64::MAX), None);
    assert_eq!(parse_int("99999999999999999999999", i64::MIN, i64::MAX), None);
}

#[test]
fn integers_render_in_decimal() {
    assert_eq!(int_to_text(0), "0");
    assert_eq!(int_to_text(-10000000), "-10000000");
    assert_eq!(int_to_text(i64::MIN), "-9223372036854775808");
    assert_eq!(int_to_text(i64::MAX), "9223372036854775807");
}

#[test]
fn quotes_are_doubled() {
    assert_eq!(escape_quote("it's"), "it''s");
    assert_eq!(escape_quote("''"), "''''");
    assert_eq!(escape_quote(""), "");
    assert_eq!(escape_quote("轉帳"), "轉帳");
}
