use cachemrc::config::{
    column_ok, is_default_parsing, map_ok, parse_bounded_field, parse_custom, parse_decimal,
    parse_field, parse_row,
    parse_size, size_from_text, try_parse_size, FieldMap, GB, KB, MB,
};

fn row(fields: &[&str]) -> Vec<String> {
    fields.iter().map(|f| f.to_string()).collect()
}

fn no_columns() -> FieldMap {
    FieldMap { timestamp: None, command: None, key: None, size: None, ttl: None }
}

#[test]
fn units_are_powers_of_1024() {
    assert_eq!(KB, 1024);
    assert_eq!(MB, 1024 * 1024);
    assert_eq!(GB, 1024 * 1024 * 1024);
}

#[test]
fn parse_size_reads_plain_numbers_and_units() {
    assert_eq!(parse_size("4096"), 4096);
    assert_eq!(parse_size("100KB"), 102_400);
    assert_eq!(parse_size("2MB"), 2_097_152);
    assert_eq!(parse_size("1GB"), 1_073_741_824);
    assert_eq!(parse_size("0"), 0);
}

#[test]
fn parse_size_trims_and_ignores_case() {
    assert_eq!(parse_size("  7  "), 7);
    assert_eq!(parse_size("\t3kb\n"), 3072);
    assert_eq!(parse_size("1kB"), 1024);
    assert_eq!(parse_size("5mb"), 5 * 1024 * 1024);
    assert_eq!(parse_size(" 2gb"), 2 * 1024 * 1024 * 1024);
}

#[test]
fn try_parse_size_agrees_with_parse_size() {
    assert_eq!(try_parse_size("100KB"), Some(102_400));
    assert_eq!(try_parse_size(" 7 "), Some(7));
    assert_eq!(try_parse_size("1kb"), Some(1024));
    assert_eq!(try_parse_size("+5"), Some(5));
    assert_eq!(try_parse_size("007MB"), Some(7 * 1024 * 1024));
}

#[test]
fn try_parse_size_refuses_what_is_no_size() {
    assert_eq!(try_parse_size(""), None);
    assert_eq!(try_parse_size("   "), None);
    assert_eq!(try_parse_size("KB"), None);
    assert_eq!(try_parse_size("abc"), None);
    assert_eq!(try_parse_size("-5"), None);
    assert_eq!(try_parse_size("10 KB"), None);
    assert_eq!(try_parse_size("1.5MB"), None);
    assert_eq!(try_parse_size("10TB"), None);
    assert_eq!(try_parse_size("10B"), None);
    assert_eq!(try_parse_size("1_000"), None);
}

#[test]
fn try_parse_size_refuses_what_does_not_fit() {
    assert_eq!(try_parse_size("18446744073709551615"), Some(u64::MAX));
    assert_eq!(try_parse_size("18446744073709551616"), None);
    assert_eq!(try_parse_size("18014398509481983KB"), Some(18014398509481983 * 1024));
    assert_eq!(try_parse_size("18014398509481984KB"), None);
    assert_eq!(try_parse_size("17179869184GB"), None);
    assert_eq!(try_parse_size("17179869183GB"), Some(17179869183 * 1024 * 1024 * 1024));
}

#[test]
fn size_from_text_takes_the_text_as_it_is() {
    assert_eq!(size_from_text("3KB"), Some(3072));
    assert_eq!(size_from_text("3kb"), None);
    assert_eq!(size_from_text(" 3KB"), None);
    assert_eq!(size_from_text("3"), Some(3));
    assert_eq!(size_from_text("MB"), None);
    assert_eq!(size_from_text("+MB"), None);
}

#[test]
fn parse_decimal_reads_digits_after_an_optional_plus() {
    assert_eq!(parse_decimal("0"), Some(0));
    assert_eq!(parse_decimal("42"), Some(42));
    assert_eq!(parse_decimal("+42"), Some(42));
    assert_eq!(parse_decimal("000123"), Some(123));
    assert_eq!(parse_decimal(""), None);
    assert_eq!(parse_decimal("+"), None);
    assert_eq!(parse_decimal("++1"), None);
    assert_eq!(parse_decimal("-1"), None);
    assert_eq!(parse_decimal("12a"), None);
    assert_eq!(parse_decimal("1 2"), None);
    assert_eq!(parse_decimal("١٢"), None);
    assert_eq!(parse_decimal("18446744073709551615"), Some(u64::MAX));
    assert_eq!(parse_decimal("18446744073709551616"), None);
    assert_eq!(parse_decimal("99999999999999999999999999"), None);
}

#[test]
fn parse_decimal_agrees_with_the_standard_parser() {
    for text in ["0", "7", "+7", "-7", "", "+", "1e3", "0x10", " 1", "1 ", "18446744073709551615"] {
        assert_eq!(parse_decimal(text), text.parse::<u64>().ok());
    }
}

#[test]
fn parse_field_without_a_column_gives_the_default() {
    let record = row(&["10", "20"]);
    assert_eq!(parse_field(&record, None, 9), 9);
    assert_eq!(parse_field(&record, Some(-1), 9), 9);
}

#[test]
fn parse_field_reads_the_trimmed_column() {
    let record = row(&["10", " 20 ", "x", ""]);
    assert_eq!(parse_field(&record, Some(0), 9), 10);
    assert_eq!(parse_field(&record, Some(1), 9), 20);
    assert_eq!(parse_field(&record, Some(2), 9), 9);
    assert_eq!(parse_field(&record, Some(3), 9), 9);
}

#[test]
fn parse_row_maps_columns_to_fields() {
    let map = FieldMap {
        timestamp: Some(0),
        command: Some(-1),
        key: Some(2),
        size: Some(1),
        ttl: None,
    };
    let access = parse_row(&map, &row(&["1700", "64", "99"]));
    assert_eq!(access.timestamp, 1700);
    assert_eq!(access.command, 0);
    assert_eq!(access.key, 99);
    assert_eq!(access.size, 64);
    assert_eq!(access.ttl, 0);
}

#[test]
fn parse_row_defaults_every_field_to_zero() {
    let access = parse_row(&no_columns(), &row(&["5", "6"]));
    assert_eq!(access.timestamp, 0);
    assert_eq!(access.command, 0);
    assert_eq!(access.key, 0);
    assert_eq!(access.size, 0);
    assert_eq!(access.ttl, 0);
    let map = FieldMap { size: Some(0), ..no_columns() };
    assert_eq!(parse_row(&map, &row(&["not a number"])).size, 0);
    let unnamed = FieldMap { size: Some(-1), ..no_columns() };
    assert_eq!(parse_row(&unnamed, &row(&["7"])).size, 0);
}

#[test]
fn parse_row_gives_the_default_for_a_value_too_wide_for_its_field() {
    let map = FieldMap {
        timestamp: None,
        command: Some(0),
        key: None,
        size: Some(1),
        ttl: Some(2),
    };
    let access = parse_row(&map, &row(&["300", "4294967301", "4294967296"]));
    assert_eq!(access.command, 0);
    assert_eq!(access.size, 0);
    assert_eq!(access.ttl, 0);
    let widest = parse_row(&map, &row(&["255", "4294967295", "4294967295"]));
    assert_eq!(widest.command, 255);
    assert_eq!(widest.size, u32::MAX);
    assert_eq!(widest.ttl, u32::MAX);
    let over = parse_row(&map, &row(&["256", "7", "8"]));
    assert_eq!(over.command, 0);
    assert_eq!(over.size, 7);
    assert_eq!(over.ttl, 8);
}

#[test]
fn parse_bounded_field_keeps_what_fits() {
    let record = row(&["10", "300", "x"]);
    assert_eq!(parse_bounded_field(&record, Some(0), 3, 255), 10);
    assert_eq!(parse_bounded_field(&record, Some(1), 3, 255), 3);
    assert_eq!(parse_bounded_field(&record, Some(1), 3, 300), 300);
    assert_eq!(parse_bounded_field(&record, Some(2), 3, 255), 3);
    assert_eq!(parse_bounded_field(&record, None, 3, 255), 3);
    assert_eq!(parse_bounded_field(&record, Some(-1), 3, 255), 3);
}

#[test]
fn parse_custom_keeps_the_order_of_the_rows() {
    let map = FieldMap { key: Some(0), size: Some(1), ..no_columns() };
    let rows = vec![row(&["3", "30"]), row(&["1", "10"]), row(&["2", ""])];
    let records = parse_custom(&map, &rows);
    assert_eq!(records.len(), 3);
    assert_eq!((records[0].key, records[0].size), (3, 30));
    assert_eq!((records[1].key, records[1].size), (1, 10));
    assert_eq!((records[2].key, records[2].size), (2, 0));
    assert!(parse_custom(&map, &Vec::new()).is_empty());
}

#[test]
fn default_parsing_means_no_column_is_named() {
    assert!(is_default_parsing(&no_columns()));
    assert!(!is_default_parsing(&FieldMap { timestamp: Some(0), ..no_columns() }));
    assert!(!is_default_parsing(&FieldMap { command: Some(-1), ..no_columns() }));
    assert!(!is_default_parsing(&FieldMap { key: Some(2), ..no_columns() }));
    assert!(!is_default_parsing(&FieldMap { size: Some(1), ..no_columns() }));
    assert!(!is_default_parsing(&FieldMap { ttl: Some(4), ..no_columns() }));
}

#[test]
fn columns_must_exist_in_the_row() {
    assert!(column_ok(None, 0));
    assert!(column_ok(Some(-1), 0));
    assert!(column_ok(Some(0), 1));
    assert!(!column_ok(Some(1), 1));
    assert!(!column_ok(Some(-2), 5));
    assert!(map_ok(&no_columns(), 0));
    assert!(map_ok(&FieldMap { key: Some(2), ..no_columns() }, 3));
    assert!(!map_ok(&FieldMap { key: Some(3), ..no_columns() }, 3));
    assert!(!map_ok(&FieldMap { ttl: Some(-7), ..no_columns() }, 3));
}
