use carpet::column::{ColumnValues, Int96, ParquetColumn, PhysicalType};
use carpet::error::Error;
use carpet::redact::redact_value;

fn terms(list: &[&str]) -> Vec<String> {
    list.iter().map(|t| t.to_string()).collect()
}

fn string_column(values: &[&str]) -> ParquetColumn {
    let rows: Vec<Vec<u8>> = values.iter().map(|v| v.as_bytes().to_vec()).collect();
    let n = rows.len();
    ParquetColumn::read(
        PhysicalType::ByteArray,
        n,
        ColumnValues::ByteArray(rows),
        vec![1; n],
        vec![0; n],
    )
    .unwrap()
}

fn strings(column: &ParquetColumn) -> Vec<Vec<u8>> {
    match column.values() {
        ColumnValues::ByteArray(rows) => rows.clone(),
        _ => panic!("not a column of byte arrays"),
    }
}

#[test]
fn a_value_with_a_term_is_redacted() {
    let out = redact_value(&b"mail foo@bar.com now".to_vec(), &terms(&["foo@bar.com"]), &"X".to_string());
    assert_eq!(out, Some(b"mail X now".to_vec()));
}

#[test]
fn a_value_without_a_term_stays() {
    let out = redact_value(&b"mail nobody now".to_vec(), &terms(&["foo@bar.com"]), &"X".to_string());
    assert_eq!(out, None);
}

#[test]
fn a_value_shorter_than_the_term_stays() {
    let out = redact_value(&b"foo".to_vec(), &terms(&["foo@bar.com"]), &"X".to_string());
    assert_eq!(out, None);
    let out = redact_value(&Vec::new(), &terms(&["foo@bar.com"]), &"X".to_string());
    assert_eq!(out, None);
}

#[test]
fn a_value_that_is_not_text_stays_even_with_the_term_in_it() {
    let mut value = vec![0xffu8, 0xfe];
    value.extend_from_slice(b"foo@bar.com");
    assert_eq!(redact_value(&value, &terms(&["foo@bar.com"]), &"X".to_string()), None);
    // A lone continuation byte, an overlong encoding and a surrogate are no
    // text either.
    let mut value = b"foo@bar.com".to_vec();
    value.push(0x80);
    assert_eq!(redact_value(&value, &terms(&["foo@bar.com"]), &"X".to_string()), None);
    let mut value = vec![0xc0u8, 0xaf];
    value.extend_from_slice(b"foo@bar.com");
    assert_eq!(redact_value(&value, &terms(&["foo@bar.com"]), &"X".to_string()), None);
    let mut value = vec![0xedu8, 0xa0, 0x80];
    value.extend_from_slice(b"foo@bar.com");
    assert_eq!(redact_value(&value, &terms(&["foo@bar.com"]), &"X".to_string()), None);
}

#[test]
fn text_beyond_ascii_is_redacted() {
    let value = "grüße an jörg@bär.de, 日本語".as_bytes().to_vec();
    let out = redact_value(&value, &terms(&["jörg@bär.de"]), &"ghost@example.com".to_string());
    assert_eq!(out, Some("grüße an ghost@example.com, 日本語".as_bytes().to_vec()));
}

#[test]
fn every_occurrence_of_a_term_is_replaced() {
    let out = redact_value(&b"a@x.com;a@x.com".to_vec(), &terms(&["a@x.com"]), &"R".to_string());
    assert_eq!(out, Some(b"R;R".to_vec()));
}

#[test]
fn several_terms_are_replaced_in_one_value() {
    let out = redact_value(
        &b"foo@bar.com,baz@qux.com".to_vec(),
        &terms(&["foo@bar.com", "baz@qux.com"]),
        &"ghost@example.com".to_string(),
    );
    assert_eq!(out, Some(b"ghost@example.com,ghost@example.com".to_vec()));
}

#[test]
fn terms_are_case_sensitive() {
    let out = redact_value(
        &b"Foo@Bar.com,baz@qux.com".to_vec(),
        &terms(&["foo@bar.com", "baz@qux.com"]),
        &"ghost@example.com".to_string(),
    );
    assert_eq!(out, Some(b"Foo@Bar.com,ghost@example.com".to_vec()));
}

#[test]
fn a_later_term_is_looked_for_in_what_the_earlier_ones_left() {
    // The first replacement brings the second term in.
    let out = redact_value(&b"ab".to_vec(), &terms(&["ab", "cd"]), &"cd!".to_string());
    assert_eq!(out, Some(b"cd!!".to_vec()));
    // In the other order the second term is never seen.
    let out = redact_value(&b"ab".to_vec(), &terms(&["cd", "ab"]), &"cd!".to_string());
    assert_eq!(out, Some(b"cd!".to_vec()));
    // The first replacement takes away what the second term would have found.
    let out = redact_value(&b"abc".to_vec(), &terms(&["ab", "bc"]), &"-".to_string());
    assert_eq!(out, Some(b"-c".to_vec()));
}

#[test]
fn a_term_that_is_replaced_by_itself_still_counts_as_found() {
    let out = redact_value(&b"same".to_vec(), &terms(&["same"]), &"same".to_string());
    assert_eq!(out, Some(b"same".to_vec()));
}

#[test]
fn without_terms_nothing_is_found() {
    assert_eq!(redact_value(&b"anything".to_vec(), &Vec::new(), &"R".to_string()), None);
}

#[test]
fn remove_values_marks_the_column_dirty() {
    let mut column = string_column(&["x", "foo@bar.com", "y"]);
    assert!(!column.is_dirty());
    column.remove_values(terms(&["foo@bar.com"]), "ghost@example.com".to_string());
    assert!(column.is_dirty());
    assert_eq!(
        strings(&column),
        vec![b"x".to_vec(), b"ghost@example.com".to_vec(), b"y".to_vec()]
    );
}

#[test]
fn remove_values_without_a_match_leaves_the_column_as_it_was() {
    let mut column = string_column(&["x", "Foo@Bar.com", "y"]);
    let before = column.clone();
    column.remove_values(terms(&["foo@bar.com"]), "ghost@example.com".to_string());
    assert!(!column.is_dirty());
    assert_eq!(column, before);
}

#[test]
fn remove_values_replaces_all_occurrences() {
    let mut column = string_column(&["a@x.com;a@x.com"]);
    column.remove_values(terms(&["a@x.com"]), "R".to_string());
    assert_eq!(strings(&column), vec![b"R;R".to_vec()]);
    assert!(column.is_dirty());
}

#[test]
fn remove_values_applies_the_terms_in_order() {
    let mut column = string_column(&["foo@bar.com,baz@qux.com"]);
    column.remove_values(terms(&["foo@bar.com", "baz@qux.com"]), "ghost@example.com".to_string());
    assert_eq!(strings(&column), vec![b"ghost@example.com,ghost@example.com".to_vec()]);
}

#[test]
fn remove_values_keeps_the_lengths_and_the_levels() {
    let rows = vec![b"foo@bar.com".to_vec(), b"keep".to_vec()];
    let mut column = ParquetColumn::read(
        PhysicalType::ByteArray,
        4,
        ColumnValues::ByteArray(rows),
        vec![1, 0, 1, 0],
        vec![0, 1, 0, 1],
    )
    .unwrap();
    assert!(column.is_well_formed());
    column.remove_values(terms(&["foo@bar.com"]), "a much longer replacement".to_string());
    assert!(column.is_well_formed());
    assert_eq!(column.len(), 4);
    assert_eq!(column.def_levels(), &vec![1i16, 0, 1, 0]);
    assert_eq!(column.rep_levels(), &vec![0i16, 1, 0, 1]);
    assert_eq!(
        strings(&column),
        vec![b"a much longer replacement".to_vec(), b"keep".to_vec(), Vec::new(), Vec::new()]
    );
}

#[test]
fn remove_values_skips_values_that_are_not_text() {
    let mut broken = vec![0xffu8];
    broken.extend_from_slice(b"foo@bar.com");
    let rows = vec![broken.clone(), b"foo@bar.com".to_vec()];
    let mut column = ParquetColumn::read(
        PhysicalType::ByteArray,
        2,
        ColumnValues::ByteArray(rows),
        vec![0, 0],
        vec![0, 0],
    )
    .unwrap();
    column.remove_values(terms(&["foo@bar.com"]), "R".to_string());
    assert_eq!(strings(&column), vec![broken, b"R".to_vec()]);
    assert!(column.is_dirty());
}

#[test]
fn remove_values_leaves_columns_of_other_types_alone() {
    let all = vec![
        ColumnValues::Bool(vec![true, false]),
        ColumnValues::Int32(vec![1718579042, -1]),
        ColumnValues::Int64(vec![i64::MIN, 7]),
        ColumnValues::Int96(vec![
            Int96 { elem0: 1, elem1: 2, elem2: 3 },
            Int96 { elem0: 0x6f6f66, elem1: 0, elem2: 0 },
        ]),
        ColumnValues::Float(vec![0x7fc0_0001, 1.5f32.to_bits()]),
        ColumnValues::Double(vec![0x7ff8_0000_0000_0001, 2.5f64.to_bits()]),
    ];
    for values in all {
        let kind = values.physical_type();
        let mut column = ParquetColumn::read(kind, 2, values, vec![0, 0], vec![0, 0]).unwrap();
        let before = column.clone();
        column.remove_values(terms(&["foo", "\u{1}"]), "R".to_string());
        assert_eq!(column, before);
        assert!(!column.is_dirty());
    }
}

#[test]
fn a_dirty_column_stays_dirty() {
    let mut column = string_column(&["foo@bar.com"]);
    column.remove_values(terms(&["foo@bar.com"]), "R".to_string());
    assert!(column.is_dirty());
    column.remove_values(terms(&["nothing here"]), "R".to_string());
    assert!(column.is_dirty());
    assert_eq!(strings(&column), vec![b"R".to_vec()]);
}

#[test]
fn a_second_redaction_of_the_redacted_values_finds_nothing() {
    let search = terms(&["foo@bar.com", "baz@qux.com"]);
    let mut column = string_column(&["foo@bar.com,baz@qux.com", "none", "baz@qux.com"]);
    column.remove_values(search.clone(), "ghost@example.com".to_string());
    let texts: Vec<String> =
        strings(&column).iter().map(|v| String::from_utf8(v.clone()).unwrap()).collect();
    let borrowed: Vec<&str> = texts.iter().map(|t| t.as_str()).collect();
    let mut again = string_column(&borrowed);
    let before = again.clone();
    again.remove_values(search, "ghost@example.com".to_string());
    assert!(!again.is_dirty());
    assert_eq!(again, before);
}

#[test]
fn a_second_redaction_finds_a_term_that_the_replacement_brought_in() {
    let mut column = string_column(&["a"]);
    column.remove_values(terms(&["a"]), "aa".to_string());
    assert_eq!(strings(&column), vec![b"aa".to_vec()]);
    let mut again = string_column(&["aa"]);
    again.remove_values(terms(&["a"]), "aa".to_string());
    assert!(again.is_dirty());
    assert_eq!(strings(&again), vec![b"aaaa".to_vec()]);
}

#[test]
fn redact_is_remove_values_with_borrowed_arguments() {
    let mut one = string_column(&["foo@bar.com", "x"]);
    let mut two = one.clone();
    one.redact(&terms(&["foo@bar.com"]), &"R".to_string());
    two.remove_values(terms(&["foo@bar.com"]), "R".to_string());
    assert_eq!(one, two);
}

#[test]
fn read_reports_an_error_kind() {
    assert_eq!(Error::DecodeFailed.name(), "DecodeFailed");
}
