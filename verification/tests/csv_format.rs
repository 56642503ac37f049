use pb_file_reader::reader::csv_reader::{
    collect_records, deserialize_from_str, read_csv_data, read_csv_data_to_position, read_to_seek,
    Row,
};
use pb_file_reader::reader::msg_dispatcher::Record;
use pb_file_reader::utils::error::ReaderError;
use pb_file_reader::utils::model::EncType;

#[derive(Debug, Clone, PartialEq)]
struct TestCsvStruct1 {
    a: i32,
    b: i32,
    c: i64,
}

fn row(n: i32) -> TestCsvStruct1 {
    TestCsvStruct1 { a: n, b: n, c: n as i64 }
}

fn decode_row(fields: &Vec<String>) -> Result<TestCsvStruct1, String> {
    if fields.len() != 3 {
        return Err(format!("expected 3 fields, found {}", fields.len()));
    }
    let a = fields[0].parse::<i32>().map_err(|e| e.to_string())?;
    let b = fields[1].parse::<i32>().map_err(|e| e.to_string())?;
    let c = fields[2].parse::<i64>().map_err(|e| e.to_string())?;
    Ok(TestCsvStruct1 { a, b, c })
}

fn keep_fields(fields: &Vec<String>) -> Result<Vec<String>, String> {
    Ok(fields.clone())
}

fn texts(fields: &[&str]) -> Vec<String> {
    fields.iter().map(|field| field.to_string()).collect()
}

#[test]
fn empty_file_parses_to_nothing() {
    let read = read_csv_data(&Vec::new(), 0, EncType::UTF8, &decode_row).unwrap();
    assert_eq!(read, (0, Vec::new(), true));
    let read = read_csv_data(&Vec::new(), 0, EncType::GBK, &decode_row).unwrap();
    assert_eq!(read, (0, Vec::new(), true));
}

#[test]
fn nothing_appended_keeps_the_position() {
    let read = read_csv_data(&Vec::new(), 24, EncType::UTF8, &decode_row).unwrap();
    assert_eq!(read, (24, Vec::new(), true));
}

#[test]
fn file_read_from_its_start_has_a_header() {
    let bytes = b"a,b,c\n1,1,1\n2,2,2\n3,3,3\n".to_vec();
    let read = read_csv_data(&bytes, 0, EncType::UTF8, &decode_row).unwrap();
    assert_eq!(read, (24, vec![Ok(row(1)), Ok(row(2)), Ok(row(3))], true));
}

#[test]
fn tail_read_from_an_offset_has_no_header() {
    let bytes = b"4,4,4\n5,5,5\n".to_vec();
    let read = read_csv_data(&bytes, 24, EncType::UTF8, &decode_row).unwrap();
    assert_eq!(read, (36, vec![Ok(row(4)), Ok(row(5))], true));
}

#[test]
fn partial_last_row_clears_the_flag() {
    let bytes = b"4,4,4\n5,5".to_vec();
    let read = read_csv_data(&bytes, 24, EncType::UTF8, &decode_row).unwrap();
    let expected: Vec<Record<TestCsvStruct1>> =
        vec![Ok(row(4)), Err("expected 3 fields, found 2".to_string())];
    assert_eq!(read, (33, expected, false));
    let bytes = b"4,4,4\n5,5,5\n".to_vec();
    let read = read_csv_data(&bytes, 24, EncType::UTF8, &decode_row).unwrap();
    assert_eq!(read, (36, vec![Ok(row(4)), Ok(row(5))], true));
}

#[test]
fn header_alone_gives_no_record_but_moves_the_position() {
    let bytes = b"a,b,c\n".to_vec();
    let read = read_csv_data(&bytes, 0, EncType::UTF8, &decode_row).unwrap();
    assert_eq!(read, (6, Vec::new(), true));
}

#[test]
fn rows_may_differ_in_their_number_of_fields() {
    let bytes = b"x\n1,2,3\n4\n5,6\n".to_vec();
    let read = read_csv_data(&bytes, 0, EncType::UTF8, &keep_fields).unwrap();
    assert_eq!(
        read,
        (14, vec![Ok(texts(&["1", "2", "3"])), Ok(texts(&["4"])), Ok(texts(&["5", "6"]))], true)
    );
}

#[test]
fn quoted_fields_keep_their_commas() {
    let bytes = b"\"a,b\",c\n\"say \"\"hi\"\"\",2\n".to_vec();
    assert_eq!(bytes.len(), 23);
    let read = read_csv_data(&bytes, 7, EncType::UTF8, &keep_fields).unwrap();
    assert_eq!(
        read,
        (30, vec![Ok(texts(&["a,b", "c"])), Ok(texts(&["say \"hi\"", "2"]))], true)
    );
}

#[test]
fn white_space_around_the_text_is_trimmed() {
    let bytes = b"\n\n  a,b,c\n1,1,1\n \n\t".to_vec();
    let read = read_csv_data(&bytes, 0, EncType::UTF8, &decode_row).unwrap();
    assert_eq!(read, (19, vec![Ok(row(1))], true));
}

#[test]
fn gbk_position_moves_by_bytes_not_characters() {
    // "名,值\n中文,1\n" in GBK: each ideograph takes two bytes.
    let bytes: Vec<u8> =
        vec![0xC3, 0xFB, b',', 0xD6, 0xB5, b'\n', 0xD6, 0xD0, 0xCE, 0xC4, b',', b'1', b'\n'];
    let read = read_csv_data(&bytes, 0, EncType::GBK, &keep_fields).unwrap();
    assert_eq!(read, (13, vec![Ok(texts(&["中文", "1"]))], true));
    let read = read_csv_data(&bytes, 100, EncType::GBK, &keep_fields).unwrap();
    assert_eq!(
        read,
        (113, vec![Ok(texts(&["名", "值"])), Ok(texts(&["中文", "1"]))], true)
    );
}

#[test]
fn gbk_bytes_read_as_utf8_are_an_error() {
    let bytes: Vec<u8> = vec![0xD6, 0xD0, 0xCE, 0xC4, b',', b'1', b'\n'];
    let read = read_csv_data(&bytes, 5, EncType::UTF8, &keep_fields);
    assert!(matches!(read, Err(ReaderError::IoError(_))));
}

#[test]
fn utf8_text_with_wide_characters_moves_by_bytes() {
    let bytes = "中文,1\n".as_bytes().to_vec();
    assert_eq!(bytes.len(), 9);
    let read = read_csv_data(&bytes, 10, EncType::UTF8, &keep_fields).unwrap();
    assert_eq!(read, (19, vec![Ok(texts(&["中文", "1"]))], true));
}

#[test]
fn catch_up_from_the_start_skips_the_header() {
    let region = b"a,b,c\n1,1,1\n2,2,2\n".to_vec();
    let read = read_csv_data_to_position(&region, 0, EncType::UTF8, &decode_row).unwrap();
    assert_eq!(read, vec![Ok(row(1)), Ok(row(2))]);
    let read = read_to_seek(&region, EncType::UTF8, &decode_row).unwrap();
    assert_eq!(read, vec![Ok(row(1)), Ok(row(2))]);
}

#[test]
fn catch_up_from_an_offset_has_no_header() {
    let region = b"1,1,1\n2,2,2\n".to_vec();
    let read = read_csv_data_to_position(&region, 6, EncType::UTF8, &decode_row).unwrap();
    assert_eq!(read, vec![Ok(row(1)), Ok(row(2))]);
}

#[test]
fn catch_up_of_an_empty_region_gives_nothing() {
    let read = read_csv_data_to_position(&Vec::new(), 0, EncType::UTF8, &decode_row).unwrap();
    assert!(read.is_empty());
    let read = read_to_seek(&Vec::new(), EncType::GBK, &decode_row).unwrap();
    assert!(read.is_empty());
}

#[test]
fn catch_up_cut_inside_a_row_carries_the_error() {
    let region = b"a,b,c\n1,1,1\n2,2".to_vec();
    let read = read_csv_data_to_position(&region, 0, EncType::UTF8, &decode_row).unwrap();
    let expected: Vec<Record<TestCsvStruct1>> =
        vec![Ok(row(1)), Err("expected 3 fields, found 2".to_string())];
    assert_eq!(read, expected);
}

#[test]
fn catch_up_replaces_what_is_not_utf8() {
    let region: Vec<u8> = vec![b'h', b'\n', b'a', 0xFF, b'b', b',', b'1', b'\n'];
    let read = read_csv_data_to_position(&region, 0, EncType::UTF8, &keep_fields).unwrap();
    assert_eq!(read, vec![Ok(texts(&["a\u{FFFD}b", "1"]))]);
}

#[test]
fn catch_up_decodes_gbk() {
    let region: Vec<u8> = vec![b'h', b'\n', 0xD6, 0xD0, 0xCE, 0xC4, b',', b'1', b'\n'];
    let read = read_to_seek(&region, EncType::GBK, &keep_fields).unwrap();
    assert_eq!(read, vec![Ok(texts(&["中文", "1"]))]);
}

#[test]
fn parse_of_text_with_and_without_header() {
    let with = deserialize_from_str("a,b,c\n1,1,1\n", true, &decode_row);
    assert_eq!(with, (vec![Ok(row(1))], true));
    let without = deserialize_from_str("7,7,7\n1,1,1\n", false, &decode_row);
    assert_eq!(without, (vec![Ok(row(7)), Ok(row(1))], true));
    let nothing = deserialize_from_str("", true, &decode_row);
    assert_eq!(nothing, (Vec::new(), true));
}

#[test]
fn refused_row_becomes_an_error_record() {
    let parsed = deserialize_from_str("1,1,1\nx,2,2\n3,3,3\n", false, &decode_row);
    let expected: Vec<Record<TestCsvStruct1>> =
        vec![Ok(row(1)), Err("invalid digit found in string".to_string()), Ok(row(3))];
    assert_eq!(parsed, (expected, false));
}

#[test]
fn unreadable_row_is_an_error_that_keeps_the_flag() {
    let rows: Vec<Row> =
        vec![Ok(texts(&["1", "1", "1"])), Err("bad utf-8".to_string()), Ok(texts(&["2", "2", "2"]))];
    let parsed = collect_records(rows, &decode_row);
    let expected: Vec<Record<TestCsvStruct1>> =
        vec![Ok(row(1)), Err("bad utf-8".to_string()), Ok(row(2))];
    assert_eq!(parsed, (expected, true));
}

#[test]
fn no_rows_no_records() {
    let parsed = collect_records(Vec::new(), &decode_row);
    assert_eq!(parsed, (Vec::new(), true));
}
