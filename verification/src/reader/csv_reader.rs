//! The backend for comma-separated text: from the bytes of a file to records.
//!
//! Positions are byte offsets. The caller reads the bytes; this module
//! decodes them, splits them into rows with the `csv` crate, and turns each
//! row into a record with the decoder that the caller brings.

use vstd::prelude::*;
use vstd::utf8::{decode_utf8, valid_utf8};
use crate::reader::msg_dispatcher::Record;
use crate::utils::error::ReaderError;
use crate::utils::model::EncType;

verus! {

/// One row as the `csv` crate hands it out: its fields, or the text of the
/// error that it met.
pub type Row = Result<Vec<String>, String>;

/// The text that the decoder of `encoding_rs_io`, set to GBK, makes of
/// `bytes`, or the text of its error.
pub uninterp spec fn gbk_decoded(bytes: Seq<u8>) -> Result<Seq<char>, Seq<char>>;

/// The text that `String::from_utf8_lossy` makes of `bytes`.
pub uninterp spec fn utf8_lossy(bytes: Seq<u8>) -> Seq<char>;

/// `text` as `str::trim` leaves it.
pub uninterp spec fn trimmed(text: Seq<char>) -> Seq<char>;

/// The rows that a flexible reader of the `csv` crate finds in `text`; with
/// `has_headers` the first row is taken as the header and left out.
pub uninterp spec fn csv_rows(text: Seq<char>, has_headers: bool) -> Seq<
    Result<Seq<Seq<char>>, Seq<char>>,
>;

/// The fields of a row as sequences of characters.
pub open spec fn fields_view(fields: Seq<String>) -> Seq<Seq<char>> {
    fields.map_values(|field: String| field@)
}

/// A row as plain values.
pub open spec fn row_view(row: Row) -> Result<Seq<Seq<char>>, Seq<char>> {
    match row {
        Ok(fields) => Ok(fields_view(fields@)),
        Err(text) => Err(text@),
    }
}

/// Rows as plain values.
pub open spec fn rows_view(rows: Seq<Row>) -> Seq<Result<Seq<Seq<char>>, Seq<char>>> {
    rows.map_values(|row: Row| row_view(row))
}

/// Decodes GBK text.
///
/// Trusted: runs `bytes` through the reader that
/// `encoding_rs_io::DecodeReaderBytesBuilder` builds for the explicit
/// encoding `encoding_rs::GBK`, and reads it to its end. With an explicit
/// encoding nothing is sniffed, so the outcome depends on the bytes alone;
/// the contract gives it its name.
#[verifier::external_body]
fn decode_gbk(bytes: &Vec<u8>) -> (text: Result<String, String>)
    ensures
        match text {
            Ok(decoded) => gbk_decoded(bytes@) == Ok::<Seq<char>, Seq<char>>(decoded@),
            Err(reason) => gbk_decoded(bytes@) == Err::<Seq<char>, Seq<char>>(reason@),
        },
{
    let mut text = String::new();
    let mut reader = encoding_rs_io::DecodeReaderBytesBuilder::new()
        .encoding(Some(encoding_rs::GBK))
        .build(&bytes[..]);
    match std::io::Read::read_to_string(&mut reader, &mut text) {
        Ok(_) => Ok(text),
        Err(error) => Err(error.to_string()),
    }
}

/// Decodes UTF-8 text, and refuses bytes that are not UTF-8.
///
/// Trusted: calls `String::from_utf8`, which returns the string that the
/// bytes encode and fails exactly when they are not valid UTF-8.
#[verifier::external_body]
fn decode_utf8_strict(bytes: &Vec<u8>) -> (text: Option<String>)
    ensures
        text is Some <==> valid_utf8(bytes@),
        text is Some ==> text->0@ == decode_utf8(bytes@),
{
    String::from_utf8(bytes.clone()).ok()
}

/// Decodes UTF-8 text, with a replacement character for what is not UTF-8.
///
/// Trusted: calls `String::from_utf8_lossy`; the contract gives its result
/// its name.
#[verifier::external_body]
fn decode_utf8_lossy(bytes: &Vec<u8>) -> (text: String)
    ensures
        text@ == utf8_lossy(bytes@),
{
    String::from_utf8_lossy(&bytes[..]).into_owned()
}

/// `text` without the white space at its two ends.
///
/// Trusted: calls `str::trim`; the contract gives its result its name.
#[verifier::external_body]
fn trim(text: &str) -> (inner: &str)
    ensures
        inner@ == trimmed(text@),
{
    text.trim()
}

/// Splits `text` into rows.
///
/// Trusted: reads `text` with a reader that `csv::ReaderBuilder` builds with
/// `flexible(true)` and the given `has_headers`, and collects what
/// `csv::Reader::records` yields: for each row its fields, or the text of its
/// error. The contract gives the result its name.
#[verifier::external_body]
fn split_rows(text: &str, has_headers: bool) -> (rows: Vec<Row>)
    ensures
        rows_view(rows@) == csv_rows(text@, has_headers),
{
    let mut reader = csv::ReaderBuilder::new()
        .flexible(true)
        .has_headers(has_headers)
        .from_reader(text.as_bytes());
    reader
        .records()
        .map(|row| match row {
            Ok(record) => Ok(record.iter().map(|field| field.to_string()).collect()),
            Err(error) => Err(error.to_string()),
        })
        .collect()
}

/// Whether `decode` may be called on every row.
pub open spec fn decodes_all<T, D: Fn(&Vec<String>) -> Result<T, String>>(decode: D) -> bool {
    forall|fields: Vec<String>| #[trigger] call_requires(decode, (&fields,))
}

/// Whether `record` is what `decode` makes of `row`: the decoder's answer for
/// the fields of a row, and for a row that the splitter could not read, the
/// splitter's error.
pub open spec fn record_of<T, D: Fn(&Vec<String>) -> Result<T, String>>(
    decode: D,
    row: Row,
    record: Record<T>,
) -> bool {
    match row {
        Ok(fields) => call_ensures(decode, (&fields,), record),
        Err(text) => record == Err::<T, String>(text),
    }
}

/// Whether a row counts as read in full: the splitter could not read it, or
/// the decoder took it.
pub open spec fn row_is_whole<T>(row: Row, record: Record<T>) -> bool {
    row is Err || record is Ok
}

/// Whether `records` and `read_success` are what `decode` makes of `rows`:
/// one record for each row, in order, and the flag says that no row was
/// refused by the decoder.
pub open spec fn records_of<T, D: Fn(&Vec<String>) -> Result<T, String>>(
    decode: D,
    rows: Seq<Row>,
    records: Seq<Record<T>>,
    read_success: bool,
) -> bool {
    &&& records.len() == rows.len()
    &&& forall|i: int| 0 <= i < rows.len() ==> record_of(decode, rows[i], #[trigger] records[i])
    &&& read_success <==> forall|i: int|
        0 <= i < rows.len() ==> row_is_whole(rows[i], #[trigger] records[i])
}

/// Whether `records` and `read_success` are what `decode` makes of `text`:
/// the text is trimmed and split into rows, without a header row where
/// `have_head` says that there is one, and each row is decoded.
pub open spec fn parsed_from<T, D: Fn(&Vec<String>) -> Result<T, String>>(
    decode: D,
    text: Seq<char>,
    have_head: bool,
    records: Seq<Record<T>>,
    read_success: bool,
) -> bool {
    exists|rows: Seq<Row>|
        rows_view(rows) == csv_rows(trimmed(text), have_head) && #[trigger] records_of(
            decode,
            rows,
            records,
            read_success,
        )
}

/// Whether `records` are what `decode` makes of `text`, whatever became of
/// the flag.
pub open spec fn records_from<T, D: Fn(&Vec<String>) -> Result<T, String>>(
    decode: D,
    text: Seq<char>,
    have_head: bool,
    records: Seq<Record<T>>,
) -> bool {
    exists|read_success: bool| #[trigger]
        parsed_from(decode, text, have_head, records, read_success)
}

/// Turns rows into records. A row that the decoder refuses becomes an error
/// record and clears the flag: it may be a row that was still being written.
pub fn collect_records<T, D: Fn(&Vec<String>) -> Result<T, String>>(
    rows: Vec<Row>,
    decode: &D,
) -> (parsed: (Vec<Record<T>>, bool))
    requires
        decodes_all(*decode),
    ensures
        records_of(*decode, rows@, parsed.0@, parsed.1),
{
    let mut ret_data: Vec<Record<T>> = Vec::new();
    let mut read_success = true;
    let mut i: usize = 0;
    while i < rows.len()
        invariant
            i <= rows.len(),
            decodes_all(*decode),
            records_of(*decode, rows@.take(i as int), ret_data@, read_success),
        decreases rows.len() - i,
    {
        let ghost before = ret_data@;
        let ghost flag = read_success;
        match &rows[i] {
            Ok(fields) => {
                let record = decode(fields);
                if record.is_err() {
                    read_success = false;
                }
                ret_data.push(record);
            },
            Err(text) => {
                ret_data.push(Err(text.clone()));
            },
        }
        proof {
            let grown = rows@.take(i + 1);
            assert forall|k: int| 0 <= k < grown.len() implies record_of(
                *decode,
                grown[k],
                #[trigger] ret_data@[k],
            ) by {
                if k < i {
                    assert(rows@.take(i as int)[k] == grown[k]);
                    assert(before[k] == ret_data@[k]);
                }
            }
            if read_success {
                assert(flag);
                assert forall|k: int| 0 <= k < grown.len() implies row_is_whole(
                    grown[k],
                    #[trigger] ret_data@[k],
                ) by {
                    if k < i {
                        assert(rows@.take(i as int)[k] == grown[k]);
                        assert(row_is_whole(rows@.take(i as int)[k], before[k]));
                    }
                }
            } else if flag {
                assert(!row_is_whole(grown[i as int], ret_data@[i as int]));
            } else {
                let k = choose|k: int|
                    0 <= k < i && !row_is_whole(rows@.take(i as int)[k], #[trigger] before[k]);
                assert(grown[k] == rows@.take(i as int)[k]);
                assert(!row_is_whole(grown[k], ret_data@[k]));
            }
        }
        i += 1;
    }
    assert(rows@.take(i as int) =~= rows@);
    (ret_data, read_success)
}

/// Parses `data`: trims it, splits it into rows, leaving out a header row
/// where `have_head` says that there is one, and decodes each row.
pub fn deserialize_from_str<T, D: Fn(&Vec<String>) -> Result<T, String>>(
    data: &str,
    have_head: bool,
    decode: &D,
) -> (parsed: (Vec<Record<T>>, bool))
    requires
        decodes_all(*decode),
    ensures
        parsed_from(*decode, data@, have_head, parsed.0@, parsed.1),
{
    let rows = split_rows(trim(data), have_head);
    let ghost witness = rows@;
    let parsed = collect_records(rows, decode);
    assert(rows_view(witness) == csv_rows(trimmed(data@), have_head) && records_of(
        *decode,
        witness,
        parsed.0@,
        parsed.1,
    ));
    parsed
}

/// The text that `bytes` stand for when read strictly in `enc`, or nothing
/// where they cannot be read so.
pub open spec fn strict_text(bytes: Seq<u8>, enc: EncType) -> Option<Seq<char>> {
    match enc {
        EncType::GBK => match gbk_decoded(bytes) {
            Ok(text) => Some(text),
            Err(_) => None,
        },
        EncType::UTF8 => if valid_utf8(bytes) {
            Some(decode_utf8(bytes))
        } else {
            None
        },
    }
}

/// The text that `bytes` stand for when read leniently in `enc`, or nothing
/// where they cannot be read at all.
pub open spec fn lenient_text(bytes: Seq<u8>, enc: EncType) -> Option<Seq<char>> {
    match enc {
        EncType::GBK => match gbk_decoded(bytes) {
            Ok(text) => Some(text),
            Err(_) => None,
        },
        EncType::UTF8 => Some(utf8_lossy(bytes)),
    }
}

/// Parses what was appended to a file: `tail` holds its bytes from offset
/// `seek_pos` to its end. Returns the offset after them, their records, and
/// whether the last row was whole.
///
/// Nothing appended gives the same offset, no record and `true`. A header row
/// is expected exactly when the tail starts at offset 0. The offset moves by
/// the number of bytes, whatever their encoding. Bytes that cannot be decoded
/// are an error.
pub fn read_csv_data<T, D: Fn(&Vec<String>) -> Result<T, String>>(
    tail: &Vec<u8>,
    seek_pos: u64,
    enc_type: EncType,
    decode: &D,
) -> (read: Result<(u64, Vec<Record<T>>, bool), ReaderError>)
    requires
        decodes_all(*decode),
        seek_pos + tail.len() <= u64::MAX,
    ensures
        tail.len() == 0 ==> read is Ok && read->Ok_0.0 == seek_pos && read->Ok_0.1@.len() == 0
            && read->Ok_0.2,
        read is Ok <==> tail.len() == 0 || strict_text(tail@, enc_type) is Some,
        read is Err ==> read->Err_0 is IoError,
        read is Ok ==> read->Ok_0.0 == seek_pos + tail.len(),
        read is Ok && tail.len() > 0 ==> parsed_from(
            *decode,
            strict_text(tail@, enc_type)->0,
            seek_pos == 0,
            read->Ok_0.1@,
            read->Ok_0.2,
        ),
{
    if tail.len() == 0 {
        return Ok((seek_pos, Vec::new(), true));
    }
    let new_pos = seek_pos + tail.len() as u64;
    let data = match enc_type {
        EncType::GBK => match decode_gbk(tail) {
            Ok(text) => text,
            Err(reason) => {
                return Err(ReaderError::IoError(reason));
            },
        },
        EncType::UTF8 => match decode_utf8_strict(tail) {
            Some(text) => text,
            None => {
                return Err(ReaderError::IoError("stream did not contain valid UTF-8".to_string()));
            },
        },
    };
    let (records, read_success) = deserialize_from_str(data.as_str(), seek_pos == 0, decode);
    Ok((new_pos, records, read_success))
}

/// Parses the start of a file for a subscriber that is caught up: `region`
/// holds the bytes from offset `start_pos` on, up to the position asked for.
/// A header row is expected exactly when the region starts at offset 0. An
/// empty text gives no record.
pub fn read_csv_data_to_position<T, D: Fn(&Vec<String>) -> Result<T, String>>(
    region: &Vec<u8>,
    start_pos: u64,
    enc_type: EncType,
    decode: &D,
) -> (read: Result<Vec<Record<T>>, ReaderError>)
    requires
        decodes_all(*decode),
    ensures
        read is Ok <==> lenient_text(region@, enc_type) is Some,
        read is Err ==> read->Err_0 is IoError,
        read is Ok ==> {
            let text = lenient_text(region@, enc_type)->0;
            if text.len() == 0 {
                read->Ok_0@.len() == 0
            } else {
                records_from(*decode, text, start_pos == 0, read->Ok_0@)
            }
        },
{
    let data = match enc_type {
        EncType::GBK => match decode_gbk(region) {
            Ok(text) => text,
            Err(reason) => {
                return Err(ReaderError::IoError(reason));
            },
        },
        EncType::UTF8 => decode_utf8_lossy(region),
    };
    if data.as_str().is_empty() {
        return Ok(Vec::new());
    }
    let (records, read_success) = deserialize_from_str(data.as_str(), start_pos == 0, decode);
    assert(parsed_from(*decode, data@, start_pos == 0, records@, read_success));
    Ok(records)
}

/// Parses the start of a file up to a position: `region` holds its bytes from
/// offset 0 up to that position.
pub fn read_to_seek<T, D: Fn(&Vec<String>) -> Result<T, String>>(
    region: &Vec<u8>,
    enc_type: EncType,
    decode: &D,
) -> (read: Result<Vec<Record<T>>, ReaderError>)
    requires
        decodes_all(*decode),
    ensures
        read is Ok <==> lenient_text(region@, enc_type) is Some,
        read is Err ==> read->Err_0 is IoError,
        read is Ok ==> {
            let text = lenient_text(region@, enc_type)->0;
            if text.len() == 0 {
                read->Ok_0@.len() == 0
            } else {
                records_from(*decode, text, true, read->Ok_0@)
            }
        },
{
    read_csv_data_to_position(region, 0, enc_type, decode)
}

} // verus!
