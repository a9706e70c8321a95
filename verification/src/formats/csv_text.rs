//! Records of text as CSV, written by the `csv` crate.

use crate::formats::generic_csv::texts;
use vstd::prelude::*;
use vstd::string::*;
use vstd::utf8::{encode_utf8, valid_utf8};

verus! {

/// The error type of the `csv` crate.
#[verifier::external_type_specification]
#[verifier::external_body]
pub struct ExCsvError(csv::Error);

/// What the `csv` crate makes of one record with its default settings: the
/// bytes that it writes, or nothing where it fails.
pub uninterp spec fn csv_record_bytes(fields: Seq<Seq<char>>) -> Option<Seq<u8>>;

/// Why an export failed.
#[derive(Debug)]
pub enum ExportError {
    /// The text could not be written or decoded; with the words of the failure.
    Csv(String),
}

/// `csv::Writer::write_record` on a writer with default settings over an
/// empty buffer, and `into_inner`: the outcome depends on the fields of the
/// record alone; on success it holds the bytes of the one record.
#[verifier::external_body]
fn write_csv_record(record: &Vec<String>) -> (r: Result<Vec<u8>, csv::Error>)
    ensures
        r is Ok <==> csv_record_bytes(texts(record@)) is Some,
        r is Ok ==> csv_record_bytes(texts(record@)) == Some(r->Ok_0@),
{
    let mut writer = csv::Writer::from_writer(Vec::new());
    writer.write_record(record)?;
    writer.into_inner().map_err(|e| csv::Error::from(e.into_error()))
}

/// `String::from_utf8`: succeeds exactly on valid UTF-8, and the string
/// then holds the given bytes. A failure comes back as its message.
#[verifier::external_body]
fn string_from_utf8(bytes: Vec<u8>) -> (r: Result<String, String>)
    ensures
        r is Ok <==> valid_utf8(bytes@),
        r is Ok ==> encode_utf8(r->Ok_0@) == bytes@,
{
    String::from_utf8(bytes).map_err(|e| e.to_string())
}

/// The CSV text of records: the bytes of each record, one behind the
/// other; nothing where a record cannot be written.
pub open spec fn csv_text(records: Seq<Seq<Seq<char>>>) -> Option<Seq<u8>>
    decreases records.len(),
{
    if records.len() == 0 {
        Some(Seq::empty())
    } else {
        match (csv_text(records.drop_last()), csv_record_bytes(records.last())) {
            (Some(front), Some(last)) => Some(front + last),
            _ => None,
        }
    }
}

/// Where the first `n` records cannot be written, all of them cannot.
proof fn lemma_csv_text_fails(records: Seq<Seq<Seq<char>>>, n: int)
    requires
        0 <= n <= records.len(),
        csv_text(records.take(n)) is None,
    ensures
        csv_text(records) is None,
    decreases records.len() - n,
{
    if n < records.len() {
        assert(records.take(n + 1).drop_last() =~= records.take(n));
        lemma_csv_text_fails(records, n + 1);
    } else {
        assert(records.take(n) =~= records);
    }
}

/// The bytes written so far with the outcome of writing one more record
/// behind them, or the failure.
pub fn append_written(out: Vec<u8>, written: Result<Vec<u8>, String>) -> (r: Result<
    Vec<u8>,
    ExportError,
>)
    ensures
        written is Ok ==> r is Ok && r->Ok_0@ == out@ + written->Ok_0@,
        written is Err ==> r is Err && r->Err_0 == ExportError::Csv(written->Err_0),
{
    match written {
        Ok(bytes) => {
            let mut out = out;
            let mut bytes = bytes;
            out.append(&mut bytes);
            Ok(out)
        },
        Err(message) => Err(ExportError::Csv(message)),
    }
}

/// Writes records as CSV. It succeeds exactly where every record can be
/// written, and then gives the CSV text of the records: for no records, no
/// bytes.
pub fn write_csv(records: &Vec<Vec<String>>) -> (r: Result<Vec<u8>, ExportError>)
    ensures
        r is Ok <==> csv_text(crate::formats::generic_csv::all_texts(records@)) is Some,
        r is Ok ==> csv_text(crate::formats::generic_csv::all_texts(records@)) == Some(
            r->Ok_0@,
        ),
{
    let mut out: Vec<u8> = Vec::new();
    let mut i: usize = 0;
    let ghost all = crate::formats::generic_csv::all_texts(records@);
    while i < records.len()
        invariant
            i <= records.len(),
            all == crate::formats::generic_csv::all_texts(records@),
            csv_text(all.take(i as int)) == Some(out@),
        decreases records.len() - i,
    {
        proof {
            assert(all.take(i + 1).drop_last() =~= all.take(i as int));
            assert(all.take(i + 1).last() == texts(records@[i as int]@));
        }
        let written = match write_csv_record(&records[i]) {
            Ok(bytes) => Ok(bytes),
            Err(e) => Err(e.to_string()),
        };
        match append_written(out, written) {
            Ok(more) => {
                out = more;
            },
            Err(e) => {
                proof {
                    lemma_csv_text_fails(all, i + 1);
                }
                return Err(e);
            },
        }
        i = i + 1;
    }
    proof {
        assert(all.take(records.len() as int) =~= all);
    }
    Ok(out)
}

/// Decodes written bytes: the text, where the bytes are valid UTF-8, and
/// the failure where they are not.
pub fn decode_written(bytes: Vec<u8>) -> (r: Result<String, ExportError>)
    ensures
        r is Ok <==> valid_utf8(bytes@),
        r is Ok ==> encode_utf8(r->Ok_0@) == bytes@,
{
    match string_from_utf8(bytes) {
        Ok(s) => Ok(s),
        Err(message) => Err(ExportError::Csv(message)),
    }
}

} // verus!
