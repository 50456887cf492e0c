//! The tabular-text codec: the `csv` crate's reader and writer, seen through
//! contracts, and the standard library's conversion of bytes to a string.
//!
//! Nothing here is proved. Each item states, over plain sequences of fields,
//! what the codec is taken to do; the rest of the library is verified against
//! these statements.

use crate::text::texts;
use vstd::prelude::*;

verus! {

/// The reader of the `csv` crate, opaque to the verifier.
#[verifier::external_type_specification]
#[verifier::external_body]
#[verifier::reject_recursive_types(R)]
pub struct ExReader<R>(csv::Reader<R>);

/// The writer of the `csv` crate over a buffer in memory, opaque to the
/// verifier.
#[verifier::external_body]
pub struct RowWriter {
    inner: csv::Writer<Vec<u8>>,
}

/// The error that the codec's reader and writer report.
#[verifier::external_type_specification]
#[verifier::external_body]
pub struct ExCodecError(csv::Error);

/// The error of a sink that could not take the writer's bytes.
#[verifier::external_type_specification]
#[verifier::external_body]
pub struct ExSinkError(std::io::Error);

/// The error of bytes that are no UTF-8.
#[verifier::external_type_specification]
#[verifier::external_body]
pub struct ExTextError(std::string::FromUtf8Error);

/// `String::from_utf8` succeeds exactly on valid UTF-8, and the string it
/// gives is encoded by the bytes it was given.
pub assume_specification[ String::from_utf8 ](bytes: Vec<u8>) -> (res: Result<
    String,
    std::string::FromUtf8Error,
>)
    ensures
        res is Ok <==> vstd::utf8::valid_utf8(bytes@),
        res matches Ok(text) ==> vstd::utf8::encode_utf8(text@) == bytes@,
;

/// The records that the codec's reader finds in a text, in order, the first
/// line included: `Some` with the record's fields, or `None` where the reader
/// reports an error in place of a record.
pub uninterp spec fn parsed_records(text: Seq<char>) -> Seq<Option<Seq<Seq<char>>>>;

/// The records that a reader has yet to give, in the order in which it will
/// give them.
pub uninterp spec fn pending_records(reader: csv::Reader<&[u8]>) -> Seq<Option<Seq<Seq<char>>>>;

/// The records that were written to a writer, in order.
pub uninterp spec fn written_records(writer: RowWriter) -> Seq<Seq<Seq<char>>>;

/// The bytes that the codec's writer makes of a sequence of records.
pub uninterp spec fn written_bytes(records: Seq<Seq<Seq<char>>>) -> Seq<u8>;

/// `csv::ReaderBuilder::from_reader` on the bytes of `text`, set to give the
/// first line as a record like any other and to accept records of any
/// length. The reader starts with every record of the text pending.
#[verifier::external_body]
pub(crate) fn open_reader<'a>(text: &'a str) -> (reader: csv::Reader<&'a [u8]>)
    ensures
        pending_records(reader) == parsed_records(text@),
{
    csv::ReaderBuilder::new().has_headers(false).flexible(true).from_reader(text.as_bytes())
}

/// `csv::Reader::records`, advanced by one step. With nothing pending the
/// result is `None` and nothing changes. Otherwise the first pending record
/// leaves the reader: its fields come back where the reader read them, an
/// error where it did not.
#[verifier::external_body]
pub(crate) fn next_record<'a>(reader: &mut csv::Reader<&'a [u8]>) -> (out: Option<Result<Vec<String>, csv::Error>>)
    ensures
        pending_records(*old(reader)).len() == 0 ==> out is None && pending_records(*final(reader))
            == pending_records(*old(reader)),
        pending_records(*old(reader)).len() > 0 ==> out is Some && pending_records(*final(reader))
            == pending_records(*old(reader)).skip(1),
        pending_records(*old(reader)).len() > 0 ==> match pending_records(*old(reader))[0] {
            Some(fields) => out matches Some(Ok(row)) && texts(row@) == fields,
            None => out matches Some(Err(_)),
        },
{
    match reader.records().next() {
        Some(Ok(record)) => Some(Ok(record.iter().map(String::from).collect())),
        Some(Err(e)) => Some(Err(e)),
        None => None,
    }
}

/// `csv::WriterBuilder::from_writer` on an empty vector of bytes, set to
/// accept records of any length. Nothing is written yet.
#[verifier::external_body]
pub(crate) fn new_writer() -> (writer: RowWriter)
    ensures
        written_records(writer) == Seq::<Seq<Seq<char>>>::empty(),
{
    RowWriter { inner: csv::WriterBuilder::new().flexible(true).from_writer(Vec::new()) }
}

/// `csv::Writer::write_record`. The sink is memory and the writer checks no
/// lengths, so the write succeeds, and the record joins those written.
#[verifier::external_body]
pub(crate) fn write_row(writer: &mut RowWriter, row: &Vec<String>) -> (res: Result<(), csv::Error>)
    ensures
        res is Ok,
        written_records(*final(writer)) == written_records(*old(writer)).push(texts(row@)),
{
    writer.inner.write_record(row)
}

/// `csv::Writer::into_inner`, with the error that the sink gave where the
/// flush fails. Flushing into memory succeeds, and the sink holds the bytes
/// that the codec makes of the records written.
#[verifier::external_body]
pub(crate) fn into_bytes(writer: RowWriter) -> (res: Result<Vec<u8>, std::io::Error>)
    ensures
        res is Ok,
        res matches Ok(bytes) ==> bytes@ == written_bytes(written_records(writer)),
{
    writer.inner.into_inner().map_err(csv::IntoInnerError::into_error)
}

} // verus!
