//! The ways in which a conversion fails.

use vstd::prelude::*;

verus! {

/// The kind of a failure.
#[derive(Clone, Copy, Debug, PartialEq, Eq, Structural)]
pub enum ErrorKind {
    /// The wrong number of arguments, or an argument of the wrong type.
    ArityOrType,
    /// The codec rejected the text.
    Codec,
    /// The first item of the table is no record.
    Shape,
    /// The bytes that the codec wrote are no valid text.
    Encoding,
}

/// A failure: its kind and a message for the reader.
#[derive(Debug)]
pub struct CsvError {
    pub kind: ErrorKind,
    pub message: String,
}

impl CsvError {
    /// The failure of the given kind with the given message.
    pub fn new(kind: ErrorKind, message: &str) -> (e: CsvError)
        ensures
            e.kind == kind,
            e.message@ == message@,
    {
        CsvError { kind, message: message.to_owned() }
    }

    /// The failure of the codec, with what the codec said of it.
    pub(crate) fn codec(e: csv::Error) -> (failure: CsvError)
        ensures
            failure.kind == ErrorKind::Codec,
    {
        CsvError { kind: ErrorKind::Codec, message: e.to_string() }
    }

    /// The failure of a sink that did not take the codec's bytes, with what
    /// the sink said of it.
    pub(crate) fn sink(e: std::io::Error) -> (failure: CsvError)
        ensures
            failure.kind == ErrorKind::Codec,
    {
        CsvError { kind: ErrorKind::Codec, message: e.to_string() }
    }

    /// The failure of bytes that are no text, with the reason.
    pub(crate) fn encoding(e: std::string::FromUtf8Error) -> (failure: CsvError)
        ensures
            failure.kind == ErrorKind::Encoding,
    {
        CsvError { kind: ErrorKind::Encoding, message: e.to_string() }
    }
}

} // verus!
