//! Conversion between tabular text and tables of records.
//!
//! [`decode`] reads a text whose first line is a header into a list of
//! records; [`encode`] writes a list of records as such a text. The splitting
//! and quoting of fields is the work of the `csv` crate, which the library
//! calls through the contracts in [`codec`]; pairing rows with headers,
//! rendering values and the failures are the library's own, and verified.

pub mod codec;
pub mod decode;
pub mod encode;
pub mod error;
pub mod laws;
pub mod text;
pub mod value;

pub use decode::{csv_parse, decode, record_from_row};
pub use encode::{csv_stringify, data_row, encode};
pub use error::{CsvError, ErrorKind};
pub use text::render;
pub use value::{Record, Value};
