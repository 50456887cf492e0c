//! From a table of records to tabular text.

use crate::codec::{into_bytes, new_writer, write_row, written_bytes, written_records};
use crate::error::{CsvError, ErrorKind};
use crate::text::{render, rendered, texts};
use crate::value::{keys_of, lookup, views, Entries, Record, Value, ValueView};
use vstd::prelude::*;
use vstd::utf8::{decode_utf8, valid_utf8};

verus! {

/// The field that a record gives under a name: the text of the value that
/// the name holds, or the empty text where the record lacks the name.
pub open spec fn field_of(entries: Entries, name: Seq<char>) -> Seq<char> {
    match lookup(entries, name) {
        Some(value) => rendered(value),
        None => Seq::empty(),
    }
}

/// The row of a record under a header: one field for each name of the
/// header, in the header's order.
pub open spec fn row_of(header: Seq<Seq<char>>, entries: Entries) -> Seq<Seq<char>> {
    Seq::new(header.len(), |j: int| field_of(entries, header[j]))
}

/// The rows of the items of a table under a header, in order: one for each
/// record, none for an item that is no record.
pub open spec fn rows_of(header: Seq<Seq<char>>, items: Seq<ValueView>) -> Seq<Seq<Seq<char>>>
    decreases items.len(),
{
    if items.len() == 0 {
        Seq::empty()
    } else {
        match items.last() {
            ValueView::Record(entries) => rows_of(header, items.drop_last()).push(
                row_of(header, entries),
            ),
            _ => rows_of(header, items.drop_last()),
        }
    }
}

/// The header of a table: the field names of its first item, in insertion
/// order.
pub open spec fn header_of(items: Seq<ValueView>) -> Seq<Seq<char>>
    recommends
        items.len() > 0,
        items[0] is Record,
{
    keys_of(items[0]->Record_0)
}

/// The records that go to the codec for a table: none for the empty table,
/// else the header and then the rows of the items under it.
pub open spec fn lines_of(items: Seq<ValueView>) -> Seq<Seq<Seq<char>>> {
    if items.len() == 0 {
        Seq::empty()
    } else {
        seq![header_of(items)] + rows_of(header_of(items), items)
    }
}

/// Builds the row of a record under a header.
pub fn data_row(header: &Vec<String>, record: &Record) -> (row: Vec<String>)
    ensures
        texts(row@) == row_of(texts(header@), record@),
{
    let mut row: Vec<String> = Vec::new();
    let mut j: usize = 0;
    while j < header.len()
        invariant
            j <= header.len(),
            row@.len() == j,
            forall|k: int|
                0 <= k < j ==> (#[trigger] row@[k])@ == field_of(record@, texts(header@)[k]),
        decreases header.len() - j,
    {
        let field = match record.get(&header[j]) {
            Some(value) => render(value),
            None => String::new(),
        };
        row.push(field);
        j += 1;
    }
    assert(texts(row@) =~= row_of(texts(header@), record@));
    row
}

/// Writes a table as tabular text. The empty table gives the empty text and
/// no header. Otherwise the first item must be a record: its field names, in
/// insertion order, are the header, and each record of the table gives one
/// row under it; an item that is no record gives no row. The text is what
/// the codec's bytes for these records decode to.
pub fn encode(table: &Vec<Value>) -> (res: Result<String, CsvError>)
    ensures
        table@.len() == 0 ==> (res matches Ok(text) && text@ == Seq::<char>::empty()),
        table@.len() > 0 && !(table@[0]@ is Record) ==> (res matches Err(e) && e.kind
            == ErrorKind::Shape && e.message@ == "expected a Record"@),
        table@.len() > 0 && table@[0]@ is Record ==> match res {
            Ok(text) => valid_utf8(written_bytes(lines_of(views(table@)))) && text@ == decode_utf8(
                written_bytes(lines_of(views(table@))),
            ),
            Err(e) => !valid_utf8(written_bytes(lines_of(views(table@)))) && e.kind
                == ErrorKind::Encoding,
        },
{
    if table.len() == 0 {
        return Ok(String::new());
    }
    let header = match &table[0] {
        Value::Record(first) => first.keys(),
        _ => {
            return Err(CsvError::new(ErrorKind::Shape, "expected a Record"));
        },
    };
    let ghost items = views(table@);
    let ghost names = texts(header@);
    assert(names == header_of(items));
    let mut writer = new_writer();
    match write_row(&mut writer, &header) {
        Ok(()) => {},
        Err(e) => {
            return Err(CsvError::codec(e));
        },
    }
    let mut i: usize = 0;
    while i < table.len()
        invariant
            i <= table.len(),
            items == views(table@),
            names == texts(header@),
            written_records(writer) == seq![names] + rows_of(names, items.take(i as int)),
        decreases table.len() - i,
    {
        proof {
            let next = items.take(i + 1);
            assert(next.drop_last() =~= items.take(i as int));
            assert(next.last() == table@[i as int]@);
        }
        match &table[i] {
            Value::Record(record) => {
                let row = data_row(&header, record);
                match write_row(&mut writer, &row) {
                    Ok(()) => {},
                    Err(e) => {
                        return Err(CsvError::codec(e));
                    },
                }
            },
            _ => {},
        }
        assert(written_records(writer) =~= seq![names] + rows_of(names, items.take(i + 1)));
        i += 1;
    }
    assert(items.take(i as int) =~= items);
    let bytes = match into_bytes(writer) {
        Ok(bytes) => bytes,
        Err(e) => {
            return Err(CsvError::sink(e));
        },
    };
    match String::from_utf8(bytes) {
        Ok(text) => {
            proof {
                vstd::utf8::encode_utf8_decode_utf8(text@);
            }
            Ok(text)
        },
        Err(e) => Err(CsvError::encoding(e)),
    }
}

/// The items of the argument list of [`csv_stringify`], if the list is one
/// list.
pub open spec fn list_argument(args: Seq<ValueView>) -> Option<Seq<ValueView>> {
    if args.len() == 1 {
        match args[0] {
            ValueView::List(items) => Some(items),
            _ => None,
        }
    } else {
        None
    }
}

/// Writes the one list argument as tabular text, as [`encode`] does. Any
/// other argument list is refused before anything is written.
pub fn csv_stringify(args: Vec<Value>) -> (res: Result<Value, CsvError>)
    ensures
        args@.len() != 1 ==> (res matches Err(e) && e.kind == ErrorKind::ArityOrType && e.message@
            == "csv_stringify(list)"@),
        args@.len() == 1 && !(args@[0]@ is List) ==> (res matches Err(e) && e.kind
            == ErrorKind::ArityOrType && e.message@ == "Expected a List of Dictionaries"@),
        list_argument(views(args@)) matches Some(items) ==> {
            &&& items.len() == 0 ==> (res matches Ok(value) && value@ == ValueView::Text(
                Seq::empty(),
            ))
            &&& items.len() > 0 && !(items[0] is Record) ==> (res matches Err(e) && e.kind
                == ErrorKind::Shape && e.message@ == "expected a Record"@)
            &&& items.len() > 0 && items[0] is Record ==> match res {
                Ok(value) => valid_utf8(written_bytes(lines_of(items))) && value@
                    == ValueView::Text(decode_utf8(written_bytes(lines_of(items)))),
                Err(e) => !valid_utf8(written_bytes(lines_of(items))) && e.kind
                    == ErrorKind::Encoding,
            }
        },
{
    if args.len() != 1 {
        return Err(CsvError::new(ErrorKind::ArityOrType, "csv_stringify(list)"));
    }
    match &args[0] {
        Value::List(table) => {
            assert(args@[0]@->List_0 =~= views(table@));
            match encode(table) {
                Ok(text) => Ok(Value::Text(text)),
                Err(e) => Err(e),
            }
        },
        _ => Err(CsvError::new(ErrorKind::ArityOrType, "Expected a List of Dictionaries")),
    }
}

} // verus!
