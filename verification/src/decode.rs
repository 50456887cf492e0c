//! From tabular text to a table of records.

use crate::codec::{next_record, open_reader, parsed_records, pending_records};
use crate::error::{CsvError, ErrorKind};
use crate::text::texts;
use crate::value::{insert_entry, views, Entries, Record, Value, ValueView};
use vstd::prelude::*;

verus! {

/// The record that the first `n` positions of a row make under a header: the
/// field at each position stored as text under the header's name at that
/// position, in order, so that under a repeated name the later field stays.
pub open spec fn paired(header: Seq<Seq<char>>, row: Seq<Seq<char>>, n: nat) -> Entries
    decreases n,
{
    if n == 0 {
        Seq::empty()
    } else {
        insert_entry(
            paired(header, row, (n - 1) as nat),
            header[n - 1],
            ValueView::Text(row[n - 1]),
        )
    }
}

/// The number of positions that a header and a row share.
pub open spec fn shared_len(header: Seq<Seq<char>>, row: Seq<Seq<char>>) -> nat {
    if header.len() <= row.len() {
        header.len()
    } else {
        row.len()
    }
}

/// The record of a row under a header. Positions of the header beyond the row
/// give no entry; fields of the row beyond the header are dropped.
pub open spec fn record_of_row(header: Seq<Seq<char>>, row: Seq<Seq<char>>) -> Entries {
    paired(header, row, shared_len(header, row))
}

/// The table of the rows under a header: one record for each row, in order.
pub open spec fn table_of_rows(header: Seq<Seq<char>>, rows: Seq<Seq<Seq<char>>>) -> Seq<
    ValueView,
> {
    Seq::new(rows.len(), |i: int| ValueView::Record(record_of_row(header, rows[i])))
}

/// The table of the records of a text: the first is the header, the others
/// are its rows. No records, no table.
pub open spec fn table_of_records(records: Seq<Seq<Seq<char>>>) -> Seq<ValueView> {
    if records.len() == 0 {
        Seq::empty()
    } else {
        table_of_rows(records[0], records.skip(1))
    }
}

/// Whether the codec read every record.
pub open spec fn all_read(parsed: Seq<Option<Seq<Seq<char>>>>) -> bool {
    forall|i: int| 0 <= i < parsed.len() ==> (#[trigger] parsed[i]) is Some
}

/// The records that the codec read.
pub open spec fn read_records(parsed: Seq<Option<Seq<Seq<char>>>>) -> Seq<Seq<Seq<char>>> {
    Seq::new(parsed.len(), |i: int| parsed[i]->Some_0)
}

/// Builds the record of a row under a header.
pub fn record_from_row(header: &Vec<String>, row: &Vec<String>) -> (record: Record)
    ensures
        record@ == record_of_row(texts(header@), texts(row@)),
{
    let shared = if header.len() <= row.len() {
        header.len()
    } else {
        row.len()
    };
    let mut record = Record::new();
    let mut i: usize = 0;
    while i < shared
        invariant
            i <= shared,
            shared == shared_len(texts(header@), texts(row@)),
            record@ == paired(texts(header@), texts(row@), i as nat),
        decreases shared - i,
    {
        record.insert(header[i].clone(), Value::Text(row[i].clone()));
        i += 1;
    }
    record
}

/// Reads a table from tabular text. The first record of the text is the
/// header; each later record becomes one record of the table, in order. Fails
/// if and only if the codec rejects a record.
pub fn decode(text: &str) -> (res: Result<Vec<Value>, CsvError>)
    ensures
        match res {
            Ok(table) => all_read(parsed_records(text@)) && views(table@) == table_of_records(
                read_records(parsed_records(text@)),
            ),
            Err(e) => !all_read(parsed_records(text@)) && e.kind == ErrorKind::Codec,
        },
{
    let ghost parsed = parsed_records(text@);
    let mut reader = open_reader(text);
    let header = match next_record(&mut reader) {
        None => {
            assert(views(Seq::<Value>::empty()) =~= Seq::<ValueView>::empty());
            return Ok(Vec::new());
        },
        Some(Err(e)) => {
            assert(parsed[0] is None);
            return Err(CsvError::codec(e));
        },
        Some(Ok(header)) => header,
    };
    let ghost names = texts(header@);
    let mut table: Vec<Value> = Vec::new();
    loop
        invariant
            parsed == parsed_records(text@),
            names == texts(header@),
            parsed.len() > 0,
            parsed[0] == Some(names),
            table@.len() + 1 <= parsed.len(),
            pending_records(reader) == parsed.skip(table@.len() as int + 1),
            forall|j: int| 0 <= j < table@.len() + 1 ==> (#[trigger] parsed[j]) is Some,
            forall|j: int|
                0 <= j < table@.len() ==> (#[trigger] table@[j])@ == ValueView::Record(
                    record_of_row(names, parsed[j + 1]->Some_0),
                ),
        ensures
            parsed.len() == table@.len() + 1,
        decreases parsed.len() - table@.len(),
    {
        match next_record(&mut reader) {
            None => {
                break ;
            },
            Some(Err(e)) => {
                assert(parsed[table@.len() as int + 1] is None);
                return Err(CsvError::codec(e));
            },
            Some(Ok(row)) => {
                let record = record_from_row(&header, &row);
                table.push(Value::Record(record));
            },
        }
    }
    proof {
        let records = read_records(parsed);
        assert(views(table@) =~= table_of_records(records));
    }
    Ok(table)
}

/// The text of the argument list of [`csv_parse`], if the list is one text.
pub open spec fn text_argument(args: Seq<ValueView>) -> Option<Seq<char>> {
    if args.len() == 1 {
        match args[0] {
            ValueView::Text(text) => Some(text),
            _ => None,
        }
    } else {
        None
    }
}

/// Reads a table from the one text argument: a list of records, as
/// [`decode`] gives them. Any other argument list is refused before the
/// codec sees it.
pub fn csv_parse(args: Vec<Value>) -> (res: Result<Value, CsvError>)
    ensures
        match text_argument(views(args@)) {
            None => res matches Err(e) && e.kind == ErrorKind::ArityOrType && e.message@
                == "csv_parse(string)"@,
            Some(text) => match res {
                Ok(value) => all_read(parsed_records(text)) && value@ == ValueView::List(
                    table_of_records(read_records(parsed_records(text))),
                ),
                Err(e) => !all_read(parsed_records(text)) && e.kind == ErrorKind::Codec,
            },
        },
{
    if args.len() != 1 {
        return Err(CsvError::new(ErrorKind::ArityOrType, "csv_parse(string)"));
    }
    match &args[0] {
        Value::Text(text) => {
            match decode(text.as_str()) {
                Ok(table) => {
                    let value = Value::List(table);
                    assert(value@->List_0 =~= views(table@));
                    Ok(value)
                },
                Err(e) => Err(e),
            }
        },
        _ => Err(CsvError::new(ErrorKind::ArityOrType, "csv_parse(string)")),
    }
}

} // verus!
