//! What holds of records, of decoding and of encoding, whatever the input.

use crate::decode::{paired, record_of_row, shared_len, table_of_records, table_of_rows};
use crate::encode::{field_of, header_of, lines_of, row_of, rows_of};
use crate::value::{distinct_keys, has_key, insert_entry, key_index, keys_of, lookup, Entries, ValueView};
use vstd::prelude::*;

verus! {

/// Every value of the entries is text.
pub open spec fn all_text(entries: Entries) -> bool {
    forall|i: int| 0 <= i < entries.len() ==> (#[trigger] entries[i]).1 is Text
}

/// Every item is a record, and all have the field names of the first, in
/// the same order.
pub open spec fn uniform(items: Seq<ValueView>) -> bool {
    forall|i: int|
        0 <= i < items.len() ==> (#[trigger] items[i]) is Record && keys_of(items[i]->Record_0)
            == keys_of(items[0]->Record_0)
}

/// Whether `name` stands in the header at a position below `n`.
pub open spec fn named_below(header: Seq<Seq<char>>, name: Seq<char>, n: nat) -> bool {
    exists|j: int| 0 <= j < n && #[trigger] header[j] == name
}

/// In entries without a repeated name, a name is found where it stands.
pub proof fn lemma_key_index(entries: Entries, i: int)
    requires
        distinct_keys(entries),
        0 <= i < entries.len(),
    ensures
        has_key(entries, entries[i].0),
        key_index(entries, entries[i].0) == i,
        lookup(entries, entries[i].0) == Some(entries[i].1),
{
    let key = entries[i].0;
    assert(has_key(entries, key));
    let found = key_index(entries, key);
    assert(0 <= found < entries.len() && entries[found].0 == key);
    if found < i {
        assert(entries[found].0 != entries[i].0);
    } else if i < found {
        assert(entries[i].0 != entries[found].0);
    }
}

/// Storing a value under a name behaves as a mapping does: afterwards the
/// name holds the value, every other name holds what it held, and still no
/// name occurs twice.
pub proof fn lemma_insert_entry(entries: Entries, key: Seq<char>, value: ValueView)
    requires
        distinct_keys(entries),
    ensures
        distinct_keys(insert_entry(entries, key, value)),
        lookup(insert_entry(entries, key, value), key) == Some(value),
        forall|other: Seq<char>|
            other != key ==> #[trigger] lookup(insert_entry(entries, key, value), other) == lookup(
                entries,
                other,
            ),
        keys_of(insert_entry(entries, key, value)) == if has_key(entries, key) {
            keys_of(entries)
        } else {
            keys_of(entries).push(key)
        },
{
    let after = insert_entry(entries, key, value);
    let at = if has_key(entries, key) {
        key_index(entries, key)
    } else {
        entries.len() as int
    };
    assert(0 <= at < after.len() && after[at] == (key, value));
    assert forall|i: int, j: int| 0 <= i < j < after.len() implies (#[trigger] after[i]).0 != (
    #[trigger] after[j]).0 by {
        if i != at && j != at {
            assert(entries[i].0 != entries[j].0);
        } else if has_key(entries, key) {
            assert(entries[i].0 != entries[j].0);
        } else if j == at {
            assert(entries[i].0 != key);
        }
    }
    lemma_key_index(after, at);
    assert forall|other: Seq<char>| other != key implies #[trigger] lookup(after, other) == lookup(
        entries,
        other,
    ) by {
        if has_key(entries, other) {
            let i = key_index(entries, other);
            assert(after[i] == entries[i]);
            lemma_key_index(after, i);
            lemma_key_index(entries, i);
        } else if has_key(after, other) {
            let i = key_index(after, other);
            assert(i != at);
            assert(entries[i].0 == other);
        }
    }
    if has_key(entries, key) {
        assert(keys_of(after) =~= keys_of(entries));
    } else {
        assert(keys_of(after) =~= keys_of(entries).push(key));
    }
}

/// Whether a name is a key depends on the field names alone.
pub proof fn lemma_has_key_by_keys(entries: Entries, key: Seq<char>)
    ensures
        has_key(entries, key) <==> keys_of(entries).contains(key),
{
    if has_key(entries, key) {
        let i = key_index(entries, key);
        assert(keys_of(entries)[i] == key);
    }
    if keys_of(entries).contains(key) {
        let i = choose|i: int| 0 <= i < keys_of(entries).len() && keys_of(entries)[i] == key;
        assert(entries[i].0 == key);
    }
}

/// What the first `n` positions of a row make under a header: no name occurs
/// twice, every value is text, and the names are those that the header
/// holds below `n`.
pub proof fn lemma_paired(header: Seq<Seq<char>>, row: Seq<Seq<char>>, n: nat)
    requires
        n <= header.len(),
        n <= row.len(),
    ensures
        distinct_keys(paired(header, row, n)),
        all_text(paired(header, row, n)),
        forall|name: Seq<char>| #[trigger]
            has_key(paired(header, row, n), name) <==> named_below(header, name, n),
    decreases n,
{
    let now = paired(header, row, n);
    if n == 0 {
        assert forall|name: Seq<char>| #[trigger]
            has_key(now, name) <==> named_below(header, name, n) by {}
    } else {
        let before = paired(header, row, (n - 1) as nat);
        let key = header[n - 1];
        let value = ValueView::Text(row[n - 1]);
        lemma_paired(header, row, (n - 1) as nat);
        lemma_insert_entry(before, key, value);
        assert forall|i: int| 0 <= i < now.len() implies (#[trigger] now[i]).1 is Text by {
            if has_key(before, key) && i != key_index(before, key) {
                assert(before[i].1 is Text);
            } else if !has_key(before, key) && i < before.len() {
                assert(before[i].1 is Text);
            }
        }
        assert forall|name: Seq<char>| #[trigger]
            has_key(now, name) <==> named_below(header, name, n) by {
            assert(has_key(before, name) <==> named_below(header, name, (n - 1) as nat));
            assert(now == insert_entry(before, key, value));
            if name == key {
                assert(lookup(now, name) is Some);
                assert(0 <= n - 1 < n && header[n - 1] == name);
            } else {
                assert(lookup(now, name) == lookup(before, name));
                if named_below(header, name, n) {
                    let j = choose|j: int| 0 <= j < n && #[trigger] header[j] == name;
                    assert(0 <= j < n - 1 && header[j] == name);
                }
                if named_below(header, name, (n - 1) as nat) {
                    let j = choose|j: int| 0 <= j < n - 1 && #[trigger] header[j] == name;
                    assert(0 <= j < n && header[j] == name);
                }
            }
        }
    }
}

/// Under a repeated name the later field stays: the value under the name at
/// position `j` is the text of the row's field there, if the header does not
/// hold the name again between `j` and `n`.
pub proof fn lemma_paired_last_wins(header: Seq<Seq<char>>, row: Seq<Seq<char>>, n: nat, j: int)
    requires
        n <= header.len(),
        n <= row.len(),
        0 <= j < n,
        forall|later: int| j < later < n ==> #[trigger] header[later] != header[j],
    ensures
        lookup(paired(header, row, n), header[j]) == Some(ValueView::Text(row[j])),
    decreases n,
{
    let before = paired(header, row, (n - 1) as nat);
    lemma_paired(header, row, (n - 1) as nat);
    lemma_insert_entry(before, header[n - 1], ValueView::Text(row[n - 1]));
    if j < n - 1 {
        lemma_paired_last_wins(header, row, (n - 1) as nat, j);
        assert(header[n - 1] != header[j]);
    }
}

/// What decoding makes of one row. The record's names are those that the
/// header holds at positions that the row reaches, none twice; every value
/// is text; and each name holds the row's field at the last such position
/// that bears it.
pub proof fn lemma_record_of_row(header: Seq<Seq<char>>, row: Seq<Seq<char>>)
    ensures
        distinct_keys(record_of_row(header, row)),
        all_text(record_of_row(header, row)),
        forall|name: Seq<char>| #[trigger]
            has_key(record_of_row(header, row), name) <==> named_below(
                header,
                name,
                shared_len(header, row),
            ),
        forall|j: int|
            0 <= j < shared_len(header, row) && (forall|later: int|
                j < later < shared_len(header, row) ==> #[trigger] header[later] != header[j])
                ==> lookup(record_of_row(header, row), #[trigger] header[j]) == Some(
                ValueView::Text(row[j]),
            ),
{
    let n = shared_len(header, row);
    lemma_paired(header, row, n);
    assert forall|j: int|
        0 <= j < n && (forall|later: int| j < later < n ==> #[trigger] header[later] != header[j])
        implies lookup(record_of_row(header, row), #[trigger] header[j]) == Some(
        ValueView::Text(row[j]),
    ) by {
        lemma_paired_last_wins(header, row, n, j);
    }
}

/// The field names of a row's record depend on the header alone, once the
/// row reaches every position of the header.
pub proof fn lemma_paired_keys(
    header: Seq<Seq<char>>,
    row: Seq<Seq<char>>,
    other: Seq<Seq<char>>,
    n: nat,
)
    requires
        n <= header.len(),
        n <= row.len(),
        n <= other.len(),
    ensures
        keys_of(paired(header, row, n)) == keys_of(paired(header, other, n)),
    decreases n,
{
    if n > 0 {
        let m = (n - 1) as nat;
        lemma_paired_keys(header, row, other, m);
        lemma_paired(header, row, m);
        lemma_paired(header, other, m);
        lemma_insert_entry(paired(header, row, m), header[n - 1], ValueView::Text(row[n - 1]));
        lemma_insert_entry(paired(header, other, m), header[n - 1], ValueView::Text(other[n - 1]));
        lemma_has_key_by_keys(paired(header, row, m), header[n - 1]);
        lemma_has_key_by_keys(paired(header, other, m), header[n - 1]);
    }
}

/// A table whose rows all reach every position of the header is uniform.
pub proof fn lemma_full_rows_uniform(header: Seq<Seq<char>>, rows: Seq<Seq<Seq<char>>>)
    requires
        forall|i: int| 0 <= i < rows.len() ==> header.len() <= (#[trigger] rows[i]).len(),
    ensures
        uniform(table_of_rows(header, rows)),
{
    let table = table_of_rows(header, rows);
    assert forall|i: int| 0 <= i < table.len() implies (#[trigger] table[i]) is Record && keys_of(
        table[i]->Record_0,
    ) == keys_of(table[0]->Record_0) by {
        lemma_paired_keys(header, rows[i], rows[0], header.len());
    }
}

/// Under a header, a table of records gives one row for each record.
pub proof fn lemma_rows_of_records(header: Seq<Seq<char>>, items: Seq<ValueView>)
    requires
        forall|i: int| 0 <= i < items.len() ==> (#[trigger] items[i]) is Record,
    ensures
        rows_of(header, items).len() == items.len(),
        forall|i: int|
            0 <= i < items.len() ==> #[trigger] rows_of(header, items)[i] == row_of(
                header,
                items[i]->Record_0,
            ),
    decreases items.len(),
{
    if items.len() > 0 {
        lemma_rows_of_records(header, items.drop_last());
        assert(items.last() is Record);
    }
}

/// Every row that encoding makes under a header has one field for each name
/// of the header, and there are no more rows than items.
pub proof fn lemma_rows_follow_header(header: Seq<Seq<char>>, items: Seq<ValueView>)
    ensures
        rows_of(header, items).len() <= items.len(),
        forall|i: int|
            0 <= i < rows_of(header, items).len() ==> (#[trigger] rows_of(header, items)[i]).len()
                == header.len(),
    decreases items.len(),
{
    if items.len() > 0 {
        lemma_rows_follow_header(header, items.drop_last());
    }
}

/// A record of texts is rebuilt from its own names and its own row, as far
/// as the first `n` entries go.
proof fn lemma_rebuilt_prefix(entries: Entries, n: nat)
    requires
        distinct_keys(entries),
        all_text(entries),
        n <= entries.len(),
    ensures
        paired(keys_of(entries), row_of(keys_of(entries), entries), n) == entries.take(n as int),
    decreases n,
{
    let names = keys_of(entries);
    let row = row_of(names, entries);
    if n == 0 {
        assert(entries.take(0) =~= Seq::<(Seq<char>, ValueView)>::empty());
    } else {
        lemma_rebuilt_prefix(entries, (n - 1) as nat);
        let before = entries.take(n - 1);
        let name = names[n - 1];
        assert(name == entries[n - 1].0);
        lemma_key_index(entries, n - 1);
        assert(entries[n - 1].1 is Text);
        assert(row[n - 1] == field_of(entries, name));
        assert(ValueView::Text(row[n - 1]) == entries[n - 1].1);
        if has_key(before, name) {
            let i = key_index(before, name);
            assert(before[i] == entries[i]);
            assert(entries[i].0 != entries[n - 1].0);
        }
        assert(insert_entry(before, name, entries[n - 1].1) =~= entries.take(n as int));
    }
}

/// Encoding a record of texts under its own names and decoding the row
/// again gives the record back.
pub proof fn lemma_rebuilt(entries: Entries)
    requires
        distinct_keys(entries),
        all_text(entries),
    ensures
        record_of_row(keys_of(entries), row_of(keys_of(entries), entries)) == entries,
{
    lemma_rebuilt_prefix(entries, entries.len());
    assert(entries.take(entries.len() as int) =~= entries);
}

/// Decoding is stable under encoding, the codec set aside: where the records
/// of a text decode to a uniform table, the records that encoding hands to
/// the codec for that table decode to the same table.
pub proof fn lemma_decode_encode_decode(records: Seq<Seq<Seq<char>>>)
    requires
        uniform(table_of_records(records)),
    ensures
        table_of_records(lines_of(table_of_records(records))) == table_of_records(records),
{
    let table = table_of_records(records);
    if table.len() > 0 {
        let header = header_of(table);
        let lines = lines_of(table);
        lemma_rows_of_records(header, table);
        let again = table_of_records(lines);
        assert(lines[0] == header);
        assert(lines.skip(1) =~= rows_of(header, table));
        assert(again.len() == table.len());
        assert forall|i: int| 0 <= i < table.len() implies again[i] == table[i] by {
            let entries = table[i]->Record_0;
            assert(table[i] == ValueView::Record(entries));
            assert(entries == record_of_row(records[0], records.skip(1)[i]));
            lemma_record_of_row(records[0], records.skip(1)[i]);
            assert(keys_of(entries) == header);
            lemma_rebuilt(entries);
            assert(lines.skip(1)[i] == row_of(header, entries));
        }
        assert(again =~= table);
    } else {
        assert(lines_of(table) =~= Seq::<Seq<Seq<char>>>::empty());
    }
}

/// Decoding is stable under encoding, the codec set aside, for every text
/// whose rows all reach every position of its header.
pub proof fn lemma_full_rows_stable(records: Seq<Seq<Seq<char>>>)
    requires
        forall|i: int| 1 <= i < records.len() ==> records[0].len() <= (#[trigger] records[i]).len(),
    ensures
        table_of_records(lines_of(table_of_records(records))) == table_of_records(records),
{
    if records.len() > 0 {
        let rows = records.skip(1);
        assert forall|i: int| 0 <= i < rows.len() implies records[0].len() <= (
        #[trigger] rows[i]).len() by {
            assert(rows[i] == records[i + 1]);
        }
        lemma_full_rows_uniform(records[0], rows);
    } else {
        assert(uniform(table_of_records(records)));
    }
    lemma_decode_encode_decode(records);
}

} // verus!
