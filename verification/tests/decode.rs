use csv_table::{csv_parse, decode, record_from_row, ErrorKind, Record, Value};

fn text(s: &str) -> Value {
    Value::Text(s.to_string())
}

fn record(entries: &[(&str, &str)]) -> Record {
    let mut r = Record::new();
    for (k, v) in entries {
        r.insert(k.to_string(), text(v));
    }
    r
}

fn strings(items: &[&str]) -> Vec<String> {
    items.iter().map(|s| s.to_string()).collect()
}

#[test]
fn full_row_gives_every_field() {
    let table = decode("a,b,c\n1,2,3\n").unwrap();
    assert_eq!(table, vec![Value::Record(record(&[("a", "1"), ("b", "2"), ("c", "3")]))]);
}

#[test]
fn short_row_leaves_trailing_names_absent() {
    let table = decode("a,b,c\n1,2\n").unwrap();
    assert_eq!(table.len(), 1);
    match &table[0] {
        Value::Record(r) => {
            assert_eq!(r.len(), 2);
            assert_eq!(r.get(&"a".to_string()), Some(&text("1")));
            assert_eq!(r.get(&"b".to_string()), Some(&text("2")));
            assert_eq!(r.get(&"c".to_string()), None);
            assert_eq!(r.keys(), strings(&["a", "b"]));
        }
        other => panic!("expected a record, got {:?}", other),
    }
}

#[test]
fn long_row_drops_surplus_fields() {
    let table = decode("a,b\n1,2,3\n").unwrap();
    assert_eq!(table, vec![Value::Record(record(&[("a", "1"), ("b", "2")]))]);
}

#[test]
fn repeated_name_keeps_the_later_field() {
    let table = decode("a,b,a\n1,2,3\n").unwrap();
    assert_eq!(table.len(), 1);
    match &table[0] {
        Value::Record(r) => {
            assert_eq!(r.len(), 2);
            assert_eq!(r.keys(), strings(&["a", "b"]));
            assert_eq!(r.get(&"a".to_string()), Some(&text("3")));
            assert_eq!(r.get(&"b".to_string()), Some(&text("2")));
        }
        other => panic!("expected a record, got {:?}", other),
    }
}

#[test]
fn repeated_name_beyond_a_short_row_keeps_the_earlier_field() {
    let table = decode("a,b,a\n1,2\n").unwrap();
    assert_eq!(table, vec![Value::Record(record(&[("a", "1"), ("b", "2")]))]);
}

#[test]
fn empty_text_gives_the_empty_table() {
    assert_eq!(decode("").unwrap(), Vec::<Value>::new());
}

#[test]
fn header_alone_gives_the_empty_table() {
    assert_eq!(decode("a,b,c\n").unwrap(), Vec::<Value>::new());
}

#[test]
fn rows_come_in_order() {
    let table = decode("n\none\ntwo\nthree\n").unwrap();
    assert_eq!(
        table,
        vec![
            Value::Record(record(&[("n", "one")])),
            Value::Record(record(&[("n", "two")])),
            Value::Record(record(&[("n", "three")])),
        ]
    );
}

#[test]
fn fields_stay_text() {
    let table = decode("i,f,b,n\n007,1.50,true,\n").unwrap();
    assert_eq!(
        table,
        vec![Value::Record(record(&[("i", "007"), ("f", "1.50"), ("b", "true"), ("n", "")]))]
    );
}

#[test]
fn quoted_fields_are_unquoted() {
    let table = decode("a,b\n\"x,y\",\"say \"\"hi\"\"\"\n").unwrap();
    assert_eq!(table, vec![Value::Record(record(&[("a", "x,y"), ("b", "say \"hi\"")]))]);
}

#[test]
fn quoted_field_may_span_lines() {
    let table = decode("a,b\n\"one\ntwo\",3\n").unwrap();
    assert_eq!(table, vec![Value::Record(record(&[("a", "one\ntwo"), ("b", "3")]))]);
}

#[test]
fn last_line_needs_no_terminator() {
    let table = decode("a,b\n1,2").unwrap();
    assert_eq!(table, vec![Value::Record(record(&[("a", "1"), ("b", "2")]))]);
}

#[test]
fn rows_of_different_lengths_mix() {
    let table = decode("a,b\n1\n1,2\n1,2,3\n").unwrap();
    assert_eq!(
        table,
        vec![
            Value::Record(record(&[("a", "1")])),
            Value::Record(record(&[("a", "1"), ("b", "2")])),
            Value::Record(record(&[("a", "1"), ("b", "2")])),
        ]
    );
}

#[test]
fn record_from_row_pairs_by_position() {
    let r = record_from_row(&strings(&["x", "y", "z"]), &strings(&["1", "2", "3"]));
    assert_eq!(r, record(&[("x", "1"), ("y", "2"), ("z", "3")]));
}

#[test]
fn record_from_row_stops_at_the_shorter() {
    let short = record_from_row(&strings(&["x", "y", "z"]), &strings(&["1"]));
    assert_eq!(short, record(&[("x", "1")]));
    let long = record_from_row(&strings(&["x"]), &strings(&["1", "2", "3"]));
    assert_eq!(long, record(&[("x", "1")]));
    let none = record_from_row(&strings(&[]), &strings(&["1", "2"]));
    assert_eq!(none, Record::new());
}

#[test]
fn record_from_row_overwrites_in_place() {
    let r = record_from_row(&strings(&["k", "m", "k"]), &strings(&["first", "mid", "last"]));
    assert_eq!(r.keys(), strings(&["k", "m"]));
    assert_eq!(r.get(&"k".to_string()), Some(&text("last")));
}

#[test]
fn csv_parse_wraps_the_table_in_a_list() {
    let out = csv_parse(vec![text("a,b\n1,2\n")]).unwrap();
    assert_eq!(out, Value::List(vec![Value::Record(record(&[("a", "1"), ("b", "2")]))]));
}

#[test]
fn csv_parse_refuses_no_argument() {
    let e = csv_parse(vec![]).unwrap_err();
    assert_eq!(e.kind, ErrorKind::ArityOrType);
    assert_eq!(e.message, "csv_parse(string)");
}

#[test]
fn csv_parse_refuses_two_arguments() {
    let e = csv_parse(vec![text("a\n1\n"), text("b\n2\n")]).unwrap_err();
    assert_eq!(e.kind, ErrorKind::ArityOrType);
    assert_eq!(e.message, "csv_parse(string)");
}

#[test]
fn csv_parse_refuses_an_argument_that_is_no_text() {
    for arg in [
        Value::Null,
        Value::Integer(3),
        Value::Boolean(true),
        Value::List(vec![]),
        Value::Float("1.5".to_string()),
        Value::Other("a\n1\n".to_string()),
    ] {
        let e = csv_parse(vec![arg]).unwrap_err();
        assert_eq!(e.kind, ErrorKind::ArityOrType);
        assert_eq!(e.message, "csv_parse(string)");
    }
}
