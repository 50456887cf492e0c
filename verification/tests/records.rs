use csv_table::{CsvError, ErrorKind, Record, Value};

fn text(s: &str) -> Value {
    Value::Text(s.to_string())
}

#[test]
fn new_record_is_empty() {
    let r = Record::new();
    assert_eq!(r.len(), 0);
    assert_eq!(r.keys(), Vec::<String>::new());
    assert_eq!(r.get(&"a".to_string()), None);
}

#[test]
fn insert_appends_new_names_in_order() {
    let mut r = Record::new();
    r.insert("b".to_string(), text("1"));
    r.insert("a".to_string(), text("2"));
    r.insert("c".to_string(), text("3"));
    assert_eq!(r.len(), 3);
    assert_eq!(r.keys(), vec!["b".to_string(), "a".to_string(), "c".to_string()]);
    assert_eq!(r.key_at(1), "a");
    assert_eq!(r.value_at(1), &text("2"));
}

#[test]
fn insert_overwrites_in_place() {
    let mut r = Record::new();
    r.insert("a".to_string(), text("1"));
    r.insert("b".to_string(), text("2"));
    r.insert("a".to_string(), Value::Integer(3));
    assert_eq!(r.len(), 2);
    assert_eq!(r.keys(), vec!["a".to_string(), "b".to_string()]);
    assert_eq!(r.get(&"a".to_string()), Some(&Value::Integer(3)));
    assert_eq!(r.get(&"b".to_string()), Some(&text("2")));
}

#[test]
fn names_differ_by_case_and_space() {
    let mut r = Record::new();
    r.insert("a".to_string(), text("1"));
    r.insert("A".to_string(), text("2"));
    r.insert(" a".to_string(), text("3"));
    r.insert("".to_string(), text("4"));
    assert_eq!(r.len(), 4);
    assert_eq!(r.get(&"".to_string()), Some(&text("4")));
}

#[test]
fn error_holds_kind_and_message() {
    let e = CsvError::new(ErrorKind::Shape, "expected a Record");
    assert_eq!(e.kind, ErrorKind::Shape);
    assert_eq!(e.message, "expected a Record");
    assert_ne!(ErrorKind::Codec, ErrorKind::Encoding);
}

#[test]
fn clone_copies_every_level() {
    let mut inner = Record::new();
    inner.insert("k".to_string(), Value::List(vec![Value::Integer(1), Value::Null]));
    let value = Value::List(vec![
        Value::Record(inner),
        text("t"),
        Value::Float("2.5".to_string()),
        Value::Boolean(false),
        Value::Other("<function>".to_string()),
    ]);
    let copy = value.clone();
    assert_eq!(copy, value);
}

#[test]
fn clone_of_a_record_keeps_the_order() {
    let mut r = Record::new();
    r.insert("z".to_string(), text("1"));
    r.insert("a".to_string(), text("2"));
    let copy = r.clone();
    assert_eq!(copy.keys(), vec!["z".to_string(), "a".to_string()]);
    assert_eq!(copy, r);
}
