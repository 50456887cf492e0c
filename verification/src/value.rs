//! Values, records, and their mathematical views.

use vstd::prelude::*;

verus! {

/// What a record holds, as mathematics: its entries in insertion order, each a
/// field name with the view of its value.
pub type Entries = Seq<(Seq<char>, ValueView)>;

/// The mathematical view of a [`Value`].
pub enum ValueView {
    Null,
    Boolean(bool),
    Integer(int),
    Float(Seq<char>),
    Text(Seq<char>),
    List(Seq<ValueView>),
    Record(Entries),
    Other(Seq<char>),
}

/// A dynamically typed value: a scalar, a list of values, or a record.
#[derive(Debug, PartialEq, Eq)]
pub enum Value {
    Null,
    Boolean(bool),
    Integer(i64),
    /// A floating-point number, held as the decimal text that stands for it.
    Float(String),
    Text(String),
    List(Vec<Value>),
    Record(Record),
    /// A value of any other kind, held as the generic text that stands for
    /// it.
    Other(String),
}

/// An insertion-ordered mapping from field names to values. No name occurs
/// twice.
#[derive(Debug, PartialEq, Eq)]
pub struct Record {
    entries: Vec<(String, Value)>,
}

/// No two entries share a field name.
pub open spec fn distinct_keys(entries: Entries) -> bool {
    forall|i: int, j: int|
        0 <= i < j < entries.len() ==> (#[trigger] entries[i]).0 != (#[trigger] entries[j]).0
}

/// The views of a sequence of values.
pub open spec fn views(items: Seq<Value>) -> Seq<ValueView> {
    items.map_values(|v: Value| v@)
}

/// Whether `key` names an entry.
pub open spec fn has_key(entries: Entries, key: Seq<char>) -> bool {
    exists|i: int| 0 <= i < entries.len() && (#[trigger] entries[i]).0 == key
}

/// The position of the entry that `key` names, where there is one.
pub open spec fn key_index(entries: Entries, key: Seq<char>) -> int {
    choose|i: int| 0 <= i < entries.len() && (#[trigger] entries[i]).0 == key
}

/// The value under `key`, if `key` names an entry.
pub open spec fn lookup(entries: Entries, key: Seq<char>) -> Option<ValueView> {
    if has_key(entries, key) {
        Some(entries[key_index(entries, key)].1)
    } else {
        None
    }
}

/// The entries after `value` is stored under `key`: a name already present
/// keeps its place and takes the new value, a new name goes to the end.
pub open spec fn insert_entry(entries: Entries, key: Seq<char>, value: ValueView) -> Entries {
    if has_key(entries, key) {
        entries.update(key_index(entries, key), (key, value))
    } else {
        entries.push((key, value))
    }
}

/// The field names, in insertion order.
pub open spec fn keys_of(entries: Entries) -> Seq<Seq<char>> {
    entries.map_values(|e: (Seq<char>, ValueView)| e.0)
}

impl View for Value {
    type V = ValueView;

    open spec fn view(&self) -> ValueView
        decreases self,
    {
        match self {
            Value::Null => ValueView::Null,
            Value::Boolean(b) => ValueView::Boolean(*b),
            Value::Integer(i) => ValueView::Integer(*i as int),
            Value::Float(t) => ValueView::Float(t@),
            Value::Text(t) => ValueView::Text(t@),
            Value::List(items) => ValueView::List(
                Seq::new(
                    items.len() as nat,
                    |i: int|
                        if 0 <= i < items.len() {
                            items[i].view()
                        } else {
                            ValueView::Null
                        },
                ),
            ),
            Value::Record(r) => ValueView::Record(r.view()),
            Value::Other(t) => ValueView::Other(t@),
        }
    }
}

impl View for Record {
    type V = Entries;

    closed spec fn view(&self) -> Entries
        decreases self,
    {
        Seq::new(
            self.entries.len() as nat,
            |i: int|
                if 0 <= i < self.entries.len() {
                    (self.entries[i].0@, self.entries[i].1.view())
                } else {
                    (Seq::empty(), ValueView::Null)
                },
        )
    }
}

impl Record {
    #[verifier::type_invariant]
    spec fn well_formed(self) -> bool {
        forall|i: int, j: int|
            0 <= i < j < self.entries.len() ==> (#[trigger] self.entries[i]).0@
                != (#[trigger] self.entries[j]).0@
    }

    /// The record without entries.
    pub fn new() -> (r: Record)
        ensures
            r@ == Seq::<(Seq<char>, ValueView)>::empty(),
    {
        Record { entries: Vec::new() }
    }

    /// The number of entries.
    pub fn len(&self) -> (n: usize)
        ensures
            n == self@.len(),
    {
        self.entries.len()
    }

    /// The field name of the entry at `index`.
    pub fn key_at(&self, index: usize) -> (key: &String)
        requires
            index < self@.len(),
        ensures
            key@ == self@[index as int].0,
    {
        &self.entries[index].0
    }

    /// The value of the entry at `index`.
    pub fn value_at(&self, index: usize) -> (value: &Value)
        requires
            index < self@.len(),
        ensures
            value@ == self@[index as int].1,
            decreases_to!(self => value),
    {
        &self.entries[index].1
    }

    /// Where `key` stands among the entries, if it names one.
    fn position(&self, key: &String) -> (res: Option<usize>)
        ensures
            distinct_keys(self@),
            match res {
                Some(i) => has_key(self@, key@) && i == key_index(self@, key@) && i < self@.len(),
                None => !has_key(self@, key@),
            },
    {
        proof {
            use_type_invariant(self);
        }
        let mut i: usize = 0;
        while i < self.entries.len()
            invariant
                i <= self.entries.len(),
                distinct_keys(self@),
                forall|j: int| 0 <= j < i ==> (#[trigger] self@[j]).0 != key@,
            decreases self.entries.len() - i,
        {
            if self.entries[i].0 == *key {
                assert(self@[i as int].0 == key@);
                return Some(i);
            }
            i += 1;
        }
        None
    }

    /// Stores `value` under `key`. A name already present keeps its place and
    /// takes the new value; a new name goes to the end.
    pub fn insert(&mut self, key: String, value: Value)
        ensures
            final(self)@ == insert_entry(old(self)@, key@, value@),
            distinct_keys(old(self)@),
            distinct_keys(final(self)@),
    {
        let found = self.position(&key);
        let ghost before = self@;
        let ghost stored = (key@, value@);
        // The entries change outside the record, which stays well formed
        // meanwhile, and come back when they are well formed again.
        let mut entries: Vec<(String, Value)> = Vec::new();
        core::mem::swap(&mut self.entries, &mut entries);
        assert(forall|j: int|
            0 <= j < entries.len() ==> (#[trigger] entries[j]).0@ == before[j].0
                && entries[j].1@ == before[j].1);
        match found {
            Some(i) => {
                entries.set(i, (key, value));
            },
            None => {
                entries.push((key, value));
            },
        }
        let ghost after = insert_entry(before, stored.0, stored.1);
        assert(after.len() == entries.len());
        assert(forall|j: int|
            0 <= j < entries.len() ==> (#[trigger] entries[j]).0@ == after[j].0 && entries[j].1@
                == after[j].1);
        assert(distinct_keys(after));
        self.entries = entries;
        assert(self@ =~= after);
    }

    /// The value under `key`, if `key` names an entry.
    pub fn get(&self, key: &String) -> (res: Option<&Value>)
        ensures
            match res {
                Some(v) => lookup(self@, key@) == Some(v@),
                None => lookup(self@, key@) is None,
            },
    {
        match self.position(key) {
            Some(i) => Some(&self.entries[i].1),
            None => None,
        }
    }

    /// The field names, in insertion order.
    pub fn keys(&self) -> (names: Vec<String>)
        ensures
            crate::text::texts(names@) == keys_of(self@),
            distinct_keys(self@),
    {
        proof {
            use_type_invariant(self);
        }
        let mut names: Vec<String> = Vec::new();
        let mut i: usize = 0;
        while i < self.entries.len()
            invariant
                i <= self.entries.len(),
                names@.len() == i,
                forall|j: int| 0 <= j < i ==> (#[trigger] names@[j])@ == self@[j].0,
            decreases self.entries.len() - i,
        {
            names.push(self.entries[i].0.clone());
            i += 1;
        }
        assert(crate::text::texts(names@) =~= keys_of(self@));
        names
    }
}

impl Clone for Value {
    /// A copy with the same view.
    fn clone(&self) -> (copy: Value)
        ensures
            copy@ == self@,
        decreases self,
    {
        match self {
            Value::Null => Value::Null,
            Value::Boolean(b) => Value::Boolean(*b),
            Value::Integer(i) => Value::Integer(*i),
            Value::Float(t) => Value::Float(t.clone()),
            Value::Text(t) => Value::Text(t.clone()),
            Value::List(items) => {
                let mut copies: Vec<Value> = Vec::new();
                let mut i: usize = 0;
                while i < items.len()
                    invariant
                        i <= items.len(),
                        decreases_to!(self => items),
                        copies@.len() == i,
                        forall|j: int| 0 <= j < i ==> (#[trigger] copies@[j])@ == items@[j]@,
                    decreases items.len() - i,
                {
                    copies.push(items[i].clone());
                    i += 1;
                }
                let copy = Value::List(copies);
                assert(copy@->List_0 =~= self@->List_0);
                copy
            },
            Value::Record(r) => Value::Record(r.clone()),
            Value::Other(t) => Value::Other(t.clone()),
        }
    }
}

impl Clone for Record {
    /// A copy with the same view.
    fn clone(&self) -> (copy: Record)
        ensures
            copy@ == self@,
        decreases self,
    {
        proof {
            use_type_invariant(self);
        }
        let mut entries: Vec<(String, Value)> = Vec::new();
        let mut i: usize = 0;
        while i < self.entries.len()
            invariant
                i <= self.entries.len(),
                entries@.len() == i,
                forall|j: int|
                    0 <= j < i ==> (#[trigger] entries@[j]).0@ == self.entries@[j].0@
                        && entries@[j].1@ == self.entries@[j].1@,
            decreases self.entries.len() - i,
        {
            let key = self.entries[i].0.clone();
            let value = self.entries[i].1.clone();
            entries.push((key, value));
            i += 1;
        }
        assert forall|a: int, b: int| 0 <= a < b < entries.len() implies (#[trigger] entries[a]).0@
            != (#[trigger] entries[b]).0@ by {
            assert(self.entries[a].0@ != self.entries[b].0@);
        }
        let copy = Record { entries };
        assert(copy@ =~= self@);
        copy
    }
}

} // verus!
