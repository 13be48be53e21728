//! The value model: what a cell, a constant, a field of a record can hold.
//!
//! A closed sum over null, booleans, numbers, text, arrays and objects. A number
//! that is a 64-bit signed integer is held as one; any other number is held by
//! its decimal text, which is all the rules ever read of it. An object keeps its
//! entries in insertion order and is read by key; the first entry under a key
//! is the one that counts.

use vstd::prelude::*;
use crate::number::{decimal, i64_to_string};
use crate::text::{is_blank, is_blank_str, str_eq};
use crate::assoc::{lookup, index_of_key, with_entry, lemma_index_of_key};

verus! {

/// A value: null, a boolean, a number, text, an array or an object.
#[derive(Debug, PartialEq)]
pub enum Value {
    Null,
    Bool(bool),
    /// An integer number.
    Number(i64),
    /// A number that is no 64-bit signed integer, by its decimal text.
    Decimal(String),
    String(String),
    Array(Vec<Value>),
    Object(Vec<Entry>),
}

/// One entry of an object.
#[derive(Debug, PartialEq)]
pub struct Entry {
    pub key: String,
    pub value: Value,
}

/// The mathematical content of a [`Value`].
pub enum Json {
    Null,
    Bool(bool),
    Number(int),
    Decimal(Seq<char>),
    String(Seq<char>),
    Array(Seq<Json>),
    Object(Seq<(Seq<char>, Json)>),
}

/// The entries of an object, by their content.
pub type Entries = Seq<(Seq<char>, Json)>;

/// The content of a value.
pub open spec fn json_of(v: Value) -> Json
    decreases v,
{
    match v {
        Value::Null => Json::Null,
        Value::Bool(b) => Json::Bool(b),
        Value::Number(n) => Json::Number(n as int),
        Value::Decimal(t) => Json::Decimal(t@),
        Value::String(s) => Json::String(s@),
        Value::Array(items) => Json::Array(
            Seq::new(
                items@.len(),
                |i: int|
                    if 0 <= i < items@.len() {
                        json_of(items@[i])
                    } else {
                        Json::Null
                    },
            ),
        ),
        Value::Object(fields) => Json::Object(
            Seq::new(
                fields@.len(),
                |i: int|
                    if 0 <= i < fields@.len() {
                        (fields@[i].key@, json_of(fields@[i].value))
                    } else {
                        (Seq::empty(), Json::Null)
                    },
            ),
        ),
    }
}

impl View for Value {
    type V = Json;

    open spec fn view(&self) -> Json {
        json_of(*self)
    }
}

/// The content of a list of values.
pub open spec fn values_view(items: Seq<Value>) -> Seq<Json> {
    Seq::new(items.len(), |i: int| items[i]@)
}

/// The content of a list of object entries.
pub open spec fn entries_view(fields: Seq<Entry>) -> Entries {
    Seq::new(fields.len(), |i: int| (fields[i].key@, fields[i].value@))
}

/// "Empty": null, text that is blank once trimmed, an array or object without
/// entries. Booleans and numbers are never empty.
pub open spec fn json_is_empty(v: Json) -> bool {
    match v {
        Json::Null => true,
        Json::String(s) => is_blank(s),
        Json::Array(a) => a.len() == 0,
        Json::Object(o) => o.len() == 0,
        _ => false,
    }
}

/// The text of a boolean.
pub open spec fn bool_text(b: bool) -> Seq<char> {
    if b {
        seq!['t', 'r', 'u', 'e']
    } else {
        seq!['f', 'a', 'l', 's', 'e']
    }
}

/// The text of a scalar: text itself, a number in decimal, a boolean as `true`
/// or `false`. Null, arrays and objects have none.
pub open spec fn scalar_text(v: Json) -> Option<Seq<char>> {
    match v {
        Json::String(s) => Some(s),
        Json::Number(n) => Some(decimal(n)),
        Json::Decimal(t) => Some(t),
        Json::Bool(b) => Some(bool_text(b)),
        _ => None,
    }
}

/// The content of an array is the contents of its items.
pub proof fn lemma_view_array(items: Vec<Value>)
    ensures
        Value::Array(items)@ == Json::Array(values_view(items@)),
{
    assert(Value::Array(items)@->Array_0 =~= values_view(items@));
}

/// The content of an object is the contents of its entries.
pub proof fn lemma_view_object(fields: Vec<Entry>)
    ensures
        Value::Object(fields)@ == Json::Object(entries_view(fields@)),
{
    assert(Value::Object(fields)@->Object_0 =~= entries_view(fields@));
}

/// A deep copy.
pub fn clone_value(v: &Value) -> (r: Value)
    ensures
        r@ == v@,
    decreases v,
{
    match v {
        Value::Null => Value::Null,
        Value::Bool(b) => Value::Bool(*b),
        Value::Number(n) => Value::Number(*n),
        Value::Decimal(t) => Value::Decimal(t.clone()),
        Value::String(s) => Value::String(s.clone()),
        Value::Array(items) => {
            let mut out: Vec<Value> = Vec::new();
            let mut i: usize = 0;
            while i < items.len()
                invariant
                    i <= items.len(),
                    out@.len() == i,
                    decreases_to!(v => items),
                    forall|j: int| 0 <= j < i ==> out@[j]@ == items@[j]@,
                decreases items.len() - i,
            {
                proof {
                    assert(decreases_to!(*items => items[i as int]));
                }
                out.push(clone_value(&items[i]));
                i += 1;
            }
            proof {
                lemma_view_array(out);
                lemma_view_array(*items);
                assert(values_view(out@) =~= values_view(items@));
            }
            Value::Array(out)
        },
        Value::Object(fields) => {
            let mut out: Vec<Entry> = Vec::new();
            let mut i: usize = 0;
            while i < fields.len()
                invariant
                    i <= fields.len(),
                    out@.len() == i,
                    decreases_to!(v => fields),
                    forall|j: int|
                        0 <= j < i ==> out@[j].key@ == fields@[j].key@ && out@[j].value@
                            == fields@[j].value@,
                decreases fields.len() - i,
            {
                let entry = &fields[i];
                proof {
                    assert(decreases_to!(*fields => fields[i as int]));
                    assert(decreases_to!(*entry => entry.value));
                }
                out.push(Entry { key: entry.key.clone(), value: clone_value(&entry.value) });
                i += 1;
            }
            proof {
                lemma_view_object(out);
                lemma_view_object(*fields);
                assert(entries_view(out@) =~= entries_view(fields@));
            }
            Value::Object(out)
        },
    }
}

impl Clone for Value {
    fn clone(&self) -> (r: Self)
        ensures
            r@ == self@,
    {
        clone_value(self)
    }
}

impl Clone for Entry {
    fn clone(&self) -> (r: Self)
        ensures
            r.key@ == self.key@,
            r.value@ == self.value@,
    {
        Entry { key: self.key.clone(), value: clone_value(&self.value) }
    }
}

/// A copy of a list of object entries.
pub fn clone_entries(fields: &Vec<Entry>) -> (r: Vec<Entry>)
    ensures
        entries_view(r@) == entries_view(fields@),
{
    let mut out: Vec<Entry> = Vec::new();
    let mut i: usize = 0;
    while i < fields.len()
        invariant
            i <= fields.len(),
            out@.len() == i,
            forall|j: int|
                0 <= j < i ==> out@[j].key@ == fields@[j].key@ && out@[j].value@ == fields@[j].value@,
        decreases fields.len() - i,
    {
        out.push(fields[i].clone());
        i += 1;
    }
    assert(entries_view(out@) =~= entries_view(fields@));
    out
}

/// Position of the first entry under `key`.
pub fn find_key(fields: &Vec<Entry>, key: &str) -> (r: usize)
    ensures
        r == index_of_key(entries_view(fields@), key@),
        r <= fields.len(),
{
    let ghost es = entries_view(fields@);
    let mut i: usize = 0;
    while i < fields.len()
        invariant
            i <= fields.len(),
            es == entries_view(fields@),
            forall|j: int| 0 <= j < i ==> (#[trigger] es[j]).0 != key@,
        decreases fields.len() - i,
    {
        if str_eq(fields[i].key.as_str(), key) {
            proof {
                lemma_index_of_key(es, key@);
                let k = index_of_key(es, key@);
                assert(es[i as int].0 == key@);
                if k > i {
                    assert(es[i as int].0 != key@);
                }
                if k < i {
                    assert(es[k].0 != key@);
                }
            }
            return i;
        }
        i += 1;
    }
    proof {
        lemma_index_of_key(es, key@);
        let k = index_of_key(es, key@);
        if k < es.len() {
            assert(es[k].0 != key@);
        }
    }
    i
}

/// The value of the first entry under `key`.
pub fn get_entry<'a>(fields: &'a Vec<Entry>, key: &str) -> (r: Option<&'a Value>)
    ensures
        match r {
            Some(v) => lookup(entries_view(fields@), key@) == Some(v@),
            None => lookup(entries_view(fields@), key@).is_none(),
        },
{
    let i = find_key(fields, key);
    proof {
        lemma_index_of_key(entries_view(fields@), key@);
    }
    if i < fields.len() {
        Some(&fields[i].value)
    } else {
        None
    }
}

/// Puts `value` under `key`: over the first entry under that key, or at the end.
pub fn set_entry(fields: &mut Vec<Entry>, key: String, value: Value)
    ensures
        entries_view(final(fields)@) == with_entry(entries_view(old(fields)@), key@, value@),
{
    let i = find_key(fields, key.as_str());
    let ghost before = entries_view(fields@);
    if i < fields.len() {
        fields[i] = Entry { key, value };
        assert(entries_view(fields@) =~= before.update(i as int, (key@, value@)));
    } else {
        fields.push(Entry { key, value });
        assert(entries_view(fields@) =~= before.push((key@, value@)));
    }
}

impl Value {
    /// Whether the value counts as empty.
    pub fn is_empty(&self) -> (r: bool)
        ensures
            r == json_is_empty(self@),
    {
        match self {
            Value::Null => true,
            Value::String(s) => is_blank_str(s.as_str()),
            Value::Array(a) => {
                proof {
                    lemma_view_array(*a);
                }
                a.len() == 0
            },
            Value::Object(o) => {
                proof {
                    lemma_view_object(*o);
                }
                o.len() == 0
            },
            _ => false,
        }
    }

    /// The text of a scalar value.
    pub fn scalar_string(&self) -> (r: Option<String>)
        ensures
            match r {
                Some(s) => scalar_text(self@) == Some(s@),
                None => scalar_text(self@).is_none(),
            },
    {
        match self {
            Value::String(s) => Some(s.clone()),
            Value::Number(n) => Some(i64_to_string(*n)),
            Value::Decimal(t) => Some(t.clone()),
            Value::Bool(b) => {
                if *b {
                    let s = "true".to_string();
                    proof {
                        reveal_strlit("true");
                        assert(s@ =~= bool_text(true));
                    }
                    Some(s)
                } else {
                    let s = "false".to_string();
                    proof {
                        reveal_strlit("false");
                        assert(s@ =~= bool_text(false));
                    }
                    Some(s)
                }
            },
            _ => None,
        }
    }

    /// The text, where the value is text.
    pub fn as_str(&self) -> (r: Option<&str>)
        ensures
            match r {
                Some(s) => self@ == Json::String(s@),
                None => !(self@ is String),
            },
    {
        match self {
            Value::String(s) => Some(s.as_str()),
            _ => None,
        }
    }

    /// The integer, where the value is an integer number.
    pub fn as_i64(&self) -> (r: Option<i64>)
        ensures
            match r {
                Some(n) => self@ == Json::Number(n as int),
                None => !(self@ is Number),
            },
    {
        match self {
            Value::Number(n) => Some(*n),
            _ => None,
        }
    }

    /// The boolean, where the value is one.
    pub fn as_bool(&self) -> (r: Option<bool>)
        ensures
            match r {
                Some(b) => self@ == Json::Bool(b),
                None => !(self@ is Bool),
            },
    {
        match self {
            Value::Bool(b) => Some(*b),
            _ => None,
        }
    }

    /// The entries, where the value is an object.
    pub fn as_object(&self) -> (r: Option<&Vec<Entry>>)
        ensures
            match r {
                Some(fields) => self@ == Json::Object(entries_view(fields@)),
                None => !(self@ is Object),
            },
    {
        match self {
            Value::Object(fields) => {
                proof {
                    lemma_view_object(*fields);
                }
                Some(fields)
            },
            _ => None,
        }
    }

    /// The items, where the value is an array.
    pub fn as_array(&self) -> (r: Option<&Vec<Value>>)
        ensures
            match r {
                Some(items) => self@ == Json::Array(values_view(items@)),
                None => !(self@ is Array),
            },
    {
        match self {
            Value::Array(items) => {
                proof {
                    lemma_view_array(*items);
                }
                Some(items)
            },
            _ => None,
        }
    }

    /// The field of an object under `key`; `None` for a missing key and for
    /// anything that is no object.
    pub fn get(&self, key: &str) -> (r: Option<&Value>)
        ensures
            match r {
                Some(v) => json_get(self@, key@) == Some(v@),
                None => json_get(self@, key@).is_none(),
            },
    {
        match self {
            Value::Object(fields) => {
                proof {
                    lemma_view_object(*fields);
                }
                get_entry(fields, key)
            },
            _ => None,
        }
    }

    /// A text value from a string slice.
    pub fn text(s: &str) -> (r: Value)
        ensures
            r@ == Json::String(s@),
    {
        Value::String(s.to_string())
    }
}

/// The field of an object under `key`.
pub open spec fn json_get(v: Json, key: Seq<char>) -> Option<Json> {
    match v {
        Json::Object(fields) => lookup(fields, key),
        _ => None,
    }
}

} // verus!
