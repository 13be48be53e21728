//! The wire form of a matrix: how its parts are written as values, and how
//! they are read back.
//!
//! Reading is lenient where the form allows it: a key that may be left out
//! has a default, and keys that the form does not know are passed over.
//! Writing always writes every key.

use vstd::prelude::*;
use crate::assoc::{
    lookup, with_entry, distinct_keys, lemma_lookup_at, lemma_index_of_key, index_of_key,
};
use crate::number::{decimal_nat, parse_natural, parse_u64, u64_to_string, lemma_decimal_round_trip};
use crate::text::{str_eq, str_views, chars_of, concat_strs, lemma_str_views_push};
use crate::value::{
    Value, Json, Entry, Entries, entries_view, values_view, get_entry, lemma_view_object,
    lemma_view_array,
};
use super::mapping::{Mapping, Table};
use super::operations::{Operation, Op, option_text, default_truthy, default_true_values};
use super::matrix::{
    FieldTransform, FieldRule, TransformMap, Rules, ops_view, option_json, option_texts,
    default_separator, default_concat_separator, SourceFormat, SourceFormatView, ColumnVariant,
    VariantView, variants_view, ExpandConfig, Expansion, TransformationMatrix, MatrixView,
    default_version_text, default_version, default_role_separator,
};

verus! {

/// What is wrong with a value that was to be a part of a matrix.
#[derive(Debug, PartialEq)]
pub enum WireError {
    /// A key that has to be there is not.
    Missing(String),
    /// What stands under this key, or in this place, is of the wrong kind.
    Malformed(String),
}

/// The content of a [`WireError`].
pub enum Fault {
    Missing(Seq<char>),
    Malformed(Seq<char>),
}

impl View for WireError {
    type V = Fault;

    open spec fn view(&self) -> Fault {
        match self {
            WireError::Missing(k) => Fault::Missing(k@),
            WireError::Malformed(k) => Fault::Malformed(k@),
        }
    }
}

impl WireError {
    /// The text of the error.
    pub open spec fn text(&self) -> Seq<char> {
        match self {
            WireError::Missing(k) => "missing field `"@ + k@ + "`"@,
            WireError::Malformed(k) => "invalid value for `"@ + k@ + "`"@,
        }
    }

    /// The error as one line of text.
    pub fn to_string(&self) -> (r: String)
        ensures
            r@ == self.text(),
    {
        match self {
            WireError::Missing(k) => {
                let a = concat_strs("missing field `", k.as_str());
                concat_strs(a.as_str(), "`")
            },
            WireError::Malformed(k) => {
                let a = concat_strs("invalid value for `", k.as_str());
                concat_strs(a.as_str(), "`")
            },
        }
    }
}

fn missing<T>(key: &str) -> (r: Result<T, WireError>)
    ensures
        r is Err,
        r->Err_0@ == Fault::Missing(key@),
{
    Err(WireError::Missing(key.to_string()))
}

fn malformed<T>(key: &str) -> (r: Result<T, WireError>)
    ensures
        r is Err,
        r->Err_0@ == Fault::Malformed(key@),
{
    Err(WireError::Malformed(key.to_string()))
}

/// The text under a key that has to be there.
pub open spec fn text_under(fields: Entries, key: Seq<char>) -> Result<Seq<char>, Fault> {
    match lookup(fields, key) {
        None => Err(Fault::Missing(key)),
        Some(Json::String(s)) => Ok(s),
        Some(_) => Err(Fault::Malformed(key)),
    }
}

/// The text under a key, or a default where the key is not there.
pub open spec fn text_or(fields: Entries, key: Seq<char>, default: Seq<char>) -> Result<
    Seq<char>,
    Fault,
> {
    match lookup(fields, key) {
        None => Ok(default),
        Some(Json::String(s)) => Ok(s),
        Some(_) => Err(Fault::Malformed(key)),
    }
}

/// The text under a key, if any: none where the key is not there or holds null.
pub open spec fn optional_text(fields: Entries, key: Seq<char>) -> Result<Option<Seq<char>>, Fault> {
    match lookup(fields, key) {
        None => Ok(None),
        Some(Json::Null) => Ok(None),
        Some(Json::String(s)) => Ok(Some(s)),
        Some(_) => Err(Fault::Malformed(key)),
    }
}

/// The boolean under a key, or a default where the key is not there.
pub open spec fn flag_or(fields: Entries, key: Seq<char>, default: bool) -> Result<bool, Fault> {
    match lookup(fields, key) {
        None => Ok(default),
        Some(Json::Bool(b)) => Ok(b),
        Some(_) => Err(Fault::Malformed(key)),
    }
}

/// The size that a value writes: a number that is no less than zero and no
/// more than a size can be.
pub open spec fn size_of_json(j: Json) -> Option<nat> {
    match j {
        Json::Number(n) => if 0 <= n <= usize::MAX {
            Some(n as nat)
        } else {
            None
        },
        Json::Decimal(t) => match parse_natural(t) {
            Some(v) => if v <= usize::MAX {
                Some(v)
            } else {
                None
            },
            None => None,
        },
        _ => None,
    }
}

/// A size as a value.
pub open spec fn size_json(n: nat) -> Json {
    if n <= i64::MAX {
        Json::Number(n as int)
    } else {
        Json::Decimal(decimal_nat(n))
    }
}

/// The size under a key that has to be there.
pub open spec fn size_under(fields: Entries, key: Seq<char>) -> Result<nat, Fault> {
    match lookup(fields, key) {
        None => Err(Fault::Missing(key)),
        Some(j) => match size_of_json(j) {
            Some(n) => Ok(n),
            None => Err(Fault::Malformed(key)),
        },
    }
}

/// The size under a key, or a default where the key is not there.
pub open spec fn size_or(fields: Entries, key: Seq<char>, default: nat) -> Result<nat, Fault> {
    match lookup(fields, key) {
        None => Ok(default),
        Some(j) => match size_of_json(j) {
            Some(n) => Ok(n),
            None => Err(Fault::Malformed(key)),
        },
    }
}

/// The size under a key, if any: none where the key is not there or holds null.
pub open spec fn optional_size(fields: Entries, key: Seq<char>) -> Result<Option<nat>, Fault> {
    match lookup(fields, key) {
        None => Ok(None),
        Some(Json::Null) => Ok(None),
        Some(j) => match size_of_json(j) {
            Some(n) => Ok(Some(n)),
            None => Err(Fault::Malformed(key)),
        },
    }
}

/// The value under a key, if any: none where the key is not there or holds null.
pub open spec fn optional_value(fields: Entries, key: Seq<char>) -> Option<Json> {
    match lookup(fields, key) {
        None => None,
        Some(Json::Null) => None,
        Some(v) => Some(v),
    }
}

/// The first `n` items as texts; a fault under `key` where one is no text.
pub open spec fn texts_of_json(items: Seq<Json>, n: int, key: Seq<char>) -> Result<
    Seq<Seq<char>>,
    Fault,
>
    decreases n,
{
    if n <= 0 || n > items.len() {
        Ok(Seq::empty())
    } else {
        match texts_of_json(items, n - 1, key) {
            Err(e) => Err(e),
            Ok(head) => match items[n - 1] {
                Json::String(s) => Ok(head.push(s)),
                _ => Err(Fault::Malformed(key)),
            },
        }
    }
}

/// Texts as an array.
pub open spec fn texts_json(texts: Seq<Seq<char>>) -> Json {
    Json::Array(Seq::new(texts.len(), |i: int| Json::String(texts[i])))
}

/// The first `n` entries as a lookup table, a later entry under a key taking
/// the place of an earlier one; a fault under `key` where a value is no text.
pub open spec fn table_of_json(fields: Entries, n: int, key: Seq<char>) -> Result<Table, Fault>
    decreases n,
{
    if n <= 0 || n > fields.len() {
        Ok(Seq::empty())
    } else {
        match table_of_json(fields, n - 1, key) {
            Err(e) => Err(e),
            Ok(head) => match fields[n - 1].1 {
                Json::String(s) => Ok(with_entry(head, fields[n - 1].0, s)),
                _ => Err(Fault::Malformed(key)),
            },
        }
    }
}

/// A lookup table as an object.
pub open spec fn table_json(t: Table) -> Json {
    Json::Object(Seq::new(t.len(), |i: int| (t[i].0, Json::String(t[i].1))))
}

/// The lookup table under a key that has to be there.
pub open spec fn table_under(fields: Entries, key: Seq<char>) -> Result<Table, Fault> {
    match lookup(fields, key) {
        None => Err(Fault::Missing(key)),
        Some(Json::Object(entries)) => table_of_json(entries, entries.len() as int, key),
        Some(_) => Err(Fault::Malformed(key)),
    }
}

/// A text as a value, or null for none.
pub open spec fn nullable_text_json(o: Option<Seq<char>>) -> Json {
    match o {
        Some(s) => Json::String(s),
        None => Json::Null,
    }
}

/// A size as a value, or null for none.
pub open spec fn nullable_size_json(o: Option<nat>) -> Json {
    match o {
        Some(n) => size_json(n),
        None => Json::Null,
    }
}

/// The value, or null for none.
pub open spec fn nullable_json(o: Option<Json>) -> Json {
    match o {
        Some(v) => v,
        None => Json::Null,
    }
}

/// The view of a result: of what it holds, or of its error.
pub open spec fn wire_view<T: View>(r: Result<T, WireError>) -> Result<T::V, Fault> {
    match r {
        Ok(x) => Ok(x@),
        Err(e) => Err(e@),
    }
}

/// The content of a size, if there is one.
pub open spec fn option_size(o: Option<usize>) -> Option<nat> {
    match o {
        Some(n) => Some(n as nat),
        None => None,
    }
}

/// Reads the text under a key that has to be there.
pub fn read_text(fields: &Vec<Entry>, key: &str) -> (r: Result<String, WireError>)
    ensures
        wire_view(r) == text_under(entries_view(fields@), key@),
{
    match get_entry(fields, key) {
        None => missing(key),
        Some(v) => match v {
            Value::String(s) => Ok(s.clone()),
            _ => malformed(key),
        },
    }
}

/// Reads the text under a key, or takes the default.
pub fn read_text_or(fields: &Vec<Entry>, key: &str, default: String) -> (r: Result<
    String,
    WireError,
>)
    ensures
        wire_view(r) == text_or(entries_view(fields@), key@, default@),
{
    match get_entry(fields, key) {
        None => Ok(default),
        Some(v) => match v {
            Value::String(s) => Ok(s.clone()),
            _ => malformed(key),
        },
    }
}

/// Reads the text under a key, if any.
pub fn read_optional_text(fields: &Vec<Entry>, key: &str) -> (r: Result<Option<String>, WireError>)
    ensures
        match r {
            Ok(o) => optional_text(entries_view(fields@), key@) == Ok::<Option<Seq<char>>, Fault>(
                option_text(o),
            ),
            Err(e) => optional_text(entries_view(fields@), key@) == Err::<Option<Seq<char>>, Fault>(
                e@,
            ),
        },
{
    match get_entry(fields, key) {
        None => Ok(None),
        Some(v) => match v {
            Value::Null => Ok(None),
            Value::String(s) => Ok(Some(s.clone())),
            _ => malformed(key),
        },
    }
}

/// Reads the boolean under a key, or takes the default.
pub fn read_flag_or(fields: &Vec<Entry>, key: &str, default: bool) -> (r: Result<bool, WireError>)
    ensures
        match r {
            Ok(b) => flag_or(entries_view(fields@), key@, default) == Ok::<bool, Fault>(b),
            Err(e) => flag_or(entries_view(fields@), key@, default) == Err::<bool, Fault>(e@),
        },
{
    match get_entry(fields, key) {
        None => Ok(default),
        Some(v) => match v {
            Value::Bool(b) => Ok(*b),
            _ => malformed(key),
        },
    }
}

/// The size that a value writes.
pub fn size_from_value(v: &Value) -> (r: Option<usize>)
    ensures
        option_size(r) == size_of_json(v@),
{
    match v {
        Value::Number(n) => {
            if *n >= 0 && (*n as u64) <= usize::MAX as u64 {
                Some(*n as usize)
            } else {
                None
            }
        },
        Value::Decimal(t) => {
            let digits = chars_of(t.as_str());
            match parse_u64(&digits) {
                Some(v) => if v <= usize::MAX as u64 {
                    Some(v as usize)
                } else {
                    None
                },
                None => None,
            }
        },
        _ => None,
    }
}

/// A size as a value.
pub fn size_to_value(n: usize) -> (r: Value)
    ensures
        r@ == size_json(n as nat),
{
    if (n as u64) <= 0x7FFF_FFFF_FFFF_FFFFu64 {
        Value::Number(n as i64)
    } else {
        Value::Decimal(u64_to_string(n as u64))
    }
}

/// Reads the size under a key that has to be there.
pub fn read_size(fields: &Vec<Entry>, key: &str) -> (r: Result<usize, WireError>)
    ensures
        match r {
            Ok(n) => size_under(entries_view(fields@), key@) == Ok::<nat, Fault>(n as nat),
            Err(e) => size_under(entries_view(fields@), key@) == Err::<nat, Fault>(e@),
        },
{
    match get_entry(fields, key) {
        None => missing(key),
        Some(v) => match size_from_value(v) {
            Some(n) => Ok(n),
            None => malformed(key),
        },
    }
}

/// Reads the size under a key, or takes the default.
pub fn read_size_or(fields: &Vec<Entry>, key: &str, default: usize) -> (r: Result<usize, WireError>)
    ensures
        match r {
            Ok(n) => size_or(entries_view(fields@), key@, default as nat) == Ok::<nat, Fault>(
                n as nat,
            ),
            Err(e) => size_or(entries_view(fields@), key@, default as nat) == Err::<nat, Fault>(
                e@,
            ),
        },
{
    match get_entry(fields, key) {
        None => Ok(default),
        Some(v) => match size_from_value(v) {
            Some(n) => Ok(n),
            None => malformed(key),
        },
    }
}

/// Reads the size under a key, if any.
pub fn read_optional_size(fields: &Vec<Entry>, key: &str) -> (r: Result<Option<usize>, WireError>)
    ensures
        match r {
            Ok(o) => optional_size(entries_view(fields@), key@) == Ok::<Option<nat>, Fault>(
                option_size(o),
            ),
            Err(e) => optional_size(entries_view(fields@), key@) == Err::<Option<nat>, Fault>(e@),
        },
{
    match get_entry(fields, key) {
        None => Ok(None),
        Some(v) => match v {
            Value::Null => Ok(None),
            _ => match size_from_value(v) {
                Some(n) => Ok(Some(n)),
                None => malformed(key),
            },
        },
    }
}

/// Reads the value under a key, if any.
pub fn read_optional_value(fields: &Vec<Entry>, key: &str) -> (r: Option<Value>)
    ensures
        match r {
            Some(v) => optional_value(entries_view(fields@), key@) == Some(v@),
            None => optional_value(entries_view(fields@), key@).is_none(),
        },
{
    match get_entry(fields, key) {
        None => None,
        Some(v) => match v {
            Value::Null => None,
            _ => Some(v.clone()),
        },
    }
}

/// Reads an array of texts.
pub fn read_texts(items: &Vec<Value>, key: &str) -> (r: Result<Vec<String>, WireError>)
    ensures
        match r {
            Ok(texts) => texts_of_json(values_view(items@), items@.len() as int, key@) == Ok::<
                Seq<Seq<char>>,
                Fault,
            >(str_views(texts@)),
            Err(e) => texts_of_json(values_view(items@), items@.len() as int, key@) == Err::<
                Seq<Seq<char>>,
                Fault,
            >(e@),
        },
{
    let ghost js = values_view(items@);
    let mut out: Vec<String> = Vec::new();
    let mut i: usize = 0;
    assert(str_views(out@) =~= Seq::<Seq<char>>::empty());
    while i < items.len()
        invariant
            i <= items.len(),
            js == values_view(items@),
            texts_of_json(js, i as int, key@) == Ok::<Seq<Seq<char>>, Fault>(str_views(out@)),
        decreases items.len() - i,
    {
        assert(js[i as int] == items@[i as int]@);
        match &items[i] {
            Value::String(s) => {
                let copy = s.clone();
                proof {
                    lemma_str_views_push(out@, copy);
                }
                out.push(copy);
            },
            _ => {
                proof {
                    lemma_texts_fault_stays(js, i + 1, items@.len() as int, key@);
                }
                return malformed(key);
            },
        }
        i += 1;
    }
    Ok(out)
}

/// A fault among the first items is the fault of the whole array.
pub proof fn lemma_texts_fault_stays(items: Seq<Json>, n: int, m: int, key: Seq<char>)
    requires
        0 <= n <= m <= items.len(),
        texts_of_json(items, n, key) is Err,
    ensures
        texts_of_json(items, m, key) == texts_of_json(items, n, key),
    decreases m - n,
{
    if n < m {
        lemma_texts_fault_stays(items, n, m - 1, key);
    }
}

/// A fault among the first entries is the fault of the whole table.
pub proof fn lemma_table_fault_stays(fields: Entries, n: int, m: int, key: Seq<char>)
    requires
        0 <= n <= m <= fields.len(),
        table_of_json(fields, n, key) is Err,
    ensures
        table_of_json(fields, m, key) == table_of_json(fields, n, key),
    decreases m - n,
{
    if n < m {
        lemma_table_fault_stays(fields, n, m - 1, key);
    }
}

/// Texts as an array.
pub fn texts_to_value(texts: &Vec<String>) -> (r: Value)
    ensures
        r@ == texts_json(str_views(texts@)),
{
    let mut out: Vec<Value> = Vec::new();
    let mut i: usize = 0;
    while i < texts.len()
        invariant
            i <= texts.len(),
            out@.len() == i,
            forall|j: int| 0 <= j < i ==> out@[j]@ == Json::String(texts@[j]@),
        decreases texts.len() - i,
    {
        out.push(Value::String(texts[i].clone()));
        i += 1;
    }
    proof {
        lemma_view_array(out);
        assert(values_view(out@) =~= texts_json(str_views(texts@))->Array_0);
    }
    Value::Array(out)
}

/// Reads the lookup table under a key that has to be there.
pub fn read_table(fields: &Vec<Entry>, key: &str) -> (r: Result<Mapping, WireError>)
    ensures
        wire_view(r) == table_under(entries_view(fields@), key@),
        r is Ok ==> r->Ok_0.wf(),
{
    let entries = match get_entry(fields, key) {
        None => {
            return missing(key);
        },
        Some(v) => match v.as_object() {
            Some(entries) => entries,
            None => {
                return malformed(key);
            },
        },
    };
    let ghost es = entries_view(entries@);
    let mut table = Mapping::new();
    let mut i: usize = 0;
    while i < entries.len()
        invariant
            i <= entries.len(),
            es == entries_view(entries@),
            table.wf(),
            table_under(entries_view(fields@), key@) == table_of_json(es, es.len() as int, key@),
            table_of_json(es, i as int, key@) == Ok::<Table, Fault>(table@),
        decreases entries.len() - i,
    {
        assert(es[i as int] == (entries@[i as int].key@, entries@[i as int].value@));
        match &entries[i].value {
            Value::String(s) => {
                table.insert(entries[i].key.clone(), s.clone());
            },
            _ => {
                proof {
                    lemma_table_fault_stays(es, i + 1, entries@.len() as int, key@);
                }
                return malformed(key);
            },
        }
        i += 1;
    }
    Ok(table)
}

/// A lookup table as an object.
pub fn table_to_value(table: &Mapping) -> (r: Value)
    ensures
        r@ == table_json(table@),
{
    let mut out: Vec<Entry> = Vec::new();
    let mut i: usize = 0;
    while i < table.len()
        invariant
            i <= table@.len(),
            out@.len() == i,
            forall|j: int|
                0 <= j < i ==> out@[j].key@ == table@[j].0 && out@[j].value@ == Json::String(
                    table@[j].1,
                ),
        decreases table@.len() - i,
    {
        out.push(
            Entry { key: table.key_at(i).clone(), value: Value::String(table.value_at(i).clone()) },
        );
        i += 1;
    }
    proof {
        lemma_view_object(out);
        assert(entries_view(out@) =~= table_json(table@)->Object_0);
    }
    Value::Object(out)
}

/// A table with distinct keys is read back from its object as it was.
pub proof fn lemma_table_round_trip(t: Table, key: Seq<char>, n: int)
    requires
        distinct_keys(t),
        0 <= n <= t.len(),
    ensures
        table_of_json(table_json(t)->Object_0, n, key) == Ok::<Table, Fault>(t.subrange(0, n)),
    decreases n,
{
    let fields = table_json(t)->Object_0;
    if n > 0 {
        lemma_table_round_trip(t, key, n - 1);
        let head = t.subrange(0, n - 1);
        assert(fields[n - 1] == (t[n - 1].0, Json::String(t[n - 1].1)));
        lemma_index_of_key(head, t[n - 1].0);
        let k = index_of_key(head, t[n - 1].0);
        if k < head.len() {
            assert(head[k] == t[k]);
            assert(t[k].0 != t[n - 1].0);
        }
        assert(with_entry(head, t[n - 1].0, t[n - 1].1) =~= t.subrange(0, n));
    } else {
        assert(t.subrange(0, 0) =~= Seq::<(Seq<char>, Seq<char>)>::empty());
    }
}

/// Texts are read back from their array as they were.
pub proof fn lemma_texts_round_trip(texts: Seq<Seq<char>>, key: Seq<char>, n: int)
    requires
        0 <= n <= texts.len(),
    ensures
        texts_of_json(texts_json(texts)->Array_0, n, key) == Ok::<Seq<Seq<char>>, Fault>(
            texts.subrange(0, n),
        ),
    decreases n,
{
    if n > 0 {
        lemma_texts_round_trip(texts, key, n - 1);
        assert(texts.subrange(0, n - 1).push(texts[n - 1]) =~= texts.subrange(0, n));
    } else {
        assert(texts.subrange(0, 0) =~= Seq::<Seq<char>>::empty());
    }
}

/// A size is read back from its value as it was.
pub proof fn lemma_size_round_trip(n: nat)
    requires
        n <= usize::MAX,
    ensures
        size_of_json(size_json(n)) == Some(n),
{
    if n > i64::MAX {
        lemma_decimal_round_trip(n);
    }
}

/// An object with its kind under `type`, then the rest.
pub open spec fn tagged(tag: Seq<char>, rest: Entries) -> Json {
    Json::Object(seq![("type"@, Json::String(tag))] + rest)
}

/// An operation as a value: its name under `type`, then its parameters.
pub open spec fn op_json(op: Op) -> Json {
    match op {
        Op::Trim => tagged("trim"@, Seq::empty()),
        Op::Uppercase => tagged("uppercase"@, Seq::empty()),
        Op::Lowercase => tagged("lowercase"@, Seq::empty()),
        Op::Replace { pattern, value } => tagged(
            "replace"@,
            seq![("pattern"@, Json::String(pattern)), ("value"@, Json::String(value))],
        ),
        Op::PadStart { length, pad } => tagged(
            "pad_start"@,
            seq![("length"@, size_json(length)), ("char"@, Json::String(pad))],
        ),
        Op::PadEnd { length, pad } => tagged(
            "pad_end"@,
            seq![("length"@, size_json(length)), ("char"@, Json::String(pad))],
        ),
        Op::ExtractYear => tagged("extract_year"@, Seq::empty()),
        Op::EnsurePrefix { value } => tagged(
            "ensure_prefix"@,
            seq![("value"@, Json::String(value))],
        ),
        Op::EnsureSuffix { value } => tagged(
            "ensure_suffix"@,
            seq![("value"@, Json::String(value))],
        ),
        Op::Lookup { mapping, case_insensitive, default_unmapped } => tagged(
            "map"@,
            seq![
                ("mapping"@, table_json(mapping)),
                ("case_insensitive"@, Json::Bool(case_insensitive)),
                ("default_unmapped"@, nullable_text_json(default_unmapped)),
            ],
        ),
        Op::Split { separator } => tagged(
            "split"@,
            seq![("separator"@, Json::String(separator))],
        ),
        Op::ToBoolean { true_values } => tagged(
            "to_boolean"@,
            seq![("true_values"@, texts_json(true_values))],
        ),
        Op::ToNumber => tagged("to_number"@, Seq::empty()),
        Op::Substring { start, length } => tagged(
            "substring"@,
            seq![("start"@, size_json(start)), ("length"@, nullable_size_json(length))],
        ),
        Op::Alphanumeric => tagged("alphanumeric"@, Seq::empty()),
        Op::DigitsOnly => tagged("digits_only"@, Seq::empty()),
    }
}

/// The replacement that the entries write: a pattern, and a value that may
/// be left out.
pub open spec fn replace_of(fields: Entries) -> Result<Op, Fault> {
    match text_under(fields, "pattern"@) {
        Err(e) => Err(e),
        Ok(pattern) => match text_or(fields, "value"@, Seq::empty()) {
            Err(e) => Err(e),
            Ok(value) => Ok(Op::Replace { pattern, value }),
        },
    }
}

/// The padding that the entries write: a length, and a pad character that may
/// be left out.
pub open spec fn pad_of(fields: Entries, at_start: bool) -> Result<Op, Fault> {
    match size_under(fields, "length"@) {
        Err(e) => Err(e),
        Ok(length) => match text_or(fields, "char"@, seq!['0']) {
            Err(e) => Err(e),
            Ok(pad) => if at_start {
                Ok(Op::PadStart { length, pad })
            } else {
                Ok(Op::PadEnd { length, pad })
            },
        },
    }
}

/// The enforcement of a prefix or a suffix that the entries write.
pub open spec fn affix_of(fields: Entries, prefix: bool) -> Result<Op, Fault> {
    match text_under(fields, "value"@) {
        Err(e) => Err(e),
        Ok(value) => if prefix {
            Ok(Op::EnsurePrefix { value })
        } else {
            Ok(Op::EnsureSuffix { value })
        },
    }
}

/// The lookup that the entries write: a table, and two settings that may be
/// left out.
pub open spec fn lookup_of(fields: Entries) -> Result<Op, Fault> {
    match table_under(fields, "mapping"@) {
        Err(e) => Err(e),
        Ok(mapping) => match flag_or(fields, "case_insensitive"@, false) {
            Err(e) => Err(e),
            Ok(case_insensitive) => match optional_text(fields, "default_unmapped"@) {
                Err(e) => Err(e),
                Ok(default_unmapped) => Ok(
                    Op::Lookup { mapping, case_insensitive, default_unmapped },
                ),
            },
        },
    }
}

/// The split that the entries write: a separator that may be left out.
pub open spec fn split_of(fields: Entries) -> Result<Op, Fault> {
    match text_or(fields, "separator"@, seq![',']) {
        Err(e) => Err(e),
        Ok(separator) => Ok(Op::Split { separator }),
    }
}

/// The coercion to a boolean that the entries write: truthy words that may be
/// left out.
pub open spec fn truthy_of(fields: Entries) -> Result<Op, Fault> {
    match lookup(fields, "true_values"@) {
        None => Ok(Op::ToBoolean { true_values: default_truthy() }),
        Some(Json::Array(items)) => match texts_of_json(
            items,
            items.len() as int,
            "true_values"@,
        ) {
            Err(e) => Err(e),
            Ok(true_values) => Ok(Op::ToBoolean { true_values }),
        },
        Some(_) => Err(Fault::Malformed("true_values"@)),
    }
}

/// The substring that the entries write: a start, and a length that may be
/// left out.
pub open spec fn substring_of(fields: Entries) -> Result<Op, Fault> {
    match size_under(fields, "start"@) {
        Err(e) => Err(e),
        Ok(start) => match optional_size(fields, "length"@) {
            Err(e) => Err(e),
            Ok(length) => Ok(Op::Substring { start, length }),
        },
    }
}

/// The operation that an object of the kind `tag` writes.
pub open spec fn op_of_kind(tag: Seq<char>, fields: Entries) -> Result<Op, Fault> {
    if tag == "trim"@ {
        Ok(Op::Trim)
    } else if tag == "uppercase"@ {
        Ok(Op::Uppercase)
    } else if tag == "lowercase"@ {
        Ok(Op::Lowercase)
    } else if tag == "replace"@ {
        replace_of(fields)
    } else if tag == "pad_start"@ {
        pad_of(fields, true)
    } else if tag == "pad_end"@ {
        pad_of(fields, false)
    } else if tag == "extract_year"@ {
        Ok(Op::ExtractYear)
    } else if tag == "ensure_prefix"@ {
        affix_of(fields, true)
    } else if tag == "ensure_suffix"@ {
        affix_of(fields, false)
    } else if tag == "map"@ {
        lookup_of(fields)
    } else if tag == "split"@ {
        split_of(fields)
    } else if tag == "to_boolean"@ {
        truthy_of(fields)
    } else if tag == "to_number"@ {
        Ok(Op::ToNumber)
    } else if tag == "substring"@ {
        substring_of(fields)
    } else if tag == "alphanumeric"@ {
        Ok(Op::Alphanumeric)
    } else if tag == "digits_only"@ {
        Ok(Op::DigitsOnly)
    } else {
        Err(Fault::Malformed("type"@))
    }
}

/// The operation that a value writes: an object with a known name under
/// `type` and the parameters of that operation.
pub open spec fn op_of_json(j: Json) -> Result<Op, Fault> {
    match j {
        Json::Object(fields) => match text_under(fields, "type"@) {
            Err(e) => Err(e),
            Ok(tag) => op_of_kind(tag, fields),
        },
        _ => Err(Fault::Malformed("operation"@)),
    }
}

fn replace_from(fields: &Vec<Entry>) -> (r: Result<Operation, WireError>)
    ensures
        wire_view(r) == replace_of(entries_view(fields@)),
{
    let pattern = match read_text(fields, "pattern") {
        Ok(p) => p,
        Err(e) => {
            return Err(e);
        },
    };
    let value = match read_text_or(fields, "value", String::new()) {
        Ok(v) => v,
        Err(e) => {
            return Err(e);
        },
    };
    Ok(Operation::Replace { pattern, value })
}

fn pad_from(fields: &Vec<Entry>, at_start: bool) -> (r: Result<Operation, WireError>)
    ensures
        wire_view(r) == pad_of(entries_view(fields@), at_start),
{
    let length = match read_size(fields, "length") {
        Ok(n) => n,
        Err(e) => {
            return Err(e);
        },
    };
    let char = match read_text_or(fields, "char", super::operations::default_pad_char()) {
        Ok(c) => c,
        Err(e) => {
            return Err(e);
        },
    };
    if at_start {
        Ok(Operation::PadStart { length, char })
    } else {
        Ok(Operation::PadEnd { length, char })
    }
}

fn affix_from(fields: &Vec<Entry>, prefix: bool) -> (r: Result<Operation, WireError>)
    ensures
        wire_view(r) == affix_of(entries_view(fields@), prefix),
{
    let value = match read_text(fields, "value") {
        Ok(v) => v,
        Err(e) => {
            return Err(e);
        },
    };
    if prefix {
        Ok(Operation::EnsurePrefix { value })
    } else {
        Ok(Operation::EnsureSuffix { value })
    }
}

fn lookup_from(fields: &Vec<Entry>) -> (r: Result<Operation, WireError>)
    ensures
        wire_view(r) == lookup_of(entries_view(fields@)),
{
    let mapping = match read_table(fields, "mapping") {
        Ok(m) => m,
        Err(e) => {
            return Err(e);
        },
    };
    let case_insensitive = match read_flag_or(fields, "case_insensitive", false) {
        Ok(b) => b,
        Err(e) => {
            return Err(e);
        },
    };
    let default_unmapped = match read_optional_text(fields, "default_unmapped") {
        Ok(d) => d,
        Err(e) => {
            return Err(e);
        },
    };
    Ok(Operation::Lookup { mapping, case_insensitive, default_unmapped })
}

fn split_from(fields: &Vec<Entry>) -> (r: Result<Operation, WireError>)
    ensures
        wire_view(r) == split_of(entries_view(fields@)),
{
    let separator = match read_text_or(
        fields,
        "separator",
        super::operations::default_split_separator(),
    ) {
        Ok(s) => s,
        Err(e) => {
            return Err(e);
        },
    };
    Ok(Operation::Split { separator })
}

fn truthy_from(fields: &Vec<Entry>) -> (r: Result<Operation, WireError>)
    ensures
        wire_view(r) == truthy_of(entries_view(fields@)),
{
    match get_entry(fields, "true_values") {
        None => Ok(Operation::ToBoolean { true_values: default_true_values() }),
        Some(v) => match v.as_array() {
            Some(items) => match read_texts(items, "true_values") {
                Ok(true_values) => Ok(Operation::ToBoolean { true_values }),
                Err(e) => Err(e),
            },
            None => malformed("true_values"),
        },
    }
}

fn substring_from(fields: &Vec<Entry>) -> (r: Result<Operation, WireError>)
    ensures
        wire_view(r) == substring_of(entries_view(fields@)),
{
    let start = match read_size(fields, "start") {
        Ok(n) => n,
        Err(e) => {
            return Err(e);
        },
    };
    let length = match read_optional_size(fields, "length") {
        Ok(l) => l,
        Err(e) => {
            return Err(e);
        },
    };
    Ok(Operation::Substring { start, length })
}

/// Reads an operation.
pub fn operation_from_value(v: &Value) -> (r: Result<Operation, WireError>)
    ensures
        wire_view(r) == op_of_json(v@),
{
    let fields = match v.as_object() {
        Some(f) => f,
        None => {
            return malformed("operation");
        },
    };
    let tag = match read_text(fields, "type") {
        Ok(t) => t,
        Err(e) => {
            return Err(e);
        },
    };
    let t = tag.as_str();
    if str_eq(t, "trim") {
        Ok(Operation::Trim)
    } else if str_eq(t, "uppercase") {
        Ok(Operation::Uppercase)
    } else if str_eq(t, "lowercase") {
        Ok(Operation::Lowercase)
    } else if str_eq(t, "replace") {
        replace_from(fields)
    } else if str_eq(t, "pad_start") {
        pad_from(fields, true)
    } else if str_eq(t, "pad_end") {
        pad_from(fields, false)
    } else if str_eq(t, "extract_year") {
        Ok(Operation::ExtractYear)
    } else if str_eq(t, "ensure_prefix") {
        affix_from(fields, true)
    } else if str_eq(t, "ensure_suffix") {
        affix_from(fields, false)
    } else if str_eq(t, "map") {
        lookup_from(fields)
    } else if str_eq(t, "split") {
        split_from(fields)
    } else if str_eq(t, "to_boolean") {
        truthy_from(fields)
    } else if str_eq(t, "to_number") {
        Ok(Operation::ToNumber)
    } else if str_eq(t, "substring") {
        substring_from(fields)
    } else if str_eq(t, "alphanumeric") {
        Ok(Operation::Alphanumeric)
    } else if str_eq(t, "digits_only") {
        Ok(Operation::DigitsOnly)
    } else {
        malformed("type")
    }
}

/// An object with its kind under `type`, then the rest.
pub fn tagged_object(tag: &str, rest: Vec<Entry>) -> (r: Value)
    ensures
        r@ == tagged(tag@, entries_view(rest@)),
{
    let mut fields: Vec<Entry> = Vec::new();
    fields.push(Entry { key: "type".to_string(), value: Value::text(tag) });
    let mut rest = rest;
    let ghost tail = entries_view(rest@);
    fields.append(&mut rest);
    proof {
        lemma_view_object(fields);
        assert(entries_view(fields@) =~= seq![("type"@, Json::String(tag@))] + tail);
    }
    Value::Object(fields)
}

/// One entry.
pub fn entry(key: &str, value: Value) -> (r: Entry)
    ensures
        r.key@ == key@,
        r.value@ == value@,
{
    Entry { key: key.to_string(), value }
}

/// A text as a value, or null for none.
pub fn text_or_null(o: &Option<String>) -> (r: Value)
    ensures
        r@ == nullable_text_json(option_text(*o)),
{
    match o {
        Some(s) => Value::String(s.clone()),
        None => Value::Null,
    }
}

/// An operation as a value.
pub fn operation_to_value(op: &Operation) -> (r: Value)
    ensures
        r@ == op_json(op@),
{
    let mut rest: Vec<Entry> = Vec::new();
    assert(entries_view(rest@) =~= Seq::empty());
    match op {
        Operation::Trim => tagged_object("trim", rest),
        Operation::Uppercase => tagged_object("uppercase", rest),
        Operation::Lowercase => tagged_object("lowercase", rest),
        Operation::Replace { pattern, value } => {
            rest.push(entry("pattern", Value::String(pattern.clone())));
            rest.push(entry("value", Value::String(value.clone())));
            assert(entries_view(rest@) =~= seq![
                ("pattern"@, Json::String(pattern@)),
                ("value"@, Json::String(value@)),
            ]);
            tagged_object("replace", rest)
        },
        Operation::PadStart { length, char } => {
            rest.push(entry("length", size_to_value(*length)));
            rest.push(entry("char", Value::String(char.clone())));
            assert(entries_view(rest@) =~= seq![
                ("length"@, size_json(*length as nat)),
                ("char"@, Json::String(char@)),
            ]);
            tagged_object("pad_start", rest)
        },
        Operation::PadEnd { length, char } => {
            rest.push(entry("length", size_to_value(*length)));
            rest.push(entry("char", Value::String(char.clone())));
            assert(entries_view(rest@) =~= seq![
                ("length"@, size_json(*length as nat)),
                ("char"@, Json::String(char@)),
            ]);
            tagged_object("pad_end", rest)
        },
        Operation::ExtractYear => tagged_object("extract_year", rest),
        Operation::EnsurePrefix { value } => {
            rest.push(entry("value", Value::String(value.clone())));
            assert(entries_view(rest@) =~= seq![("value"@, Json::String(value@))]);
            tagged_object("ensure_prefix", rest)
        },
        Operation::EnsureSuffix { value } => {
            rest.push(entry("value", Value::String(value.clone())));
            assert(entries_view(rest@) =~= seq![("value"@, Json::String(value@))]);
            tagged_object("ensure_suffix", rest)
        },
        Operation::Lookup { mapping, case_insensitive, default_unmapped } => {
            rest.push(entry("mapping", table_to_value(mapping)));
            rest.push(entry("case_insensitive", Value::Bool(*case_insensitive)));
            rest.push(entry("default_unmapped", text_or_null(default_unmapped)));
            assert(entries_view(rest@) =~= seq![
                ("mapping"@, table_json(mapping@)),
                ("case_insensitive"@, Json::Bool(*case_insensitive)),
                ("default_unmapped"@, nullable_text_json(option_text(*default_unmapped))),
            ]);
            tagged_object("map", rest)
        },
        Operation::Split { separator } => {
            rest.push(entry("separator", Value::String(separator.clone())));
            assert(entries_view(rest@) =~= seq![("separator"@, Json::String(separator@))]);
            tagged_object("split", rest)
        },
        Operation::ToBoolean { true_values } => {
            rest.push(entry("true_values", texts_to_value(true_values)));
            assert(entries_view(rest@) =~= seq![
                ("true_values"@, texts_json(str_views(true_values@))),
            ]);
            tagged_object("to_boolean", rest)
        },
        Operation::ToNumber => tagged_object("to_number", rest),
        Operation::Substring { start, length } => {
            let ghost len = option_size(*length);
            assert(op@ == Op::Substring { start: *start as nat, length: len });
            rest.push(entry("start", size_to_value(*start)));
            let length_value = match length {
                Some(l) => size_to_value(*l),
                None => Value::Null,
            };
            assert(length_value@ == nullable_size_json(len));
            rest.push(entry("length", length_value));
            assert(entries_view(rest@) =~= seq![
                ("start"@, size_json(*start as nat)),
                ("length"@, nullable_size_json(len)),
            ]);
            tagged_object("substring", rest)
        },
        Operation::Alphanumeric => tagged_object("alphanumeric", rest),
        Operation::DigitsOnly => tagged_object("digits_only", rest),
    }
}

/// The names of the wire form, by their length and some of their
/// characters: enough to tell any two of them apart.
pub proof fn lemma_wire_names()
    ensures
        "type"@.len() == 4,
        "type"@[0] == 't',
        "type"@[1] == 'y',
        "trim"@.len() == 4,
        "trim"@[0] == 't',
        "trim"@[1] == 'r',
        "uppercase"@.len() == 9,
        "uppercase"@[0] == 'u',
        "uppercase"@[1] == 'p',
        "uppercase"@[7] == 's',
        "lowercase"@.len() == 9,
        "lowercase"@[0] == 'l',
        "lowercase"@[1] == 'o',
        "lowercase"@[7] == 's',
        "replace"@.len() == 7,
        "replace"@[0] == 'r',
        "replace"@[1] == 'e',
        "pad_start"@.len() == 9,
        "pad_start"@[0] == 'p',
        "pad_start"@[1] == 'a',
        "pad_start"@[7] == 'r',
        "pad_end"@.len() == 7,
        "pad_end"@[0] == 'p',
        "pad_end"@[1] == 'a',
        "extract_year"@.len() == 12,
        "extract_year"@[0] == 'e',
        "extract_year"@[1] == 'x',
        "extract_year"@[7] == '_',
        "ensure_prefix"@.len() == 13,
        "ensure_prefix"@[0] == 'e',
        "ensure_prefix"@[1] == 'n',
        "ensure_prefix"@[7] == 'p',
        "ensure_suffix"@.len() == 13,
        "ensure_suffix"@[0] == 'e',
        "ensure_suffix"@[1] == 'n',
        "ensure_suffix"@[7] == 's',
        "map"@.len() == 3,
        "map"@[0] == 'm',
        "map"@[1] == 'a',
        "split"@.len() == 5,
        "split"@[0] == 's',
        "split"@[1] == 'p',
        "to_boolean"@.len() == 10,
        "to_boolean"@[0] == 't',
        "to_boolean"@[1] == 'o',
        "to_boolean"@[7] == 'e',
        "to_number"@.len() == 9,
        "to_number"@[0] == 't',
        "to_number"@[1] == 'o',
        "to_number"@[7] == 'e',
        "substring"@.len() == 9,
        "substring"@[0] == 's',
        "substring"@[1] == 'u',
        "substring"@[7] == 'n',
        "alphanumeric"@.len() == 12,
        "alphanumeric"@[0] == 'a',
        "alphanumeric"@[1] == 'l',
        "alphanumeric"@[7] == 'm',
        "digits_only"@.len() == 11,
        "digits_only"@[0] == 'd',
        "digits_only"@[1] == 'i',
        "digits_only"@[7] == 'o',
        "pattern"@.len() == 7,
        "pattern"@[0] == 'p',
        "pattern"@[1] == 'a',
        "value"@.len() == 5,
        "value"@[0] == 'v',
        "value"@[1] == 'a',
        "length"@.len() == 6,
        "length"@[0] == 'l',
        "length"@[1] == 'e',
        "char"@.len() == 4,
        "char"@[0] == 'c',
        "char"@[1] == 'h',
        "mapping"@.len() == 7,
        "mapping"@[0] == 'm',
        "mapping"@[1] == 'a',
        "case_insensitive"@.len() == 16,
        "case_insensitive"@[0] == 'c',
        "case_insensitive"@[1] == 'a',
        "case_insensitive"@[7] == 's',
        "default_unmapped"@.len() == 16,
        "default_unmapped"@[0] == 'd',
        "default_unmapped"@[1] == 'e',
        "default_unmapped"@[7] == '_',
        "separator"@.len() == 9,
        "separator"@[0] == 's',
        "separator"@[1] == 'e',
        "separator"@[7] == 'o',
        "true_values"@.len() == 11,
        "true_values"@[0] == 't',
        "true_values"@[1] == 'r',
        "true_values"@[7] == 'l',
        "start"@.len() == 5,
        "start"@[0] == 's',
        "start"@[1] == 't',
        "source"@.len() == 6,
        "source"@[0] == 's',
        "source"@[1] == 'o',
        "sources"@.len() == 7,
        "sources"@[0] == 's',
        "sources"@[1] == 'o',
        "concat_separator"@.len() == 16,
        "concat_separator"@[0] == 'c',
        "concat_separator"@[1] == 'o',
        "concat_separator"@[7] == 's',
        "constant"@.len() == 8,
        "constant"@[0] == 'c',
        "constant"@[1] == 'o',
        "constant"@[7] == 't',
        "operations"@.len() == 10,
        "operations"@[0] == 'o',
        "operations"@[1] == 'p',
        "operations"@[7] == 'o',
        "default"@.len() == 7,
        "default"@[0] == 'd',
        "default"@[1] == 'e',
        "required"@.len() == 8,
        "required"@[0] == 'r',
        "required"@[1] == 'e',
        "required"@[7] == 'd',
        "version"@.len() == 7,
        "version"@[0] == 'v',
        "version"@[1] == 'e',
        "description"@.len() == 11,
        "description"@[0] == 'd',
        "description"@[1] == 'e',
        "description"@[7] == 't',
        "source_format"@.len() == 13,
        "source_format"@[0] == 's',
        "source_format"@[1] == 'o',
        "source_format"@[7] == 'f',
        "transforms"@.len() == 10,
        "transforms"@[0] == 't',
        "transforms"@[1] == 'r',
        "transforms"@[7] == 'r',
        "expand"@.len() == 6,
        "expand"@[0] == 'e',
        "expand"@[1] == 'x',
        "delimiter"@.len() == 9,
        "delimiter"@[0] == 'd',
        "delimiter"@[1] == 'e',
        "delimiter"@[7] == 'e',
        "encoding"@.len() == 8,
        "encoding"@[0] == 'e',
        "encoding"@[1] == 'n',
        "encoding"@[7] == 'g',
        "header_rows"@.len() == 11,
        "header_rows"@[0] == 'h',
        "header_rows"@[1] == 'e',
        "header_rows"@[7] == 'r',
        "split_role"@.len() == 10,
        "split_role"@[0] == 's',
        "split_role"@[1] == 'p',
        "split_role"@[7] == 'o',
        "multiple_columns"@.len() == 16,
        "multiple_columns"@[0] == 'm',
        "multiple_columns"@[1] == 'u',
        "multiple_columns"@[7] == 'e',
        "variants"@.len() == 8,
        "variants"@[0] == 'v',
        "variants"@[1] == 'a',
        "variants"@[7] == 's',
        "condition_column"@.len() == 16,
        "condition_column"@[0] == 'c',
        "condition_column"@[1] == 'o',
        "condition_column"@[7] == 'o',
        "overrides"@.len() == 9,
        "overrides"@[0] == 'o',
        "overrides"@[1] == 'v',
        "overrides"@[7] == 'e',
{
    reveal_strlit("type");
    reveal_strlit("trim");
    reveal_strlit("uppercase");
    reveal_strlit("lowercase");
    reveal_strlit("replace");
    reveal_strlit("pad_start");
    reveal_strlit("pad_end");
    reveal_strlit("extract_year");
    reveal_strlit("ensure_prefix");
    reveal_strlit("ensure_suffix");
    reveal_strlit("map");
    reveal_strlit("split");
    reveal_strlit("to_boolean");
    reveal_strlit("to_number");
    reveal_strlit("substring");
    reveal_strlit("alphanumeric");
    reveal_strlit("digits_only");
    reveal_strlit("pattern");
    reveal_strlit("value");
    reveal_strlit("length");
    reveal_strlit("char");
    reveal_strlit("mapping");
    reveal_strlit("case_insensitive");
    reveal_strlit("default_unmapped");
    reveal_strlit("separator");
    reveal_strlit("true_values");
    reveal_strlit("start");
    reveal_strlit("source");
    reveal_strlit("sources");
    reveal_strlit("concat_separator");
    reveal_strlit("constant");
    reveal_strlit("operations");
    reveal_strlit("default");
    reveal_strlit("required");
    reveal_strlit("version");
    reveal_strlit("description");
    reveal_strlit("source_format");
    reveal_strlit("transforms");
    reveal_strlit("expand");
    reveal_strlit("delimiter");
    reveal_strlit("encoding");
    reveal_strlit("header_rows");
    reveal_strlit("split_role");
    reveal_strlit("multiple_columns");
    reveal_strlit("variants");
    reveal_strlit("condition_column");
    reveal_strlit("overrides");
}

/// An operation can be written and read back: its sizes are sizes, and the
/// keys of its lookup table are distinct.
pub open spec fn op_writable(op: Op) -> bool {
    match op {
        Op::PadStart { length, pad } => length <= usize::MAX,
        Op::PadEnd { length, pad } => length <= usize::MAX,
        Op::Substring { start, length } => start <= usize::MAX && (match length {
            Some(l) => l <= usize::MAX,
            None => true,
        }),
        Op::Lookup { mapping, case_insensitive, default_unmapped } => distinct_keys(mapping),
        _ => true,
    }
}

/// An operation is read back from its value as it was.
pub proof fn lemma_op_round_trip(op: Op)
    requires
        op_writable(op),
    ensures
        op_of_json(op_json(op)) == Ok::<Op, Fault>(op),
{
    lemma_wire_names();
    let fields = op_json(op)->Object_0;
    lemma_lookup_at(fields, "type"@, 0);
    match op {
        Op::Replace { pattern, value } => {
            lemma_lookup_at(fields, "pattern"@, 1);
            lemma_lookup_at(fields, "value"@, 2);
        },
        Op::PadStart { length, pad } => {
            lemma_lookup_at(fields, "length"@, 1);
            lemma_lookup_at(fields, "char"@, 2);
            lemma_size_round_trip(length);
        },
        Op::PadEnd { length, pad } => {
            lemma_lookup_at(fields, "length"@, 1);
            lemma_lookup_at(fields, "char"@, 2);
            lemma_size_round_trip(length);
        },
        Op::EnsurePrefix { value } => {
            lemma_lookup_at(fields, "value"@, 1);
        },
        Op::EnsureSuffix { value } => {
            lemma_lookup_at(fields, "value"@, 1);
        },
        Op::Lookup { mapping, case_insensitive, default_unmapped } => {
            lemma_lookup_at(fields, "mapping"@, 1);
            lemma_lookup_at(fields, "case_insensitive"@, 2);
            lemma_lookup_at(fields, "default_unmapped"@, 3);
            lemma_table_round_trip(mapping, "mapping"@, mapping.len() as int);
            assert(mapping.subrange(0, mapping.len() as int) =~= mapping);
            assert(table_json(mapping)->Object_0.len() == mapping.len());
        },
        Op::Split { separator } => {
            lemma_lookup_at(fields, "separator"@, 1);
        },
        Op::ToBoolean { true_values } => {
            lemma_lookup_at(fields, "true_values"@, 1);
            lemma_texts_round_trip(true_values, "true_values"@, true_values.len() as int);
            assert(true_values.subrange(0, true_values.len() as int) =~= true_values);
            assert(texts_json(true_values)->Array_0.len() == true_values.len());
        },
        Op::Substring { start, length } => {
            lemma_lookup_at(fields, "start"@, 1);
            lemma_lookup_at(fields, "length"@, 2);
            lemma_size_round_trip(start);
            match length {
                Some(l) => {
                    lemma_size_round_trip(l);
                },
                None => {},
            }
        },
        _ => {},
    }
}

/// The first `n` items as operations; the fault of the first that is none.
pub open spec fn ops_of_json(items: Seq<Json>, n: int) -> Result<Seq<Op>, Fault>
    decreases n,
{
    if n <= 0 || n > items.len() {
        Ok(Seq::empty())
    } else {
        match ops_of_json(items, n - 1) {
            Err(e) => Err(e),
            Ok(head) => match op_of_json(items[n - 1]) {
                Ok(op) => Ok(head.push(op)),
                Err(e) => Err(e),
            },
        }
    }
}

/// Operations as an array.
pub open spec fn ops_json(ops: Seq<Op>) -> Json {
    Json::Array(Seq::new(ops.len(), |i: int| op_json(ops[i])))
}

/// The operations under `operations`: none where the key is not there.
pub open spec fn ops_under(fields: Entries) -> Result<Seq<Op>, Fault> {
    match lookup(fields, "operations"@) {
        None => Ok(Seq::empty()),
        Some(Json::Array(items)) => ops_of_json(items, items.len() as int),
        Some(_) => Err(Fault::Malformed("operations"@)),
    }
}

/// The texts under a key, if any: none where the key is not there or holds null.
pub open spec fn optional_texts(fields: Entries, key: Seq<char>) -> Result<
    Option<Seq<Seq<char>>>,
    Fault,
> {
    match lookup(fields, key) {
        None => Ok(None),
        Some(Json::Null) => Ok(None),
        Some(Json::Array(items)) => match texts_of_json(items, items.len() as int, key) {
            Ok(texts) => Ok(Some(texts)),
            Err(e) => Err(e),
        },
        Some(_) => Err(Fault::Malformed(key)),
    }
}

/// Texts as an array, or null for none.
pub open spec fn nullable_texts_json(o: Option<Seq<Seq<char>>>) -> Json {
    match o {
        Some(texts) => texts_json(texts),
        None => Json::Null,
    }
}

/// A rule as a value: every key of the wire form, in its order.
pub open spec fn rule_json(rule: FieldRule) -> Json {
    Json::Object(
        seq![
            ("source"@, nullable_text_json(rule.source)),
            ("sources"@, nullable_texts_json(rule.sources)),
            ("concat_separator"@, Json::String(rule.concat_separator)),
            ("constant"@, nullable_json(rule.constant)),
            ("operations"@, ops_json(rule.operations)),
            ("default"@, nullable_json(rule.default)),
            ("required"@, Json::Bool(rule.required)),
        ],
    )
}

/// The rule that the entries of an object write.
pub open spec fn rule_of_fields(fields: Entries) -> Result<FieldRule, Fault> {
    match optional_text(fields, "source"@) {
        Err(e) => Err(e),
        Ok(source) => match optional_texts(fields, "sources"@) {
            Err(e) => Err(e),
            Ok(sources) => match text_or(fields, "concat_separator"@, default_separator()) {
                Err(e) => Err(e),
                Ok(concat_separator) => match ops_under(fields) {
                    Err(e) => Err(e),
                    Ok(operations) => match flag_or(fields, "required"@, false) {
                        Err(e) => Err(e),
                        Ok(required) => Ok(
                            FieldRule {
                                source,
                                sources,
                                concat_separator,
                                constant: optional_value(fields, "constant"@),
                                operations,
                                default: optional_value(fields, "default"@),
                                required,
                            },
                        ),
                    },
                },
            },
        },
    }
}

/// The rule that a value writes.
pub open spec fn rule_of_json(j: Json) -> Result<FieldRule, Fault> {
    match j {
        Json::Object(fields) => rule_of_fields(fields),
        _ => Err(Fault::Malformed("transform"@)),
    }
}

/// The first `n` entries as rules by field, a later entry under a field
/// taking the place of an earlier one.
pub open spec fn rules_of_json(fields: Entries, n: int) -> Result<Rules, Fault>
    decreases n,
{
    if n <= 0 || n > fields.len() {
        Ok(Seq::empty())
    } else {
        match rules_of_json(fields, n - 1) {
            Err(e) => Err(e),
            Ok(head) => match rule_of_json(fields[n - 1].1) {
                Ok(rule) => Ok(with_entry(head, fields[n - 1].0, rule)),
                Err(e) => Err(e),
            },
        }
    }
}

/// Rules by field as an object.
pub open spec fn rules_json(rules: Rules) -> Json {
    Json::Object(Seq::new(rules.len(), |i: int| (rules[i].0, rule_json(rules[i].1))))
}

/// A rule can be written and read back: its constant and its default are not
/// null, and its operations can be.
pub open spec fn rule_writable(rule: FieldRule) -> bool {
    &&& rule.constant != Some(Json::Null)
    &&& rule.default != Some(Json::Null)
    &&& forall|i: int| 0 <= i < rule.operations.len() ==> op_writable(#[trigger] rule.operations[i])
}

/// Rules by field can be written and read back: the fields are distinct and
/// every rule can be.
pub open spec fn rules_writable(rules: Rules) -> bool {
    &&& distinct_keys(rules)
    &&& forall|i: int| 0 <= i < rules.len() ==> rule_writable((#[trigger] rules[i]).1)
}

/// A fault among the first items is the fault of the whole array.
pub proof fn lemma_ops_fault_stays(items: Seq<Json>, n: int, m: int)
    requires
        0 <= n <= m <= items.len(),
        ops_of_json(items, n) is Err,
    ensures
        ops_of_json(items, m) == ops_of_json(items, n),
    decreases m - n,
{
    if n < m {
        lemma_ops_fault_stays(items, n, m - 1);
    }
}

/// A fault among the first entries is the fault of all the rules.
pub proof fn lemma_rules_fault_stays(fields: Entries, n: int, m: int)
    requires
        0 <= n <= m <= fields.len(),
        rules_of_json(fields, n) is Err,
    ensures
        rules_of_json(fields, m) == rules_of_json(fields, n),
    decreases m - n,
{
    if n < m {
        lemma_rules_fault_stays(fields, n, m - 1);
    }
}

/// Operations are read back from their array as they were.
pub proof fn lemma_ops_round_trip(ops: Seq<Op>, n: int)
    requires
        0 <= n <= ops.len(),
        forall|i: int| 0 <= i < ops.len() ==> op_writable(#[trigger] ops[i]),
    ensures
        ops_of_json(ops_json(ops)->Array_0, n) == Ok::<Seq<Op>, Fault>(ops.subrange(0, n)),
    decreases n,
{
    if n > 0 {
        lemma_ops_round_trip(ops, n - 1);
        assert(op_writable(ops[n - 1]));
        lemma_op_round_trip(ops[n - 1]);
        assert(ops.subrange(0, n - 1).push(ops[n - 1]) =~= ops.subrange(0, n));
    } else {
        assert(ops.subrange(0, 0) =~= Seq::<Op>::empty());
    }
}

/// A rule is read back from its value as it was.
pub proof fn lemma_rule_round_trip(rule: FieldRule)
    requires
        rule_writable(rule),
    ensures
        rule_of_json(rule_json(rule)) == Ok::<FieldRule, Fault>(rule),
{
    lemma_wire_names();
    let fields = rule_json(rule)->Object_0;
    lemma_lookup_at(fields, "source"@, 0);
    lemma_lookup_at(fields, "sources"@, 1);
    lemma_lookup_at(fields, "concat_separator"@, 2);
    lemma_lookup_at(fields, "constant"@, 3);
    lemma_lookup_at(fields, "operations"@, 4);
    lemma_lookup_at(fields, "default"@, 5);
    lemma_lookup_at(fields, "required"@, 6);
    match rule.sources {
        Some(texts) => {
            lemma_texts_round_trip(texts, "sources"@, texts.len() as int);
            assert(texts.subrange(0, texts.len() as int) =~= texts);
            assert(texts_json(texts)->Array_0.len() == texts.len());
        },
        None => {},
    }
    let ops = rule.operations;
    lemma_ops_round_trip(ops, ops.len() as int);
    assert(ops.subrange(0, ops.len() as int) =~= ops);
    assert(ops_json(ops)->Array_0.len() == ops.len());
}

/// Rules by field are read back from their object as they were.
pub proof fn lemma_rules_round_trip(rules: Rules, n: int)
    requires
        rules_writable(rules),
        0 <= n <= rules.len(),
    ensures
        rules_of_json(rules_json(rules)->Object_0, n) == Ok::<Rules, Fault>(rules.subrange(0, n)),
    decreases n,
{
    let fields = rules_json(rules)->Object_0;
    if n > 0 {
        lemma_rules_round_trip(rules, n - 1);
        let head = rules.subrange(0, n - 1);
        assert(fields[n - 1] == (rules[n - 1].0, rule_json(rules[n - 1].1)));
        assert(rule_writable(rules[n - 1].1));
        lemma_rule_round_trip(rules[n - 1].1);
        lemma_index_of_key(head, rules[n - 1].0);
        let k = index_of_key(head, rules[n - 1].0);
        if k < head.len() {
            assert(head[k] == rules[k]);
            assert(rules[k].0 != rules[n - 1].0);
        }
        assert(with_entry(head, rules[n - 1].0, rules[n - 1].1) =~= rules.subrange(0, n));
    } else {
        assert(rules.subrange(0, 0) =~= Seq::<(Seq<char>, FieldRule)>::empty());
    }
}

/// Reads an array of operations.
pub fn read_operations(items: &Vec<Value>) -> (r: Result<Vec<Operation>, WireError>)
    ensures
        match r {
            Ok(ops) => ops_of_json(values_view(items@), items@.len() as int) == Ok::<
                Seq<Op>,
                Fault,
            >(ops_view(ops@)),
            Err(e) => ops_of_json(values_view(items@), items@.len() as int) == Err::<
                Seq<Op>,
                Fault,
            >(e@),
        },
{
    let ghost js = values_view(items@);
    let mut out: Vec<Operation> = Vec::new();
    let mut i: usize = 0;
    assert(ops_view(out@) =~= Seq::<Op>::empty());
    while i < items.len()
        invariant
            i <= items.len(),
            js == values_view(items@),
            ops_of_json(js, i as int) == Ok::<Seq<Op>, Fault>(ops_view(out@)),
        decreases items.len() - i,
    {
        assert(js[i as int] == items@[i as int]@);
        match operation_from_value(&items[i]) {
            Ok(op) => {
                let ghost before = ops_view(out@);
                out.push(op);
                assert(ops_view(out@) =~= before.push(op@));
            },
            Err(e) => {
                proof {
                    lemma_ops_fault_stays(js, i + 1, items@.len() as int);
                }
                return Err(e);
            },
        }
        i += 1;
    }
    Ok(out)
}

/// Operations as an array.
pub fn operations_to_value(ops: &Vec<Operation>) -> (r: Value)
    ensures
        r@ == ops_json(ops_view(ops@)),
{
    let mut out: Vec<Value> = Vec::new();
    let mut i: usize = 0;
    while i < ops.len()
        invariant
            i <= ops.len(),
            out@.len() == i,
            forall|j: int| 0 <= j < i ==> out@[j]@ == op_json(ops@[j]@),
        decreases ops.len() - i,
    {
        out.push(operation_to_value(&ops[i]));
        i += 1;
    }
    proof {
        lemma_view_array(out);
        assert(values_view(out@) =~= ops_json(ops_view(ops@))->Array_0);
    }
    Value::Array(out)
}

fn read_optional_texts(fields: &Vec<Entry>, key: &str) -> (r: Result<Option<Vec<String>>, WireError>)
    ensures
        match r {
            Ok(o) => optional_texts(entries_view(fields@), key@) == Ok::<
                Option<Seq<Seq<char>>>,
                Fault,
            >(option_texts(o)),
            Err(e) => optional_texts(entries_view(fields@), key@) == Err::<
                Option<Seq<Seq<char>>>,
                Fault,
            >(e@),
        },
{
    match get_entry(fields, key) {
        None => Ok(None),
        Some(v) => match v {
            Value::Null => Ok(None),
            _ => match v.as_array() {
                Some(items) => match read_texts(items, key) {
                    Ok(texts) => Ok(Some(texts)),
                    Err(e) => Err(e),
                },
                None => malformed(key),
            },
        },
    }
}

fn read_ops_under(fields: &Vec<Entry>) -> (r: Result<Vec<Operation>, WireError>)
    ensures
        match r {
            Ok(ops) => ops_under(entries_view(fields@)) == Ok::<Seq<Op>, Fault>(ops_view(ops@)),
            Err(e) => ops_under(entries_view(fields@)) == Err::<Seq<Op>, Fault>(e@),
        },
{
    match get_entry(fields, "operations") {
        None => {
            let none: Vec<Operation> = Vec::new();
            assert(ops_view(none@) =~= Seq::<Op>::empty());
            Ok(none)
        },
        Some(v) => match v.as_array() {
            Some(items) => read_operations(items),
            None => malformed("operations"),
        },
    }
}

/// Reads a rule.
pub fn field_transform_from_value(v: &Value) -> (r: Result<FieldTransform, WireError>)
    ensures
        wire_view(r) == rule_of_json(v@),
{
    let fields = match v.as_object() {
        Some(f) => f,
        None => {
            return malformed("transform");
        },
    };
    let source = match read_optional_text(fields, "source") {
        Ok(x) => x,
        Err(e) => {
            return Err(e);
        },
    };
    let sources = match read_optional_texts(fields, "sources") {
        Ok(x) => x,
        Err(e) => {
            return Err(e);
        },
    };
    let concat_separator = match read_text_or(
        fields,
        "concat_separator",
        default_concat_separator(),
    ) {
        Ok(x) => x,
        Err(e) => {
            return Err(e);
        },
    };
    let operations = match read_ops_under(fields) {
        Ok(x) => x,
        Err(e) => {
            return Err(e);
        },
    };
    let required = match read_flag_or(fields, "required", false) {
        Ok(x) => x,
        Err(e) => {
            return Err(e);
        },
    };
    let constant = read_optional_value(fields, "constant");
    let default = read_optional_value(fields, "default");
    Ok(
        FieldTransform {
            source,
            sources,
            concat_separator,
            constant,
            operations,
            default,
            required,
        },
    )
}

/// The value, or null for none.
pub fn value_or_null(o: &Option<Value>) -> (r: Value)
    ensures
        r@ == nullable_json(option_json(*o)),
{
    match o {
        Some(v) => v.clone(),
        None => Value::Null,
    }
}

/// A rule as a value.
pub fn field_transform_to_value(t: &FieldTransform) -> (r: Value)
    ensures
        r@ == rule_json(t@),
{
    let mut fields: Vec<Entry> = Vec::new();
    fields.push(entry("source", text_or_null(&t.source)));
    fields.push(
        entry(
            "sources",
            match &t.sources {
                Some(ss) => texts_to_value(ss),
                None => Value::Null,
            },
        ),
    );
    fields.push(entry("concat_separator", Value::String(t.concat_separator.clone())));
    fields.push(entry("constant", value_or_null(&t.constant)));
    fields.push(entry("operations", operations_to_value(&t.operations)));
    fields.push(entry("default", value_or_null(&t.default)));
    fields.push(entry("required", Value::Bool(t.required)));
    proof {
        lemma_view_object(fields);
        assert(entries_view(fields@) =~= rule_json(t@)->Object_0);
    }
    Value::Object(fields)
}

/// Reads rules by field.
pub fn read_rules(entries: &Vec<Entry>) -> (r: Result<TransformMap, WireError>)
    ensures
        wire_view(r) == rules_of_json(entries_view(entries@), entries@.len() as int),
        r is Ok ==> r->Ok_0.wf(),
{
    let ghost es = entries_view(entries@);
    let mut rules = TransformMap::new();
    let mut i: usize = 0;
    while i < entries.len()
        invariant
            i <= entries.len(),
            es == entries_view(entries@),
            rules.wf(),
            rules_of_json(es, i as int) == Ok::<Rules, Fault>(rules@),
        decreases entries.len() - i,
    {
        assert(es[i as int] == (entries@[i as int].key@, entries@[i as int].value@));
        match field_transform_from_value(&entries[i].value) {
            Ok(rule) => {
                rules.insert(entries[i].key.clone(), rule);
            },
            Err(e) => {
                proof {
                    lemma_rules_fault_stays(es, i + 1, entries@.len() as int);
                }
                return Err(e);
            },
        }
        i += 1;
    }
    Ok(rules)
}

/// Rules by field as an object.
pub fn rules_to_value(rules: &TransformMap) -> (r: Value)
    ensures
        r@ == rules_json(rules@),
{
    let mut out: Vec<Entry> = Vec::new();
    let mut i: usize = 0;
    while i < rules.len()
        invariant
            i <= rules@.len(),
            out@.len() == i,
            forall|j: int|
                0 <= j < i ==> out@[j].key@ == rules@[j].0 && out@[j].value@ == rule_json(
                    rules@[j].1,
                ),
        decreases rules@.len() - i,
    {
        out.push(
            Entry {
                key: rules.key_at(i).clone(),
                value: field_transform_to_value(rules.value_at(i)),
            },
        );
        i += 1;
    }
    proof {
        lemma_view_object(out);
        assert(entries_view(out@) =~= rules_json(rules@)->Object_0);
    }
    Value::Object(out)
}

/// The delimiter under `delimiter`, if any: a text of one character.
pub open spec fn optional_delimiter(fields: Entries) -> Result<Option<char>, Fault> {
    match lookup(fields, "delimiter"@) {
        None => Ok(None),
        Some(Json::Null) => Ok(None),
        Some(Json::String(s)) => if s.len() == 1 {
            Ok(Some(s[0]))
        } else {
            Err(Fault::Malformed("delimiter"@))
        },
        Some(_) => Err(Fault::Malformed("delimiter"@)),
    }
}

/// A character as a text of one character, or null for none.
pub open spec fn nullable_char_json(o: Option<char>) -> Json {
    match o {
        Some(c) => Json::String(seq![c]),
        None => Json::Null,
    }
}

/// A source format as a value.
pub open spec fn format_json(f: SourceFormatView) -> Json {
    Json::Object(
        seq![
            ("delimiter"@, nullable_char_json(f.delimiter)),
            ("encoding"@, nullable_text_json(f.encoding)),
            ("header_rows"@, size_json(f.header_rows)),
        ],
    )
}

/// The source format that a value writes.
pub open spec fn format_of_json(j: Json) -> Result<SourceFormatView, Fault> {
    match j {
        Json::Object(fields) => match optional_delimiter(fields) {
            Err(e) => Err(e),
            Ok(delimiter) => match optional_text(fields, "encoding"@) {
                Err(e) => Err(e),
                Ok(encoding) => match size_or(fields, "header_rows"@, 1) {
                    Err(e) => Err(e),
                    Ok(header_rows) => Ok(SourceFormatView { delimiter, encoding, header_rows }),
                },
            },
        },
        _ => Err(Fault::Malformed("source_format"@)),
    }
}

/// The rules under `overrides`: none where the key is not there.
pub open spec fn overrides_under(fields: Entries) -> Result<Rules, Fault> {
    match lookup(fields, "overrides"@) {
        None => Ok(Seq::empty()),
        Some(Json::Object(entries)) => rules_of_json(entries, entries.len() as int),
        Some(_) => Err(Fault::Malformed("overrides"@)),
    }
}

/// A variant as a value.
pub open spec fn variant_json(v: VariantView) -> Json {
    Json::Object(
        seq![
            ("condition_column"@, nullable_text_json(v.condition_column)),
            ("overrides"@, rules_json(v.overrides)),
        ],
    )
}

/// The variant that a value writes.
pub open spec fn variant_of_json(j: Json) -> Result<VariantView, Fault> {
    match j {
        Json::Object(fields) => match optional_text(fields, "condition_column"@) {
            Err(e) => Err(e),
            Ok(condition_column) => match overrides_under(fields) {
                Err(e) => Err(e),
                Ok(overrides) => Ok(VariantView { condition_column, overrides }),
            },
        },
        _ => Err(Fault::Malformed("variants"@)),
    }
}

/// The first `n` items as variants; the fault of the first that is none.
pub open spec fn variants_of_json(items: Seq<Json>, n: int) -> Result<Seq<VariantView>, Fault>
    decreases n,
{
    if n <= 0 || n > items.len() {
        Ok(Seq::empty())
    } else {
        match variants_of_json(items, n - 1) {
            Err(e) => Err(e),
            Ok(head) => match variant_of_json(items[n - 1]) {
                Ok(v) => Ok(head.push(v)),
                Err(e) => Err(e),
            },
        }
    }
}

/// Variants as an array.
pub open spec fn variants_json(vs: Seq<VariantView>) -> Json {
    Json::Array(Seq::new(vs.len(), |i: int| variant_json(vs[i])))
}

/// An expansion as a value: its kind under `type`, then its parameters.
pub open spec fn expand_json(e: Expansion) -> Json {
    match e {
        Expansion::SplitRole { source, separator, mapping } => tagged(
            "split_role"@,
            seq![
                ("source"@, Json::String(source)),
                ("separator"@, Json::String(separator)),
                ("mapping"@, table_json(mapping)),
            ],
        ),
        Expansion::MultipleColumns { variants } => tagged(
            "multiple_columns"@,
            seq![("variants"@, variants_json(variants))],
        ),
    }
}

/// The expansion by roles that the entries write.
pub open spec fn split_role_of(fields: Entries) -> Result<Expansion, Fault> {
    match text_under(fields, "source"@) {
        Err(e) => Err(e),
        Ok(source) => match text_or(fields, "separator"@, seq!['+']) {
            Err(e) => Err(e),
            Ok(separator) => match table_under(fields, "mapping"@) {
                Err(e) => Err(e),
                Ok(mapping) => Ok(Expansion::SplitRole { source, separator, mapping }),
            },
        },
    }
}

/// The expansion by column groups that the entries write.
pub open spec fn multiple_columns_of(fields: Entries) -> Result<Expansion, Fault> {
    match lookup(fields, "variants"@) {
        None => Err(Fault::Missing("variants"@)),
        Some(Json::Array(items)) => match variants_of_json(items, items.len() as int) {
            Ok(variants) => Ok(Expansion::MultipleColumns { variants }),
            Err(e) => Err(e),
        },
        Some(_) => Err(Fault::Malformed("variants"@)),
    }
}

/// The expansion that a value writes.
pub open spec fn expand_of_json(j: Json) -> Result<Expansion, Fault> {
    match j {
        Json::Object(fields) => match text_under(fields, "type"@) {
            Err(e) => Err(e),
            Ok(tag) => if tag == "split_role"@ {
                split_role_of(fields)
            } else if tag == "multiple_columns"@ {
                multiple_columns_of(fields)
            } else {
                Err(Fault::Malformed("type"@))
            },
        },
        _ => Err(Fault::Malformed("expand"@)),
    }
}

/// A source format as a value, or null for none.
pub open spec fn nullable_format_json(o: Option<SourceFormatView>) -> Json {
    match o {
        Some(f) => format_json(f),
        None => Json::Null,
    }
}

/// An expansion as a value, or null for none.
pub open spec fn nullable_expand_json(o: Option<Expansion>) -> Json {
    match o {
        Some(e) => expand_json(e),
        None => Json::Null,
    }
}

/// A matrix in its wire form: every key, in the order of the form.
pub open spec fn matrix_json(m: MatrixView) -> Json {
    Json::Object(
        seq![
            ("version"@, Json::String(m.version)),
            ("description"@, Json::String(m.description)),
            ("source_format"@, nullable_format_json(m.source_format)),
            ("transforms"@, rules_json(m.transforms)),
            ("expand"@, nullable_expand_json(m.expand)),
        ],
    )
}

/// The source format under `source_format`, if any.
pub open spec fn optional_format(fields: Entries) -> Result<Option<SourceFormatView>, Fault> {
    match lookup(fields, "source_format"@) {
        None => Ok(None),
        Some(Json::Null) => Ok(None),
        Some(j) => match format_of_json(j) {
            Ok(f) => Ok(Some(f)),
            Err(e) => Err(e),
        },
    }
}

/// The expansion under `expand`, if any.
pub open spec fn optional_expand(fields: Entries) -> Result<Option<Expansion>, Fault> {
    match lookup(fields, "expand"@) {
        None => Ok(None),
        Some(Json::Null) => Ok(None),
        Some(j) => match expand_of_json(j) {
            Ok(e) => Ok(Some(e)),
            Err(e) => Err(e),
        },
    }
}

/// The rules under `transforms`, which have to be there.
pub open spec fn transforms_under(fields: Entries) -> Result<Rules, Fault> {
    match lookup(fields, "transforms"@) {
        None => Err(Fault::Missing("transforms"@)),
        Some(Json::Object(entries)) => rules_of_json(entries, entries.len() as int),
        Some(_) => Err(Fault::Malformed("transforms"@)),
    }
}

/// The matrix that a value in the wire form writes. The rules have to be
/// there; the version, the description, the source format and the expansion
/// have defaults; what the form does not know is passed over.
pub open spec fn matrix_of_json(j: Json) -> Result<MatrixView, Fault> {
    match j {
        Json::Object(fields) => match text_or(fields, "version"@, default_version_text()) {
            Err(e) => Err(e),
            Ok(version) => match text_or(fields, "description"@, Seq::empty()) {
                Err(e) => Err(e),
                Ok(description) => match optional_format(fields) {
                    Err(e) => Err(e),
                    Ok(source_format) => match transforms_under(fields) {
                        Err(e) => Err(e),
                        Ok(transforms) => match optional_expand(fields) {
                            Err(e) => Err(e),
                            Ok(expand) => Ok(
                                MatrixView {
                                    version,
                                    description,
                                    source_format,
                                    transforms,
                                    expand,
                                },
                            ),
                        },
                    },
                },
            },
        },
        _ => Err(Fault::Malformed("matrix"@)),
    }
}

/// An expansion can be written and read back.
pub open spec fn expand_writable(e: Expansion) -> bool {
    match e {
        Expansion::SplitRole { source, separator, mapping } => distinct_keys(mapping),
        Expansion::MultipleColumns { variants } => forall|i: int|
            0 <= i < variants.len() ==> rules_writable((#[trigger] variants[i]).overrides),
    }
}

/// A matrix can be written to the wire form and read back: no field, and no
/// key of a lookup table, stands twice; no constant and no default is null,
/// which the wire form cannot tell from a missing one; every size is a size.
pub open spec fn matrix_writable(m: MatrixView) -> bool {
    &&& rules_writable(m.transforms)
    &&& match m.source_format {
        Some(f) => f.header_rows <= usize::MAX,
        None => true,
    }
    &&& match m.expand {
        Some(e) => expand_writable(e),
        None => true,
    }
}

/// A fault among the first items is the fault of the whole array.
pub proof fn lemma_variants_fault_stays(items: Seq<Json>, n: int, m: int)
    requires
        0 <= n <= m <= items.len(),
        variants_of_json(items, n) is Err,
    ensures
        variants_of_json(items, m) == variants_of_json(items, n),
    decreases m - n,
{
    if n < m {
        lemma_variants_fault_stays(items, n, m - 1);
    }
}

/// A variant is read back from its value as it was.
pub proof fn lemma_variant_round_trip(v: VariantView)
    requires
        rules_writable(v.overrides),
    ensures
        variant_of_json(variant_json(v)) == Ok::<VariantView, Fault>(v),
{
    lemma_wire_names();
    let fields = variant_json(v)->Object_0;
    lemma_lookup_at(fields, "condition_column"@, 0);
    lemma_lookup_at(fields, "overrides"@, 1);
    lemma_rules_round_trip(v.overrides, v.overrides.len() as int);
    assert(v.overrides.subrange(0, v.overrides.len() as int) =~= v.overrides);
    assert(rules_json(v.overrides)->Object_0.len() == v.overrides.len());
}

/// Variants are read back from their array as they were.
pub proof fn lemma_variants_round_trip(vs: Seq<VariantView>, n: int)
    requires
        0 <= n <= vs.len(),
        forall|i: int| 0 <= i < vs.len() ==> rules_writable((#[trigger] vs[i]).overrides),
    ensures
        variants_of_json(variants_json(vs)->Array_0, n) == Ok::<Seq<VariantView>, Fault>(
            vs.subrange(0, n),
        ),
    decreases n,
{
    if n > 0 {
        lemma_variants_round_trip(vs, n - 1);
        assert(rules_writable(vs[n - 1].overrides));
        lemma_variant_round_trip(vs[n - 1]);
        assert(vs.subrange(0, n - 1).push(vs[n - 1]) =~= vs.subrange(0, n));
    } else {
        assert(vs.subrange(0, 0) =~= Seq::<VariantView>::empty());
    }
}

/// An expansion is read back from its value as it was.
pub proof fn lemma_expand_round_trip(e: Expansion)
    requires
        expand_writable(e),
    ensures
        expand_of_json(expand_json(e)) == Ok::<Expansion, Fault>(e),
{
    lemma_wire_names();
    let fields = expand_json(e)->Object_0;
    lemma_lookup_at(fields, "type"@, 0);
    match e {
        Expansion::SplitRole { source, separator, mapping } => {
            lemma_lookup_at(fields, "source"@, 1);
            lemma_lookup_at(fields, "separator"@, 2);
            lemma_lookup_at(fields, "mapping"@, 3);
            lemma_table_round_trip(mapping, "mapping"@, mapping.len() as int);
            assert(mapping.subrange(0, mapping.len() as int) =~= mapping);
            assert(table_json(mapping)->Object_0.len() == mapping.len());
        },
        Expansion::MultipleColumns { variants } => {
            lemma_lookup_at(fields, "variants"@, 1);
            lemma_variants_round_trip(variants, variants.len() as int);
            assert(variants.subrange(0, variants.len() as int) =~= variants);
            assert(variants_json(variants)->Array_0.len() == variants.len());
        },
    }
}

/// A source format is read back from its value as it was.
pub proof fn lemma_format_round_trip(f: SourceFormatView)
    requires
        f.header_rows <= usize::MAX,
    ensures
        format_of_json(format_json(f)) == Ok::<SourceFormatView, Fault>(f),
{
    lemma_wire_names();
    let fields = format_json(f)->Object_0;
    lemma_lookup_at(fields, "delimiter"@, 0);
    lemma_lookup_at(fields, "encoding"@, 1);
    lemma_lookup_at(fields, "header_rows"@, 2);
    lemma_size_round_trip(f.header_rows);
}

/// Round trip: a matrix that is written to its wire form and read back is
/// the matrix that was written, field for field.
pub proof fn lemma_matrix_round_trip(m: MatrixView)
    requires
        matrix_writable(m),
    ensures
        matrix_of_json(matrix_json(m)) == Ok::<MatrixView, Fault>(m),
{
    lemma_wire_names();
    let fields = matrix_json(m)->Object_0;
    lemma_lookup_at(fields, "version"@, 0);
    lemma_lookup_at(fields, "description"@, 1);
    lemma_lookup_at(fields, "source_format"@, 2);
    lemma_lookup_at(fields, "transforms"@, 3);
    lemma_lookup_at(fields, "expand"@, 4);
    match m.source_format {
        Some(f) => {
            lemma_format_round_trip(f);
        },
        None => {},
    }
    lemma_rules_round_trip(m.transforms, m.transforms.len() as int);
    assert(m.transforms.subrange(0, m.transforms.len() as int) =~= m.transforms);
    assert(rules_json(m.transforms)->Object_0.len() == m.transforms.len());
    match m.expand {
        Some(e) => {
            lemma_expand_round_trip(e);
        },
        None => {},
    }
}

/// Reads a source format.
pub fn source_format_from_value(v: &Value) -> (r: Result<SourceFormat, WireError>)
    ensures
        wire_view(r) == format_of_json(v@),
{
    let fields = match v.as_object() {
        Some(f) => f,
        None => {
            return malformed("source_format");
        },
    };
    let delimiter = match get_entry(fields, "delimiter") {
        None => None,
        Some(d) => match d {
            Value::Null => None,
            Value::String(s) => {
                let chars = chars_of(s.as_str());
                if chars.len() == 1 {
                    Some(chars[0])
                } else {
                    return malformed("delimiter");
                }
            },
            _ => {
                return malformed("delimiter");
            },
        },
    };
    let encoding = match read_optional_text(fields, "encoding") {
        Ok(x) => x,
        Err(e) => {
            return Err(e);
        },
    };
    let header_rows = match read_size_or(fields, "header_rows", 1) {
        Ok(x) => x,
        Err(e) => {
            return Err(e);
        },
    };
    Ok(SourceFormat { delimiter, encoding, header_rows })
}

/// A source format as a value.
pub fn source_format_to_value(f: &SourceFormat) -> (r: Value)
    ensures
        r@ == format_json(f@),
{
    let mut fields: Vec<Entry> = Vec::new();
    let delimiter = match f.delimiter {
        Some(c) => {
            let mut one: Vec<char> = Vec::new();
            one.push(c);
            assert(one@ =~= seq![c]);
            Value::String(crate::text::string_of(&one))
        },
        None => Value::Null,
    };
    fields.push(entry("delimiter", delimiter));
    fields.push(entry("encoding", text_or_null(&f.encoding)));
    fields.push(entry("header_rows", size_to_value(f.header_rows)));
    proof {
        lemma_view_object(fields);
        assert(entries_view(fields@) =~= format_json(f@)->Object_0);
    }
    Value::Object(fields)
}

/// Reads a variant.
pub fn variant_from_value(v: &Value) -> (r: Result<ColumnVariant, WireError>)
    ensures
        wire_view(r) == variant_of_json(v@),
{
    let fields = match v.as_object() {
        Some(f) => f,
        None => {
            return malformed("variants");
        },
    };
    let condition_column = match read_optional_text(fields, "condition_column") {
        Ok(x) => x,
        Err(e) => {
            return Err(e);
        },
    };
    let overrides = match get_entry(fields, "overrides") {
        None => TransformMap::new(),
        Some(o) => match o.as_object() {
            Some(entries) => match read_rules(entries) {
                Ok(rules) => rules,
                Err(e) => {
                    return Err(e);
                },
            },
            None => {
                return malformed("overrides");
            },
        },
    };
    Ok(ColumnVariant { condition_column, overrides })
}

/// A variant as a value.
pub fn variant_to_value(v: &ColumnVariant) -> (r: Value)
    ensures
        r@ == variant_json(v@),
{
    let mut fields: Vec<Entry> = Vec::new();
    fields.push(entry("condition_column", text_or_null(&v.condition_column)));
    fields.push(entry("overrides", rules_to_value(&v.overrides)));
    proof {
        lemma_view_object(fields);
        assert(entries_view(fields@) =~= variant_json(v@)->Object_0);
    }
    Value::Object(fields)
}

fn read_variants(items: &Vec<Value>) -> (r: Result<Vec<ColumnVariant>, WireError>)
    ensures
        match r {
            Ok(vs) => variants_of_json(values_view(items@), items@.len() as int) == Ok::<
                Seq<VariantView>,
                Fault,
            >(variants_view(vs@)),
            Err(e) => variants_of_json(values_view(items@), items@.len() as int) == Err::<
                Seq<VariantView>,
                Fault,
            >(e@),
        },
{
    let ghost js = values_view(items@);
    let mut out: Vec<ColumnVariant> = Vec::new();
    let mut i: usize = 0;
    assert(variants_view(out@) =~= Seq::<VariantView>::empty());
    while i < items.len()
        invariant
            i <= items.len(),
            js == values_view(items@),
            variants_of_json(js, i as int) == Ok::<Seq<VariantView>, Fault>(variants_view(out@)),
        decreases items.len() - i,
    {
        assert(js[i as int] == items@[i as int]@);
        match variant_from_value(&items[i]) {
            Ok(v) => {
                let ghost before = variants_view(out@);
                out.push(v);
                assert(variants_view(out@) =~= before.push(v@));
            },
            Err(e) => {
                proof {
                    lemma_variants_fault_stays(js, i + 1, items@.len() as int);
                }
                return Err(e);
            },
        }
        i += 1;
    }
    Ok(out)
}

/// Reads an expansion.
pub fn expand_from_value(v: &Value) -> (r: Result<ExpandConfig, WireError>)
    ensures
        wire_view(r) == expand_of_json(v@),
{
    let fields = match v.as_object() {
        Some(f) => f,
        None => {
            return malformed("expand");
        },
    };
    let tag = match read_text(fields, "type") {
        Ok(t) => t,
        Err(e) => {
            return Err(e);
        },
    };
    if str_eq(tag.as_str(), "split_role") {
        let source = match read_text(fields, "source") {
            Ok(x) => x,
            Err(e) => {
                return Err(e);
            },
        };
        let separator = match read_text_or(fields, "separator", default_role_separator()) {
            Ok(x) => x,
            Err(e) => {
                return Err(e);
            },
        };
        let mapping = match read_table(fields, "mapping") {
            Ok(x) => x,
            Err(e) => {
                return Err(e);
            },
        };
        Ok(ExpandConfig::SplitRole { source, separator, mapping })
    } else if str_eq(tag.as_str(), "multiple_columns") {
        match get_entry(fields, "variants") {
            None => missing("variants"),
            Some(vs) => match vs.as_array() {
                Some(items) => match read_variants(items) {
                    Ok(variants) => Ok(ExpandConfig::MultipleColumns { variants }),
                    Err(e) => Err(e),
                },
                None => malformed("variants"),
            },
        }
    } else {
        malformed("type")
    }
}

/// An expansion as a value.
pub fn expand_to_value(e: &ExpandConfig) -> (r: Value)
    ensures
        r@ == expand_json(e@),
{
    let mut rest: Vec<Entry> = Vec::new();
    match e {
        ExpandConfig::SplitRole { source, separator, mapping } => {
            rest.push(entry("source", Value::String(source.clone())));
            rest.push(entry("separator", Value::String(separator.clone())));
            rest.push(entry("mapping", table_to_value(mapping)));
            assert(entries_view(rest@) =~= seq![
                ("source"@, Json::String(source@)),
                ("separator"@, Json::String(separator@)),
                ("mapping"@, table_json(mapping@)),
            ]);
            tagged_object("split_role", rest)
        },
        ExpandConfig::MultipleColumns { variants } => {
            let mut out: Vec<Value> = Vec::new();
            let mut i: usize = 0;
            while i < variants.len()
                invariant
                    i <= variants.len(),
                    out@.len() == i,
                    forall|j: int| 0 <= j < i ==> out@[j]@ == variant_json(variants@[j]@),
                decreases variants.len() - i,
            {
                out.push(variant_to_value(&variants[i]));
                i += 1;
            }
            proof {
                lemma_view_array(out);
                assert(values_view(out@) =~= variants_json(variants_view(variants@))->Array_0);
            }
            rest.push(entry("variants", Value::Array(out)));
            assert(entries_view(rest@) =~= seq![
                ("variants"@, variants_json(variants_view(variants@))),
            ]);
            tagged_object("multiple_columns", rest)
        },
    }
}

impl TransformationMatrix {
    /// Reads a matrix from a value in the wire form.
    pub fn from_value(value: &Value) -> (r: Result<Self, WireError>)
        ensures
            wire_view(r) == matrix_of_json(value@),
            r is Ok ==> r->Ok_0.transforms.wf(),
    {
        let fields = match value.as_object() {
            Some(f) => f,
            None => {
                return malformed("matrix");
            },
        };
        let version = match read_text_or(fields, "version", default_version()) {
            Ok(x) => x,
            Err(e) => {
                return Err(e);
            },
        };
        let description = match read_text_or(fields, "description", String::new()) {
            Ok(x) => x,
            Err(e) => {
                return Err(e);
            },
        };
        let source_format = match get_entry(fields, "source_format") {
            None => None,
            Some(f) => match f {
                Value::Null => None,
                _ => match source_format_from_value(f) {
                    Ok(x) => Some(x),
                    Err(e) => {
                        return Err(e);
                    },
                },
            },
        };
        let transforms = match get_entry(fields, "transforms") {
            None => {
                return missing("transforms");
            },
            Some(t) => match t.as_object() {
                Some(entries) => match read_rules(entries) {
                    Ok(rules) => rules,
                    Err(e) => {
                        return Err(e);
                    },
                },
                None => {
                    return malformed("transforms");
                },
            },
        };
        let expand = match get_entry(fields, "expand") {
            None => None,
            Some(x) => match x {
                Value::Null => None,
                _ => match expand_from_value(x) {
                    Ok(e) => Some(e),
                    Err(e) => {
                        return Err(e);
                    },
                },
            },
        };
        Ok(TransformationMatrix { version, description, source_format, transforms, expand })
    }

    /// The matrix as a value in the wire form.
    pub fn to_value(&self) -> (r: Value)
        ensures
            r@ == matrix_json(self@),
    {
        let mut fields: Vec<Entry> = Vec::new();
        fields.push(entry("version", Value::String(self.version.clone())));
        fields.push(entry("description", Value::String(self.description.clone())));
        fields.push(
            entry(
                "source_format",
                match &self.source_format {
                    Some(f) => source_format_to_value(f),
                    None => Value::Null,
                },
            ),
        );
        fields.push(entry("transforms", rules_to_value(&self.transforms)));
        fields.push(
            entry(
                "expand",
                match &self.expand {
                    Some(e) => expand_to_value(e),
                    None => Value::Null,
                },
            ),
        );
        proof {
            lemma_view_object(fields);
            assert(entries_view(fields@) =~= matrix_json(self@)->Object_0);
        }
        Value::Object(fields)
    }
}

} // verus!
