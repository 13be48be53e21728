//! The grouper: merges the flat records that share a work code into one work
//! with all its creators.
//!
//! The first record under a code gives the work its scalar fields; later
//! records under the same code never change them. Every record that names a
//! role and carries an identity adds one creator.

use vstd::prelude::*;
use crate::text::str_eq;
use crate::value::{
    Value, Json, Entry, Entries, entries_view, values_view, json_get, lemma_view_object,
    lemma_view_array,
};

verus! {

/// The text under `name`, where the record holds text there.
pub open spec fn text_at(row: Json, name: Seq<char>) -> Option<Seq<char>> {
    match json_get(row, name) {
        Some(Json::String(s)) => Some(s),
        _ => None,
    }
}

/// The integer under `name`, where the record holds one there.
pub open spec fn int_at(row: Json, name: Seq<char>) -> Option<int> {
    match json_get(row, name) {
        Some(Json::Number(n)) => Some(n),
        _ => None,
    }
}

/// The boolean under `name`, where the record holds one there.
pub open spec fn bool_at(row: Json, name: Seq<char>) -> Option<bool> {
    match json_get(row, name) {
        Some(Json::Bool(b)) => Some(b),
        _ => None,
    }
}

/// A work in the making.
pub struct Work {
    pub iswc: Seq<char>,
    pub title: Seq<char>,
    pub creation_year: Option<int>,
    pub instrumental: Option<bool>,
    pub language: Option<Seq<char>>,
    pub bpm: Option<int>,
    pub key: Option<Seq<char>>,
    pub work_type: Option<Seq<char>>,
    pub opus: Option<Seq<char>>,
    pub catalog_number: Option<Seq<char>>,
    pub number_of_voices: Option<int>,
    pub creators: Seq<Json>,
}

/// The text, or the empty text for none.
pub open spec fn text_or(o: Option<Seq<char>>) -> Seq<char> {
    match o {
        Some(s) => s,
        None => Seq::empty(),
    }
}

/// The work that a record seeds: its scalar fields, and no creator yet.
pub open spec fn seed(row: Json) -> Work {
    Work {
        iswc: text_or(text_at(row, "iswc"@)),
        title: text_or(text_at(row, "title"@)),
        creation_year: int_at(row, "creationYear"@),
        instrumental: bool_at(row, "instrumental"@),
        language: text_at(row, "language"@),
        bpm: int_at(row, "bpm"@),
        key: text_at(row, "key"@),
        work_type: text_at(row, "workType"@),
        opus: text_at(row, "opus"@),
        catalog_number: text_at(row, "catalogNumber"@),
        number_of_voices: int_at(row, "numberOfVoices"@),
        creators: Seq::empty(),
    }
}

/// An object of one entry.
pub open spec fn obj1(k: Seq<char>, v: Json) -> Json {
    Json::Object(seq![(k, v)])
}

/// An object of two entries.
pub open spec fn obj2(k1: Seq<char>, v1: Json, k2: Seq<char>, v2: Json) -> Json {
    Json::Object(seq![(k1, v1), (k2, v2)])
}

/// The identity of a creator: by both codes, by one of them, or none.
pub open spec fn party_id(ipi: Option<int>, isni: Option<Seq<char>>) -> Option<Json> {
    match (ipi, isni) {
        (Some(i), Some(s)) => Some(
            obj2(
                "type"@,
                Json::String("Both"@),
                "value"@,
                obj2("ipi"@, Json::Number(i), "isni"@, Json::String(s)),
            ),
        ),
        (Some(i), None) => Some(obj2("type"@, Json::String("Ipi"@), "value"@, Json::Number(i))),
        (None, Some(s)) => Some(obj2("type"@, Json::String("Isni"@), "value"@, Json::String(s))),
        (None, None) => None,
    }
}

/// The creator that a record contributes: one that names a role and carries
/// an identity.
pub open spec fn creator_of(row: Json) -> Option<Json> {
    match text_at(row, "creatorRole"@) {
        Some(role) => match party_id(int_at(row, "creatorIpi"@), text_at(row, "creatorIsni"@)) {
            Some(id) => Some(obj2("id"@, id, "role"@, Json::String(role))),
            None => None,
        },
        None => None,
    }
}

/// The work with the creator of one more record, if it contributes one.
pub open spec fn with_creator(work: Work, row: Json) -> Work {
    match creator_of(row) {
        Some(c) => Work { creators: work.creators.push(c), ..work },
        None => work,
    }
}

/// The entries with one more, where there is a value for it.
pub open spec fn push_opt(fields: Entries, key: Seq<char>, value: Option<Json>) -> Entries {
    match value {
        Some(v) => fields.push((key, v)),
        None => fields,
    }
}

/// A number as a value, if there is one.
pub open spec fn opt_number(o: Option<int>) -> Option<Json> {
    match o {
        Some(n) => Some(Json::Number(n)),
        None => None,
    }
}

/// A boolean as a value, if there is one.
pub open spec fn opt_bool(o: Option<bool>) -> Option<Json> {
    match o {
        Some(b) => Some(Json::Bool(b)),
        None => None,
    }
}

/// A text as a value, if there is one.
pub open spec fn opt_text(o: Option<Seq<char>>) -> Option<Json> {
    match o {
        Some(s) => Some(Json::String(s)),
        None => None,
    }
}

/// A work type as the object that holds it, if there is one.
pub open spec fn opt_work_type(o: Option<Seq<char>>) -> Option<Json> {
    match o {
        Some(s) => Some(obj1("type"@, Json::String(s))),
        None => None,
    }
}

/// What is known of a classical work, where anything is.
pub open spec fn classical_info(work: Work) -> Option<Json> {
    if work.opus is Some || work.catalog_number is Some || work.number_of_voices is Some {
        Some(
            Json::Object(
                push_opt(
                    push_opt(
                        push_opt(Seq::empty(), "opus"@, opt_text(work.opus)),
                        "catalogNumber"@,
                        opt_text(work.catalog_number),
                    ),
                    "numberOfVoices"@,
                    opt_number(work.number_of_voices),
                ),
            ),
        )
    } else {
        None
    }
}

/// The four entries that every grouped work has.
pub open spec fn base_entries(work: Work) -> Entries {
    seq![
        ("iswc"@, Json::String(work.iswc)),
        ("title"@, Json::String(work.title)),
        ("creators"@, Json::Array(work.creators)),
        ("participants"@, Json::Array(Seq::empty())),
    ]
}

/// The entries of a grouped work: the four that are always there, then each
/// optional one that is known.
pub open spec fn built_entries(work: Work) -> Entries {
    let e1 = push_opt(base_entries(work), "creationYear"@, opt_number(work.creation_year));
    let e2 = push_opt(e1, "instrumental"@, opt_bool(work.instrumental));
    let e3 = push_opt(e2, "language"@, opt_text(work.language));
    let e4 = push_opt(e3, "bpm"@, opt_number(work.bpm));
    let e5 = push_opt(e4, "key"@, opt_text(work.key));
    let e6 = push_opt(e5, "workType"@, opt_work_type(work.work_type));
    push_opt(e6, "classicalInfo"@, classical_info(work))
}

/// The grouped work as an object.
pub open spec fn built(work: Work) -> Json {
    Json::Object(built_entries(work))
}

/// Index of the first work at or after `i` under the code `key`, or the
/// number of works.
pub open spec fn find_work(works: Seq<Work>, key: Seq<char>, i: int) -> int
    decreases works.len() - i,
{
    if i < 0 || i >= works.len() {
        works.len() as int
    } else if works[i].iswc == key {
        i
    } else {
        find_work(works, key, i + 1)
    }
}

/// The works after one more record: a record without a code changes nothing;
/// one under a known code adds its creator to that work; one under a new code
/// seeds a new work and adds its creator.
pub open spec fn group_step(works: Seq<Work>, row: Json) -> Seq<Work> {
    match text_at(row, "iswc"@) {
        None => works,
        Some(k) => {
            let i = find_work(works, k, 0);
            if i < works.len() {
                works.update(i, with_creator(works[i], row))
            } else {
                works.push(with_creator(seed(row), row))
            }
        },
    }
}

/// The works after the first `n` records.
pub open spec fn grouped_upto(rows: Seq<Json>, n: int) -> Seq<Work>
    decreases n,
{
    if n <= 0 || n > rows.len() {
        Seq::empty()
    } else {
        group_step(grouped_upto(rows, n - 1), rows[n - 1])
    }
}

/// The grouped works of a batch of records, in order of first appearance.
pub open spec fn grouped(rows: Seq<Json>) -> Seq<Json> {
    let works = grouped_upto(rows, rows.len() as int);
    Seq::new(works.len(), |i: int| built(works[i]))
}

/// First-wins: a record under a code that is already known leaves every scalar
/// field of every work as it was, and the number of works too.
pub proof fn lemma_first_wins(works: Seq<Work>, row: Json, i: int)
    requires
        0 <= i < works.len(),
    ensures
        group_step(works, row).len() >= works.len(),
        group_step(works, row)[i] == (Work {
            creators: group_step(works, row)[i].creators,
            ..works[i]
        }),
        text_at(row, "iswc"@) is Some && find_work(works, text_at(row, "iswc"@)->0, 0)
            < works.len() ==> group_step(works, row).len() == works.len(),
{
    match text_at(row, "iswc"@) {
        None => {},
        Some(k) => {
            lemma_find_work(works, k, 0);
        },
    }
}

/// The search for a code stops within the works, at the first work under
/// the code.
pub proof fn lemma_find_work(works: Seq<Work>, key: Seq<char>, i: int)
    requires
        0 <= i <= works.len(),
    ensures
        i <= find_work(works, key, i) <= works.len(),
        find_work(works, key, i) < works.len() ==> works[find_work(works, key, i)].iswc == key,
        forall|j: int| i <= j < find_work(works, key, i) ==> (#[trigger] works[j]).iswc != key,
    decreases works.len() - i,
{
    if i < works.len() && works[i].iswc != key {
        lemma_find_work(works, key, i + 1);
    }
}

/// Two records under one code, each with a role and an identity, give exactly
/// one work: it has both creators, in order, and the scalar fields of the first
/// record, whatever the second one holds.
pub proof fn lemma_two_records_one_work(a: Json, b: Json)
    requires
        text_at(a, "iswc"@) is Some,
        text_at(a, "iswc"@) == text_at(b, "iswc"@),
        creator_of(a) is Some,
        creator_of(b) is Some,
    ensures
        grouped_upto(seq![a, b], 2).len() == 1,
        grouped_upto(seq![a, b], 2)[0] == (Work {
            creators: seq![creator_of(a)->0, creator_of(b)->0],
            ..seed(a)
        }),
        grouped(seq![a, b]).len() == 1,
{
    let rows = seq![a, b];
    let none = grouped_upto(rows, 0);
    let one = grouped_upto(rows, 1);
    assert(none =~= Seq::empty());
    assert(one == group_step(none, a));
    let k = text_at(a, "iswc"@)->0;
    assert(find_work(none, k, 0) == 0);
    let first = with_creator(seed(a), a);
    assert(one =~= seq![first]);
    assert(first.iswc == k);
    assert(find_work(one, k, 0) == 0);
    let two = grouped_upto(rows, 2);
    assert(two == group_step(one, b));
    assert(two =~= seq![with_creator(first, b)]);
    assert(two[0].creators =~= seq![creator_of(a)->0, creator_of(b)->0]);
}

/// A grouped work never holds null: what is not known is left out.
pub proof fn lemma_no_null_fields(work: Work)
    ensures
        forall|i: int|
            0 <= i < built_entries(work).len() ==> !((#[trigger] built_entries(work)[i]).1 is Null),
{
    let e0 = base_entries(work);
    let e1 = push_opt(e0, "creationYear"@, opt_number(work.creation_year));
    let e2 = push_opt(e1, "instrumental"@, opt_bool(work.instrumental));
    let e3 = push_opt(e2, "language"@, opt_text(work.language));
    let e4 = push_opt(e3, "bpm"@, opt_number(work.bpm));
    let e5 = push_opt(e4, "key"@, opt_text(work.key));
    let e6 = push_opt(e5, "workType"@, opt_work_type(work.work_type));
    let e7 = push_opt(e6, "classicalInfo"@, classical_info(work));
    assert(forall|i: int| 0 <= i < e0.len() ==> !((#[trigger] e0[i]).1 is Null));
    assert(forall|i: int| 0 <= i < e1.len() ==> !((#[trigger] e1[i]).1 is Null));
    assert(forall|i: int| 0 <= i < e2.len() ==> !((#[trigger] e2[i]).1 is Null));
    assert(forall|i: int| 0 <= i < e3.len() ==> !((#[trigger] e3[i]).1 is Null));
    assert(forall|i: int| 0 <= i < e4.len() ==> !((#[trigger] e4[i]).1 is Null));
    assert(forall|i: int| 0 <= i < e5.len() ==> !((#[trigger] e5[i]).1 is Null));
    assert(forall|i: int| 0 <= i < e6.len() ==> !((#[trigger] e6[i]).1 is Null));
    assert(forall|i: int| 0 <= i < e7.len() ==> !((#[trigger] e7[i]).1 is Null));
}

/// An object of two entries.
pub fn object2(k1: &str, v1: Value, k2: &str, v2: Value) -> (r: Value)
    ensures
        r@ == obj2(k1@, v1@, k2@, v2@),
{
    let mut fields: Vec<Entry> = Vec::new();
    fields.push(Entry { key: k1.to_string(), value: v1 });
    fields.push(Entry { key: k2.to_string(), value: v2 });
    proof {
        lemma_view_object(fields);
        assert(entries_view(fields@) =~= seq![(k1@, v1@), (k2@, v2@)]);
    }
    Value::Object(fields)
}

/// An object of one entry.
pub fn object1(k: &str, v: Value) -> (r: Value)
    ensures
        r@ == obj1(k@, v@),
{
    let mut fields: Vec<Entry> = Vec::new();
    fields.push(Entry { key: k.to_string(), value: v });
    proof {
        lemma_view_object(fields);
        assert(entries_view(fields@) =~= seq![(k@, v@)]);
    }
    Value::Object(fields)
}

/// The content of a value, if there is one.
pub open spec fn option_value(o: Option<Value>) -> Option<Json> {
    match o {
        Some(v) => Some(v@),
        None => None,
    }
}

/// The content of a text, if there is one.
pub open spec fn option_string(o: Option<String>) -> Option<Seq<char>> {
    match o {
        Some(s) => Some(s@),
        None => None,
    }
}

/// The integer, if there is one.
pub open spec fn option_int(o: Option<i64>) -> Option<int> {
    match o {
        Some(n) => Some(n as int),
        None => None,
    }
}

/// Adds an entry where there is a value for it.
pub fn push_optional(fields: &mut Vec<Entry>, key: &str, value: Option<Value>)
    ensures
        entries_view(final(fields)@) == push_opt(
            entries_view(old(fields)@),
            key@,
            option_value(value),
        ),
{
    match value {
        Some(v) => {
            let ghost before = entries_view(fields@);
            fields.push(Entry { key: key.to_string(), value: v });
            assert(entries_view(fields@) =~= before.push((key@, v@)));
        },
        None => {},
    }
}

/// The text under `name`, where the record holds text there.
pub fn text_field(row: &Value, name: &str) -> (r: Option<String>)
    ensures
        option_string(r) == text_at(row@, name@),
{
    match row.get(name) {
        Some(v) => match v.as_str() {
            Some(s) => Some(s.to_string()),
            None => None,
        },
        None => None,
    }
}

/// The integer under `name`, where the record holds one there.
pub fn int_field(row: &Value, name: &str) -> (r: Option<i64>)
    ensures
        option_int(r) == int_at(row@, name@),
{
    match row.get(name) {
        Some(v) => v.as_i64(),
        None => None,
    }
}

/// The boolean under `name`, where the record holds one there.
pub fn bool_field(row: &Value, name: &str) -> (r: Option<bool>)
    ensures
        r == bool_at(row@, name@),
{
    match row.get(name) {
        Some(v) => v.as_bool(),
        None => None,
    }
}

fn number_value(o: Option<i64>) -> (r: Option<Value>)
    ensures
        option_value(r) == opt_number(option_int(o)),
{
    match o {
        Some(n) => Some(Value::Number(n)),
        None => None,
    }
}

fn text_value(o: &Option<String>) -> (r: Option<Value>)
    ensures
        option_value(r) == opt_text(option_string(*o)),
{
    match o {
        Some(s) => Some(Value::String(s.clone())),
        None => None,
    }
}

/// Accumulates the creators of one work while grouping.
pub struct WorkBuilder {
    pub iswc: String,
    pub title: String,
    pub creation_year: Option<i64>,
    pub instrumental: Option<bool>,
    pub language: Option<String>,
    pub bpm: Option<i64>,
    pub key: Option<String>,
    pub work_type: Option<String>,
    pub opus: Option<String>,
    pub catalog_number: Option<String>,
    pub number_of_voices: Option<i64>,
    pub creators: Vec<Value>,
}

impl View for WorkBuilder {
    type V = Work;

    open spec fn view(&self) -> Work {
        Work {
            iswc: self.iswc@,
            title: self.title@,
            creation_year: option_int(self.creation_year),
            instrumental: self.instrumental,
            language: option_string(self.language),
            bpm: option_int(self.bpm),
            key: option_string(self.key),
            work_type: option_string(self.work_type),
            opus: option_string(self.opus),
            catalog_number: option_string(self.catalog_number),
            number_of_voices: option_int(self.number_of_voices),
            creators: values_view(self.creators@),
        }
    }
}

/// The works by content.
pub open spec fn works_view(works: Seq<WorkBuilder>) -> Seq<Work> {
    Seq::new(works.len(), |i: int| works[i]@)
}

impl WorkBuilder {
    /// The work that a record seeds.
    pub fn new(row: &Value) -> (r: Self)
        ensures
            r@ == seed(row@),
    {
        let iswc = match text_field(row, "iswc") {
            Some(s) => s,
            None => String::new(),
        };
        let title = match text_field(row, "title") {
            Some(s) => s,
            None => String::new(),
        };
        let r = WorkBuilder {
            iswc,
            title,
            creation_year: int_field(row, "creationYear"),
            instrumental: bool_field(row, "instrumental"),
            language: text_field(row, "language"),
            bpm: int_field(row, "bpm"),
            key: text_field(row, "key"),
            work_type: text_field(row, "workType"),
            opus: text_field(row, "opus"),
            catalog_number: text_field(row, "catalogNumber"),
            number_of_voices: int_field(row, "numberOfVoices"),
            creators: Vec::new(),
        };
        assert(r@.creators =~= Seq::empty());
        r
    }

    /// The creator that a record contributes, if it does.
    pub fn creator_from(row: &Value) -> (r: Option<Value>)
        ensures
            option_value(r) == creator_of(row@),
    {
        let ipi = int_field(row, "creatorIpi");
        let isni = text_field(row, "creatorIsni");
        let role = text_field(row, "creatorRole");
        match role {
            Some(role) => {
                let id = match (ipi, isni) {
                    (Some(ipi), Some(isni)) => object2(
                        "type",
                        Value::text("Both"),
                        "value",
                        object2("ipi", Value::Number(ipi), "isni", Value::String(isni)),
                    ),
                    (Some(ipi), None) => object2(
                        "type",
                        Value::text("Ipi"),
                        "value",
                        Value::Number(ipi),
                    ),
                    (None, Some(isni)) => object2(
                        "type",
                        Value::text("Isni"),
                        "value",
                        Value::String(isni),
                    ),
                    (None, None) => {
                        return None;
                    },
                };
                Some(object2("id", id, "role", Value::String(role)))
            },
            None => None,
        }
    }

    /// Adds the creator of a record, if it contributes one.
    pub fn add_creator(&mut self, row: &Value)
        ensures
            final(self)@ == with_creator(old(self)@, row@),
    {
        match Self::creator_from(row) {
            Some(c) => {
                let ghost before = values_view(self.creators@);
                self.creators.push(c);
                assert(values_view(self.creators@) =~= before.push(c@));
            },
            None => {},
        }
    }

    /// The grouped work as an object.
    pub fn build(self) -> (r: Value)
        ensures
            r@ == built(self@),
    {
        let ghost work = self@;
        let mut obj: Vec<Entry> = Vec::new();
        obj.push(Entry { key: "iswc".to_string(), value: Value::String(self.iswc) });
        obj.push(Entry { key: "title".to_string(), value: Value::String(self.title) });
        proof {
            lemma_view_array(self.creators);
        }
        obj.push(Entry { key: "creators".to_string(), value: Value::Array(self.creators) });
        let none: Vec<Value> = Vec::new();
        proof {
            lemma_view_array(none);
            assert(values_view(none@) =~= Seq::empty());
        }
        obj.push(Entry { key: "participants".to_string(), value: Value::Array(none) });
        assert(entries_view(obj@) =~= base_entries(work));
        push_optional(&mut obj, "creationYear", number_value(self.creation_year));
        push_optional(
            &mut obj,
            "instrumental",
            match self.instrumental {
                Some(b) => Some(Value::Bool(b)),
                None => None,
            },
        );
        push_optional(&mut obj, "language", text_value(&self.language));
        push_optional(&mut obj, "bpm", number_value(self.bpm));
        push_optional(&mut obj, "key", text_value(&self.key));
        push_optional(
            &mut obj,
            "workType",
            match &self.work_type {
                Some(v) => Some(object1("type", Value::String(v.clone()))),
                None => None,
            },
        );
        if self.opus.is_some() || self.catalog_number.is_some() || self.number_of_voices.is_some() {
            let mut classical: Vec<Entry> = Vec::new();
            assert(entries_view(classical@) =~= Seq::empty());
            push_optional(&mut classical, "opus", text_value(&self.opus));
            push_optional(&mut classical, "catalogNumber", text_value(&self.catalog_number));
            push_optional(&mut classical, "numberOfVoices", number_value(self.number_of_voices));
            proof {
                lemma_view_object(classical);
            }
            push_optional(&mut obj, "classicalInfo", Some(Value::Object(classical)));
        }
        proof {
            lemma_view_object(obj);
        }
        Value::Object(obj)
    }
}

/// Position of the first work under the code `key`, or the number of works.
pub fn position_of_work(works: &Vec<WorkBuilder>, key: &str) -> (r: usize)
    ensures
        r == find_work(works_view(works@), key@, 0),
        r <= works@.len(),
{
    let mut i: usize = 0;
    while i < works.len()
        invariant
            i <= works.len(),
            find_work(works_view(works@), key@, 0) == find_work(works_view(works@), key@, i as int),
        decreases works.len() - i,
    {
        assert(works_view(works@)[i as int] == works@[i as int]@);
        if str_eq(works[i].iswc.as_str(), key) {
            return i;
        }
        i += 1;
    }
    i
}

/// Transform a batch of flat records into grouped works, one per work code,
/// in order of first appearance.
pub fn flat_to_grouped(flat_rows: Vec<Value>) -> (r: Vec<Value>)
    ensures
        values_view(r@) == grouped(values_view(flat_rows@)),
{
    let ghost rows = values_view(flat_rows@);
    let mut works: Vec<WorkBuilder> = Vec::new();
    let mut n: usize = 0;
    assert(works_view(works@) =~= grouped_upto(rows, 0));
    while n < flat_rows.len()
        invariant
            n <= flat_rows.len(),
            rows == values_view(flat_rows@),
            works_view(works@) == grouped_upto(rows, n as int),
        decreases flat_rows.len() - n,
    {
        let row = &flat_rows[n];
        assert(rows[n as int] == row@);
        let ghost before = works_view(works@);
        match text_field(row, "iswc") {
            Some(iswc) => {
                let i = position_of_work(&works, iswc.as_str());
                if i < works.len() {
                    let mut builder = works.remove(i);
                    builder.add_creator(row);
                    works.insert(i, builder);
                    assert(works_view(works@) =~= before.update(
                        i as int,
                        with_creator(before[i as int], row@),
                    ));
                } else {
                    let mut builder = WorkBuilder::new(row);
                    builder.add_creator(row);
                    works.push(builder);
                    assert(works_view(works@) =~= before.push(with_creator(seed(row@), row@)));
                }
            },
            None => {},
        }
        n += 1;
    }
    let ghost done = works_view(works@);
    let mut out: Vec<Value> = Vec::new();
    while works.len() > 0
        invariant
            out@.len() + works@.len() == done.len(),
            forall|j: int| 0 <= j < out@.len() ==> out@[j]@ == built(done[j]),
            forall|j: int|
                0 <= j < works@.len() ==> (#[trigger] works@[j])@ == done[out@.len() + j],
        decreases works@.len(),
    {
        let builder = works.remove(0);
        out.push(builder.build());
    }
    assert(values_view(out@) =~= grouped(rows));
    out
}

} // verus!
