//! Association lists: entries under text keys, kept in insertion order and read
//! by key. The first entry under a key is the one that counts.

use vstd::prelude::*;

verus! {

/// The value of the first entry under `key`, if there is one.
pub open spec fn lookup<V>(fields: Seq<(Seq<char>, V)>, key: Seq<char>) -> Option<V>
    decreases fields.len(),
{
    if fields.len() == 0 {
        None
    } else if fields[0].0 == key {
        Some(fields[0].1)
    } else {
        lookup(fields.drop_first(), key)
    }
}

/// Index of the first entry under `key`, or the number of entries.
pub open spec fn index_of_key<V>(fields: Seq<(Seq<char>, V)>, key: Seq<char>) -> int
    decreases fields.len(),
{
    if fields.len() == 0 {
        0
    } else if fields[0].0 == key {
        0
    } else {
        1 + index_of_key(fields.drop_first(), key)
    }
}

/// Some entry stands under `key`.
pub open spec fn has_key<V>(fields: Seq<(Seq<char>, V)>, key: Seq<char>) -> bool {
    exists|i: int| 0 <= i < fields.len() && #[trigger] fields[i].0 == key
}

/// No key stands twice.
pub open spec fn distinct_keys<V>(fields: Seq<(Seq<char>, V)>) -> bool {
    forall|i: int, j: int|
        0 <= i < j < fields.len() ==> (#[trigger] fields[i]).0 != (#[trigger] fields[j]).0
}

/// The entries with `value` under `key`: in place of the first entry under that
/// key, or at the end where there is none.
pub open spec fn with_entry<V>(fields: Seq<(Seq<char>, V)>, key: Seq<char>, value: V) -> Seq<(Seq<char>, V)> {
    let i = index_of_key(fields, key);
    if i < fields.len() {
        fields.update(i, (key, value))
    } else {
        fields.push((key, value))
    }
}

/// The index of a key is within bounds, points at the first entry under the key
/// where it is a valid index, and `lookup` reads the entry there.
pub proof fn lemma_index_of_key<V>(fields: Seq<(Seq<char>, V)>, key: Seq<char>)
    ensures
        0 <= index_of_key(fields, key) <= fields.len(),
        index_of_key(fields, key) < fields.len() ==> fields[index_of_key(fields, key)].0 == key
            && lookup(fields, key) == Some(fields[index_of_key(fields, key)].1),
        index_of_key(fields, key) == fields.len() ==> lookup(fields, key).is_none(),
        forall|j: int| 0 <= j < index_of_key(fields, key) ==> (#[trigger] fields[j]).0 != key,
        has_key(fields, key) <==> index_of_key(fields, key) < fields.len(),
    decreases fields.len(),
{
    if fields.len() > 0 && fields[0].0 != key {
        let rest = fields.drop_first();
        lemma_index_of_key(rest, key);
        let i = index_of_key(rest, key);
        assert forall|j: int| 0 <= j < i + 1 implies (#[trigger] fields[j]).0 != key by {
            if j > 0 {
                assert(fields[j] == rest[j - 1]);
            }
        }
        if i < rest.len() {
            assert(fields[i + 1] == rest[i]);
        }
        if has_key(fields, key) {
            let w = choose|w: int| 0 <= w < fields.len() && #[trigger] fields[w].0 == key;
            assert(rest[w - 1] == fields[w]);
        }
    }
}

/// The keys of the entries, in order.
pub open spec fn keys_of<V>(fields: Seq<(Seq<char>, V)>) -> Seq<Seq<char>> {
    Seq::new(fields.len(), |i: int| fields[i].0)
}

/// Putting a value under a key keeps the keys distinct, makes the key read as
/// that value, and leaves what every other key reads as it was.
pub proof fn lemma_with_entry<V>(fields: Seq<(Seq<char>, V)>, key: Seq<char>, value: V)
    ensures
        lookup(with_entry(fields, key, value), key) == Some(value),
        forall|other: Seq<char>|
            other != key ==> lookup(with_entry(fields, key, value), other) == lookup(
                fields,
                other,
            ),
        distinct_keys(fields) ==> distinct_keys(with_entry(fields, key, value)),
        with_entry(fields, key, value).len() == if has_key(fields, key) {
            fields.len()
        } else {
            fields.len() + 1
        },
    decreases fields.len(),
{
    let after = with_entry(fields, key, value);
    lemma_index_of_key(fields, key);
    let i = index_of_key(fields, key);
    lemma_lookup_at(after, key, i);
    assert forall|other: Seq<char>| other != key implies lookup(after, other) == lookup(
        fields,
        other,
    ) by {
        lemma_index_of_key(fields, other);
        lemma_index_of_key(after, other);
        let a = index_of_key(fields, other);
        let b = index_of_key(after, other);
        if a < fields.len() {
            assert(after[a].0 == other);
            if b > a {
                assert(after[a].0 != other);
            }
            if b < a {
                assert(fields[b].0 == after[b].0);
            }
        } else {
            if b < after.len() {
                if b < fields.len() {
                    assert(fields[b].0 == after[b].0);
                }
            }
        }
    }
    if distinct_keys(fields) {
        assert forall|a: int, b: int| 0 <= a < b < after.len() implies (#[trigger] after[a]).0 != (
        #[trigger] after[b]).0 by {
            if i < fields.len() {
                assert(after[a].0 == fields[a].0);
                assert(after[b].0 == fields[b].0);
            } else {
                if b < fields.len() {
                    assert(after[a] == fields[a]);
                    assert(after[b] == fields[b]);
                } else {
                    assert(after[a] == fields[a]);
                }
            }
        }
    }
}

/// Where an entry stands under `key` at `i` and none before it, `lookup` reads it.
pub proof fn lemma_lookup_at<V>(fields: Seq<(Seq<char>, V)>, key: Seq<char>, i: int)
    requires
        0 <= i < fields.len(),
        fields[i].0 == key,
        forall|j: int| 0 <= j < i ==> (#[trigger] fields[j]).0 != key,
    ensures
        lookup(fields, key) == Some(fields[i].1),
        index_of_key(fields, key) == i,
{
    lemma_index_of_key(fields, key);
    let k = index_of_key(fields, key);
    if k < i {
        assert(fields[k].0 != key);
    }
}

} // verus!
