//! Lists of entries keyed by string, read as maps: a later entry for a key
//! overrides an earlier one.
use vstd::prelude::*;

verus! {

/// The map that a keyed list denotes.
pub open spec fn entries_map<V>(entries: Seq<(String, V)>) -> Map<Seq<char>, V>
    decreases entries.len(),
{
    if entries.len() == 0 {
        Map::empty()
    } else {
        entries_map(entries.drop_last()).insert(entries.last().0@, entries.last().1)
    }
}

/// `i` is the last position of `key` in `entries`.
pub open spec fn last_position<V>(entries: Seq<(String, V)>, key: Seq<char>, i: int) -> bool {
    &&& 0 <= i < entries.len()
    &&& entries[i].0@ == key
    &&& forall|j: int| i < j < entries.len() ==> entries[j].0@ != key
}

/// No entry of `entries` has key `key`.
pub open spec fn key_absent<V>(entries: Seq<(String, V)>, key: Seq<char>) -> bool {
    forall|j: int| 0 <= j < entries.len() ==> entries[j].0@ != key
}

pub proof fn lemma_absent_not_in_map<V>(entries: Seq<(String, V)>, key: Seq<char>)
    requires
        key_absent(entries, key),
    ensures
        !entries_map(entries).contains_key(key),
    decreases entries.len(),
{
    if entries.len() > 0 {
        lemma_absent_not_in_map(entries.drop_last(), key);
    }
}

pub proof fn lemma_last_position_value<V>(entries: Seq<(String, V)>, key: Seq<char>, i: int)
    requires
        last_position(entries, key, i),
    ensures
        entries_map(entries).contains_key(key),
        entries_map(entries)[key] == entries[i].1,
    decreases entries.len(),
{
    if i < entries.len() - 1 {
        lemma_last_position_value(entries.drop_last(), key, i);
    }
}

pub proof fn lemma_update_at_last_position<V>(entries: Seq<(String, V)>, key: Seq<char>, i: int, v: V)
    requires
        last_position(entries, key, i),
    ensures
        entries_map(entries.update(i, (entries[i].0, v))) == entries_map(entries).insert(key, v),
    decreases entries.len(),
{
    let updated = entries.update(i, (entries[i].0, v));
    if i == entries.len() - 1 {
        assert(updated.drop_last() =~= entries.drop_last());
        assert(entries_map(updated) =~= entries_map(entries).insert(key, v));
    } else {
        let prefix = entries.drop_last();
        lemma_update_at_last_position(prefix, key, i, v);
        assert(updated.drop_last() =~= prefix.update(i, (entries[i].0, v)));
        assert(entries_map(updated) =~= entries_map(entries).insert(key, v));
    }
}

pub proof fn lemma_push<V>(entries: Seq<(String, V)>, k: String, v: V)
    ensures
        entries_map(entries.push((k, v))) == entries_map(entries).insert(k@, v),
{
    assert(entries.push((k, v)).drop_last() =~= entries);
}

/// Position of the last entry of `entries` keyed `key`.
pub fn find_last<V>(entries: &Vec<(String, V)>, key: &String) -> (r: Option<usize>)
    ensures
        match r {
            Some(i) => last_position(entries@, key@, i as int),
            None => key_absent(entries@, key@),
        },
{
    let mut i: usize = entries.len();
    while i > 0
        invariant
            i <= entries@.len(),
            forall|j: int| i <= j < entries@.len() ==> entries@[j].0@ != key@,
        decreases i,
    {
        i = i - 1;
        if entries[i].0 == *key {
            return Some(i);
        }
    }
    None
}

} // verus!
