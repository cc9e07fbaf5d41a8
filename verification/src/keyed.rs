//! Insertion-ordered name index backed by `indexmap::IndexMap`.
//!
//! The parsers keep their records in a `Vec`, in first-declaration order,
//! and look names up through an `IndexMap<String, usize>` from a record's
//! name to its slot. The map's contents are named by [`index_entries`]; the wrappers below
//! state, over that name, what the `indexmap` methods do.

use indexmap::IndexMap;
use vstd::prelude::*;

verus! {

#[verifier::external_type_specification]
#[verifier::external_body]
#[verifier::reject_recursive_types(K)]
#[verifier::reject_recursive_types(V)]
#[verifier::reject_recursive_types(S)]
pub struct ExIndexMap<K, V, S>(IndexMap<K, V, S>);

/// The entries of a name index in insertion order: the characters of each
/// key with its value.
pub uninterp spec fn index_entries(m: IndexMap<String, usize>) -> Seq<(Seq<char>, usize)>;

/// The position of the first entry at or after `i` whose key is `k`.
pub open spec fn key_position_from(e: Seq<(Seq<char>, usize)>, k: Seq<char>, i: nat) -> Option<
    nat,
>
    decreases e.len() - i,
{
    if i >= e.len() {
        None
    } else if e[i as int].0 == k {
        Some(i)
    } else {
        key_position_from(e, k, i + 1)
    }
}

/// The position of the first entry whose key is `k`.
pub open spec fn key_position(e: Seq<(Seq<char>, usize)>, k: Seq<char>) -> Option<nat> {
    key_position_from(e, k, 0)
}

proof fn lemma_key_position_from(e: Seq<(Seq<char>, usize)>, k: Seq<char>, i: nat)
    ensures
        key_position_from(e, k, i) matches Some(p) ==> i <= p < e.len() && e[p as int].0 == k
            && forall|j: int| i <= j < p ==> e[j].0 != k,
        key_position_from(e, k, i) is None ==> forall|j: int| i <= j < e.len() ==> e[j].0 != k,
    decreases e.len() - i,
{
    if i < e.len() && e[i as int].0 != k {
        lemma_key_position_from(e, k, i + 1);
    }
}

/// What [`key_position`] returns, spelled out.
pub proof fn lemma_key_position(e: Seq<(Seq<char>, usize)>, k: Seq<char>)
    ensures
        key_position(e, k) matches Some(i) ==> i < e.len() && e[i as int].0 == k && forall|j: int|
            0 <= j < i ==> e[j].0 != k,
        key_position(e, k) is None ==> forall|j: int| 0 <= j < e.len() ==> e[j].0 != k,
{
    lemma_key_position_from(e, k, 0);
}

/// [`key_position`] is the first entry with the key, or none when no entry has it.
pub proof fn lemma_key_position_is(e: Seq<(Seq<char>, usize)>, k: Seq<char>, r: Option<nat>)
    requires
        r matches Some(i) ==> i < e.len() && e[i as int].0 == k && forall|j: int|
            0 <= j < i ==> e[j].0 != k,
        r is None ==> forall|j: int| 0 <= j < e.len() ==> e[j].0 != k,
    ensures
        key_position(e, k) == r,
{
    lemma_key_position(e, k);
    match key_position(e, k) {
        Some(p) => {
            match r {
                Some(i) => {
                    if p < i {
                        assert(e[p as int].0 != k);
                    } else if i < p {
                        assert(e[i as int].0 != k);
                    }
                },
                None => {
                    assert(e[p as int].0 != k);
                },
            }
        },
        None => {
            if let Some(i) = r {
                assert(e[i as int].0 != k);
            }
        },
    }
}

/// `IndexMap::new`: an empty map.
#[verifier::external_body]
pub(crate) fn index_new() -> (m: IndexMap<String, usize>)
    ensures
        index_entries(m) == Seq::<(Seq<char>, usize)>::empty(),
{
    IndexMap::new()
}

/// `IndexMap::get_index_of`: the position of the entry whose key equals
/// `key`, if there is one (keys of an `IndexMap` are distinct, so it is the
/// first such entry).
#[verifier::external_body]
pub(crate) fn index_position(m: &IndexMap<String, usize>, key: &str) -> (r: Option<usize>)
    ensures
        match r {
            Some(i) => key_position(index_entries(*m), key@) == Some(i as nat),
            None => key_position(index_entries(*m), key@) is None,
        },
{
    m.get_index_of(key)
}

/// `IndexMap::insert_full`: an existing key keeps its position and takes the
/// new value, returning its position and the old value; a new key is appended
/// last, returning its position and `None`.
#[verifier::external_body]
pub(crate) fn index_insert(m: &mut IndexMap<String, usize>, key: String, value: usize) -> (r: (
    usize,
    Option<usize>,
))
    ensures
        match key_position(index_entries(*old(m)), key@) {
            Some(i) => {
                &&& r.0 == i
                &&& r.1 == Some(index_entries(*old(m))[i as int].1)
                &&& index_entries(*final(m)) == index_entries(*old(m)).update(
                    i as int,
                    (key@, value),
                )
            },
            None => {
                &&& r.0 == index_entries(*old(m)).len()
                &&& r.1 is None
                &&& index_entries(*final(m)) == index_entries(*old(m)).push((key@, value))
            },
        },
{
    m.insert_full(key, value)
}

} // verus!
