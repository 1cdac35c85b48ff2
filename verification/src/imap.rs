//! Insertion-ordered string maps (`indexmap::IndexMap<String, String>`).
//!
//! The map itself is `indexmap`'s; its contents are named by
//! [`index_map_entries`], and each method that the library calls has a wrapper whose
//! contract says, over that name, what the crate's documentation states.
use vstd::prelude::*;
use indexmap::IndexMap;

verus! {

/// `indexmap::IndexMap`, declared so that it can stand in signatures and fields.
#[verifier::external_type_specification]
#[verifier::external_body]
#[verifier::reject_recursive_types(K)]
#[verifier::reject_recursive_types(V)]
#[verifier::reject_recursive_types(S)]
pub struct ExIndexMap<K, V, S>(indexmap::IndexMap<K, V, S>);

/// The key-value pairs of a map, in the map's order.
pub uninterp spec fn index_map_entries(m: IndexMap<String, String>) -> Seq<(Seq<char>, Seq<char>)>;

/// The position of the first pair with key `k`, if any.
pub open spec fn entries_find(es: Seq<(Seq<char>, Seq<char>)>, k: Seq<char>) -> Option<int>
    decreases es.len(),
{
    if es.len() == 0 {
        None
    } else if es.last().0 == k && entries_find(es.drop_last(), k) is None {
        Some(es.len() - 1)
    } else {
        entries_find(es.drop_last(), k)
    }
}

/// The value stored under `k`, if any.
pub open spec fn entries_lookup(es: Seq<(Seq<char>, Seq<char>)>, k: Seq<char>) -> Option<Seq<char>> {
    match entries_find(es, k) {
        Some(i) => Some(es[i].1),
        None => None,
    }
}

/// The pairs after `insert(k, v)`: an existing key keeps its place and takes the new
/// value; a new key goes last.
pub open spec fn entries_insert(es: Seq<(Seq<char>, Seq<char>)>, k: Seq<char>, v: Seq<char>) -> Seq<(Seq<char>, Seq<char>)> {
    match entries_find(es, k) {
        Some(i) => es.update(i, (k, v)),
        None => es.push((k, v)),
    }
}

/// `IndexMap::new`: an empty map.
#[verifier::external_body]
pub(crate) fn map_new() -> (res: IndexMap<String, String>)
    ensures
        index_map_entries(res) == Seq::<(Seq<char>, Seq<char>)>::empty(),
{
    IndexMap::new()
}

/// `IndexMap::insert`: per the crate's documentation, an existing key keeps its place
/// and its value is replaced; a new key is inserted last.
#[verifier::external_body]
pub(crate) fn map_insert(m: &mut IndexMap<String, String>, k: String, v: String)
    ensures
        index_map_entries(*final(m)) == entries_insert(index_map_entries(*old(m)), k@, v@),
{
    m.insert(k, v);
}

/// `IndexMap::clone`: a map with the same pairs in the same order.
#[verifier::external_body]
pub(crate) fn map_clone(m: &IndexMap<String, String>) -> (res: IndexMap<String, String>)
    ensures
        index_map_entries(res) == index_map_entries(*m),
{
    m.clone()
}

/// `IndexMap::get`: the value stored under `k`, if any.
#[verifier::external_body]
pub(crate) fn map_get(m: &IndexMap<String, String>, k: &str) -> (res: Option<String>)
    ensures
        match res {
            Some(v) => entries_lookup(index_map_entries(*m), k@) == Some(v@),
            None => entries_lookup(index_map_entries(*m), k@) is None,
        },
{
    m.get(k).cloned()
}

/// `IndexMap::get_index_mut`: replaces the value at position `i`; the keys and their
/// order stay.
#[verifier::external_body]
pub(crate) fn map_set_index_value(m: &mut IndexMap<String, String>, i: usize, v: String)
    requires
        i < index_map_entries(*old(m)).len(),
    ensures
        index_map_entries(*final(m)) == index_map_entries(*old(m)).update(
            i as int, (index_map_entries(*old(m))[i as int].0, v@)),
{
    *m.get_index_mut(i).unwrap().1 = v;
}

/// `IndexMap::iter`, each pair copied out: the pairs in the map's order.
#[verifier::external_body]
pub(crate) fn map_entries(m: &IndexMap<String, String>) -> (res: Vec<(String, String)>)
    ensures
        res@.map_values(|p: (String, String)| (p.0@, p.1@)) == index_map_entries(*m),
{
    m.iter().map(|(k, v)| (k.clone(), v.clone())).collect()
}

} // verus!
verus! {

/// Finding a key depends only on the keys.
pub proof fn lemma_find_same_keys(es: Seq<(Seq<char>, Seq<char>)>, es2: Seq<(Seq<char>, Seq<char>)>, k: Seq<char>)
    requires
        es.len() == es2.len(),
        forall|j: int| 0 <= j < es.len() ==> #[trigger] es[j].0 == es2[j].0,
    ensures
        entries_find(es, k) == entries_find(es2, k),
    decreases es.len(),
{
    if es.len() > 0 {
        lemma_find_same_keys(es.drop_last(), es2.drop_last(), k);
    }
}

/// A found position holds the key.
pub proof fn lemma_find_in_range(es: Seq<(Seq<char>, Seq<char>)>, k: Seq<char>)
    ensures
        entries_find(es, k) matches Some(i) ==> 0 <= i < es.len() && es[i].0 == k,
        entries_find(es, k) is None ==> forall|j: int| 0 <= j < es.len() ==> #[trigger] es[j].0 != k,
    decreases es.len(),
{
    if es.len() > 0 {
        lemma_find_in_range(es.drop_last(), k);
        assert forall|j: int| 0 <= j < es.len() - 1 implies #[trigger] es[j] == es.drop_last()[j] by {}
    }
}

/// A read of the key just written gives the value written.
pub proof fn lemma_insert_lookup_same(es: Seq<(Seq<char>, Seq<char>)>, k: Seq<char>, v: Seq<char>)
    ensures
        entries_lookup(entries_insert(es, k, v), k) == Some(v),
{
    lemma_find_in_range(es, k);
    match entries_find(es, k) {
        Some(i) => {
            let es2 = es.update(i, (k, v));
            lemma_find_same_keys(es, es2, k);
        },
        None => {
            assert(es.push((k, v)).drop_last() == es);
        },
    }
}

/// A write leaves the other keys as they were.
pub proof fn lemma_insert_lookup_other(es: Seq<(Seq<char>, Seq<char>)>, k: Seq<char>, v: Seq<char>, k2: Seq<char>)
    requires
        k2 != k,
    ensures
        entries_lookup(entries_insert(es, k, v), k2) == entries_lookup(es, k2),
{
    lemma_find_in_range(es, k);
    lemma_find_in_range(es, k2);
    match entries_find(es, k) {
        Some(i) => {
            let es2 = es.update(i, (k, v));
            lemma_find_same_keys(es, es2, k2);
        },
        None => {
            let es2 = es.push((k, v));
            assert(es2.drop_last() == es);
            lemma_find_in_range(es2, k2);
        },
    }
}

} // verus!
