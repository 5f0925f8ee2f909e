//! The insertion-ordered map and set of the `indexmap` crate, for string
//! keys and values, as the library uses them.
//!
//! What a map holds is named by its entries in order, each key and value
//! taken by its characters; what a set holds by its items in order.
use vstd::prelude::*;

use indexmap::{IndexMap, IndexSet};

verus! {

/// The map type of `indexmap`, opaque to the proofs: what it holds is
/// known through `map_entries` and the wrappers below.
#[verifier::external_type_specification]
#[verifier::external_body]
#[verifier::reject_recursive_types(K)]
#[verifier::reject_recursive_types(V)]
#[verifier::reject_recursive_types(S)]
pub struct ExIndexMap<K, V, S>(IndexMap<K, V, S>);

/// The set type of `indexmap`, opaque to the proofs: what it holds is
/// known through `set_items` and the wrappers below.
#[verifier::external_type_specification]
#[verifier::external_body]
#[verifier::reject_recursive_types(T)]
#[verifier::reject_recursive_types(S)]
pub struct ExIndexSet<T, S>(IndexSet<T, S>);

/// The entries of a map, in order.
pub uninterp spec fn map_entries(m: IndexMap<String, String>) -> Seq<(Seq<char>, Seq<char>)>;

/// The items of a set, in order.
pub uninterp spec fn set_items(s: IndexSet<String>) -> Seq<Seq<char>>;

/// Where the entry with key `k` stands in `e`, if there is one.
pub open spec fn key_position(e: Seq<(Seq<char>, Seq<char>)>, k: Seq<char>) -> Option<int> {
    if exists|i: int| 0 <= i < e.len() && #[trigger] e[i].0 == k {
        Some(choose|i: int| 0 <= i < e.len() && #[trigger] e[i].0 == k)
    } else {
        None
    }
}

/// The entries `e` after `k` is mapped to `v`: an entry with key `k`
/// keeps its place and takes the value `v`; else the pair is appended.
pub open spec fn inserted_entries(e: Seq<(Seq<char>, Seq<char>)>, k: Seq<char>, v: Seq<char>) -> Seq<
    (Seq<char>, Seq<char>),
> {
    match key_position(e, k) {
        Some(i) => e.update(i, (k, v)),
        None => e.push((k, v)),
    }
}

/// An empty map (`IndexMap::new`).
#[verifier::external_body]
pub(crate) fn string_map_new() -> (ret: IndexMap<String, String>)
    ensures
        map_entries(ret) == Seq::<(Seq<char>, Seq<char>)>::empty(),
{
    IndexMap::new()
}

/// The number of entries of a map (`IndexMap::len`).
#[verifier::external_body]
pub(crate) fn string_map_len(m: &IndexMap<String, String>) -> (ret: usize)
    ensures
        ret == map_entries(*m).len(),
{
    m.len()
}

/// Maps `k` to `v` (`IndexMap::insert`): when an entry with an equal key
/// is there, it keeps its place and its value is replaced and returned;
/// else the pair is appended and `None` returned.
#[verifier::external_body]
pub(crate) fn string_map_insert(m: &mut IndexMap<String, String>, k: String, v: String) -> (ret: Option<String>)
    ensures
        map_entries(*final(m)) == inserted_entries(map_entries(*old(m)), k@, v@),
        match key_position(map_entries(*old(m)), k@) {
            Some(i) => ret matches Some(o) && o@ == map_entries(*old(m))[i].1,
            None => ret is None,
        },
{
    m.insert(k, v)
}

/// A key and its value, borrowed from a map.
pub type EntryRef<'a> = (&'a String, &'a String);

/// The entry at position `i` (`IndexMap::get_index`), `None` past the end.
#[verifier::external_body]
pub(crate) fn string_map_get_index(m: &IndexMap<String, String>, i: usize) -> (ret: Option<EntryRef<'_>>)
    ensures
        ret is Some == (i < map_entries(*m).len()),
        ret matches Some(p) ==> p.0@ == map_entries(*m)[i as int].0 && p.1@ == map_entries(
            *m,
        )[i as int].1,
{
    m.get_index(i)
}

/// An empty set (`IndexSet::new`).
#[verifier::external_body]
pub(crate) fn string_set_new() -> (ret: IndexSet<String>)
    ensures
        set_items(ret) == Seq::<Seq<char>>::empty(),
{
    IndexSet::new()
}

/// The number of items of a set (`IndexSet::len`).
#[verifier::external_body]
pub(crate) fn string_set_len(s: &IndexSet<String>) -> (ret: usize)
    ensures
        ret == set_items(*s).len(),
{
    s.len()
}

/// Adds `x` to a set (`IndexSet::insert`): when an equal item is there the
/// set is unchanged and `false` returned; else `x` is appended and `true`
/// returned.
#[verifier::external_body]
pub(crate) fn string_set_insert(s: &mut IndexSet<String>, x: String) -> (ret: bool)
    ensures
        ret == !set_items(*old(s)).contains(x@),
        set_items(*final(s)) == (if ret {
            set_items(*old(s)).push(x@)
        } else {
            set_items(*old(s))
        }),
{
    s.insert(x)
}

} // verus!
