//! The ordered map in which prompts are listed: an `indexmap::IndexMap`
//! from id to prompt, seen through the sequence of its entries.

use crate::prompt::{Prompt, PromptView};
use indexmap::IndexMap;
use vstd::prelude::*;

verus! {

/// `indexmap::IndexMap`, of which nothing is seen here but what the
/// functions below say.
#[verifier::external_type_specification]
#[verifier::external_body]
#[verifier::reject_recursive_types(K)]
#[verifier::reject_recursive_types(V)]
#[verifier::reject_recursive_types(S)]
pub struct ExIndexMap<K, V, S>(IndexMap<K, V, S>);

/// The entries of a map, key and value, in the map's order.
pub uninterp spec fn map_entries(m: IndexMap<String, Prompt>) -> Seq<(Seq<char>, PromptView)>;

/// Whether some entry of `entries` has the key `key`.
pub open spec fn has_key(entries: Seq<(Seq<char>, PromptView)>, key: Seq<char>) -> bool {
    exists|i: int| 0 <= i < entries.len() && (#[trigger] entries[i]).0 == key
}

/// `IndexMap::new` makes a map without entries.
#[verifier::external_body]
pub(crate) fn map_new() -> (m: IndexMap<String, Prompt>)
    ensures
        map_entries(m) == Seq::<(Seq<char>, PromptView)>::empty(),
{
    IndexMap::new()
}

/// `IndexMap::insert`: where an equal key is in the map, it keeps its place
/// and its value is replaced; otherwise the pair is added last.
#[verifier::external_body]
pub(crate) fn map_insert(m: &mut IndexMap<String, Prompt>, key: String, value: Prompt)
    ensures
        has_key(map_entries(*old(m)), key@) ==> exists|i: int|
            0 <= i < map_entries(*old(m)).len() && (#[trigger] map_entries(*old(m))[i]).0 == key@
                && map_entries(*final(m)) == map_entries(*old(m)).update(i, (key@, value@)),
        !has_key(map_entries(*old(m)), key@) ==> map_entries(*final(m)) == map_entries(
            *old(m),
        ).push((key@, value@)),
{
    m.insert(key, value);
}

/// `IndexMap::len` is the number of entries.
#[verifier::external_body]
pub(crate) fn map_len(m: &IndexMap<String, Prompt>) -> (n: usize)
    ensures
        n == map_entries(*m).len(),
{
    m.len()
}

/// `IndexMap::is_empty` tells whether the map has no entry.
#[verifier::external_body]
pub(crate) fn map_is_empty(m: &IndexMap<String, Prompt>) -> (r: bool)
    ensures
        r == (map_entries(*m).len() == 0),
{
    m.is_empty()
}

/// `IndexMap::get_index` gives the entry at a position of the map's order,
/// and nothing from the length on.
#[verifier::external_body]
pub(crate) fn map_get_index(m: &IndexMap<String, Prompt>, index: usize) -> (r: Option<
    (&String, &Prompt),
>)
    ensures
        match r {
            Some((key, value)) => index < map_entries(*m).len() && (key@, value@) == map_entries(
                *m,
            )[index as int],
            None => index >= map_entries(*m).len(),
        },
{
    m.get_index(index)
}

/// `IndexMap::get` gives the value stored under a key, if there is one.
#[verifier::external_body]
pub(crate) fn map_get<'a>(m: &'a IndexMap<String, Prompt>, key: &str) -> (r: Option<&'a Prompt>)
    ensures
        r is Some <==> has_key(map_entries(*m), key@),
        r is Some ==> exists|i: int|
            0 <= i < map_entries(*m).len() && #[trigger] map_entries(*m)[i] == (key@, r->0@),
{
    m.get(key)
}

} // verus!
