//! Sets of names, held in an `ahash::AHashSet`, and counts per name, held
//! in an `ahash::AHashMap`.

use vstd::prelude::*;

use ahash::{AHashMap, AHashSet};

verus! {

#[verifier::external_type_specification]
#[verifier::external_body]
#[verifier::reject_recursive_types(T)]
#[verifier::reject_recursive_types(S)]
pub struct ExAHashSet<T, S>(ahash::AHashSet<T, S>);

#[verifier::external_type_specification]
#[verifier::external_body]
pub struct ExRandomState(ahash::RandomState);

/// The names a set holds.
pub uninterp spec fn string_set_contents(s: AHashSet<String>) -> Set<Seq<char>>;

/// Calls `AHashSet::new`: a set that holds nothing.
#[verifier::external_body]
pub(crate) fn string_set_new() -> (r: AHashSet<String>)
    ensures
        string_set_contents(r) == Set::<Seq<char>>::empty(),
{
    AHashSet::new()
}

/// Calls `AHashSet::insert`: the name is in the set afterwards, and the
/// answer says whether it was absent before.
#[verifier::external_body]
pub(crate) fn string_set_insert(s: &mut AHashSet<String>, v: String) -> (r: bool)
    ensures
        r == !string_set_contents(*old(s)).contains(v@),
        string_set_contents(*final(s)) == string_set_contents(*old(s)).insert(v@),
{
    s.insert(v)
}

/// Calls `AHashSet::contains`.
#[verifier::external_body]
pub(crate) fn string_set_contains(s: &AHashSet<String>, v: &str) -> (r: bool)
    ensures
        r == string_set_contents(*s).contains(v@),
{
    s.contains(v)
}


#[verifier::external_type_specification]
#[verifier::external_body]
#[verifier::reject_recursive_types(K)]
#[verifier::reject_recursive_types(V)]
#[verifier::reject_recursive_types(S)]
pub struct ExAHashMap<K, V, S>(ahash::AHashMap<K, V, S>);

/// No name counted.
pub open spec fn no_counts() -> Map<Seq<char>, u64> {
    Map::empty()
}

/// The count per name that a map holds.
pub uninterp spec fn count_map_contents(m: AHashMap<String, u64>) -> Map<Seq<char>, u64>;

/// Calls `AHashMap::new`: a map that holds nothing.
#[verifier::external_body]
pub(crate) fn count_map_new() -> (r: AHashMap<String, u64>)
    ensures
        count_map_contents(r) == no_counts(),
{
    AHashMap::new()
}

/// Calls `AHashMap::get` and copies the count found: the count of the name
/// when the map holds it, nothing otherwise.
#[verifier::external_body]
pub(crate) fn count_map_get(m: &AHashMap<String, u64>, k: &str) -> (r: Option<u64>)
    ensures
        count_map_contents(*m).dom().contains(k@) ==> r == Some(count_map_contents(*m)[k@]),
        !count_map_contents(*m).dom().contains(k@) ==> r is None,
{
    m.get(k).copied()
}

/// Calls `AHashMap::insert`: afterwards the name maps to the count, and the
/// other names keep theirs.
#[verifier::external_body]
pub(crate) fn count_map_insert(m: &mut AHashMap<String, u64>, k: String, v: u64)
    ensures
        count_map_contents(*final(m)) == count_map_contents(*old(m)).insert(k@, v),
{
    m.insert(k, v);
}

/// Calls `HashMap::clear` on the map: it holds nothing afterwards.
#[verifier::external_body]
pub(crate) fn count_map_clear(m: &mut AHashMap<String, u64>)
    ensures
        count_map_contents(*final(m)) == no_counts(),
{
    m.clear();
}

/// Calls `HashMap::iter` on the map and copies each entry out: every name
/// the map holds, once, with its count. The order is the order in which the
/// map is walked, which depends on the hash seed of the process, so nothing
/// is said of it.
#[verifier::external_body]
pub(crate) fn count_map_entries(m: &AHashMap<String, u64>) -> (r: Vec<(String, u64)>)
    ensures
        forall|i: int, j: int| 0 <= i < j < r@.len() ==> r@[i].0@ != r@[j].0@,
        forall|i: int|
            0 <= i < r@.len() ==> count_map_contents(*m).dom().contains(#[trigger] r@[i].0@)
                && count_map_contents(*m)[r@[i].0@] == r@[i].1,
        forall|k: Seq<char>|
            count_map_contents(*m).dom().contains(k) ==> exists|i: int|
                0 <= i < r@.len() && #[trigger] r@[i].0@ == k,
{
    m.iter().map(|(k, v)| (k.clone(), *v)).collect()
}

} // verus!
