//! The table of channel names of a group: a bidirectional map of the
//! `bimap` crate between names and the encodings of channel keys. The map
//! itself is not verified; this module states what its operations do.

use vstd::prelude::*;

verus! {

/// The bidirectional hash map of the `bimap` crate.
#[verifier::external_type_specification]
#[verifier::external_body]
#[verifier::reject_recursive_types(L)]
#[verifier::reject_recursive_types(R)]
#[verifier::reject_recursive_types(LS)]
#[verifier::reject_recursive_types(RS)]
pub struct ExBiHashMap<L, R, LS, RS>(bimap::BiHashMap<L, R, LS, RS>);

/// The pairs in the map, as a map from each name to its key.
pub uninterp spec fn name_pairs(m: bimap::BiHashMap<String, u64>) -> Map<Seq<char>, u64>;

/// The pairs of a map that holds none.
pub open spec fn no_names() -> Map<Seq<char>, u64> {
    Map::empty()
}

/// Whether some name in `p` is paired with `key`.
pub open spec fn has_key(p: Map<Seq<char>, u64>, key: u64) -> bool {
    exists|n: Seq<char>| #[trigger] p.contains_key(n) && p[n] == key
}

/// The pairs of `p` whose key is not `key`.
pub open spec fn without_key(p: Map<Seq<char>, u64>, key: u64) -> Map<Seq<char>, u64> {
    Map::new(|n: Seq<char>| p.contains_key(n) && p[n] != key, |n: Seq<char>| p[n])
}

/// The pairs of `p` after `name` is paired with `key`: a pair that had the
/// same name or the same key gives way.
pub open spec fn with_pair(p: Map<Seq<char>, u64>, name: Seq<char>, key: u64) -> Map<
    Seq<char>,
    u64,
> {
    without_key(p, key).insert(name, key)
}

/// Whether `entries` lists the pairs of `p`, each once, in some order.
pub open spec fn lists_pairs(entries: Seq<(String, u64)>, p: Map<Seq<char>, u64>) -> bool {
    &&& forall|i: int|
        0 <= i < entries.len() ==> p.contains_key((#[trigger] entries[i]).0@) && p[entries[i].0@]
            == entries[i].1
    &&& forall|i: int, j: int|
        0 <= i < j < entries.len() ==> (#[trigger] entries[i]).0@ != (#[trigger] entries[j]).0@
    &&& forall|n: Seq<char>| #[trigger]
        p.contains_key(n) ==> exists|i: int|
            0 <= i < entries.len() && (#[trigger] entries[i]).0@ == n
}

/// `BiHashMap::new`: a map without pairs.
#[verifier::external_body]
pub(crate) fn names_new() -> (m: bimap::BiHashMap<String, u64>)
    ensures
        name_pairs(m) == no_names(),
{
    bimap::BiHashMap::new()
}

/// `BiHashMap::clone`: a map of its own with the same pairs.
#[verifier::external_body]
pub(crate) fn names_clone(m: &bimap::BiHashMap<String, u64>) -> (r: bimap::BiHashMap<String, u64>)
    ensures
        name_pairs(r) == name_pairs(*m),
{
    m.clone()
}

/// `BiHashMap::get_by_left`, copied out: the key paired with `name`, if any.
#[verifier::external_body]
pub(crate) fn names_get_by_left(m: &bimap::BiHashMap<String, u64>, name: &str) -> (r: Option<u64>)
    ensures
        name_pairs(*m).contains_key(name@) ==> r == Some(name_pairs(*m)[name@]),
        !name_pairs(*m).contains_key(name@) ==> r is None,
{
    m.get_by_left(name).copied()
}

/// `BiHashMap::get_by_right`: the name paired with `key`, if any.
#[verifier::external_body]
pub(crate) fn names_get_by_right(m: &bimap::BiHashMap<String, u64>, key: u64) -> (r: Option<&String>)
    ensures
        r is Some <==> has_key(name_pairs(*m), key),
        r is Some ==> name_pairs(*m).contains_key(r.unwrap()@) && name_pairs(*m)[r.unwrap()@]
            == key,
{
    m.get_by_right(&key)
}

/// `BiHashMap::insert`: `name` and `key` are paired; a pair that had the same
/// name or the same key is dropped.
#[verifier::external_body]
pub(crate) fn names_insert(m: &mut bimap::BiHashMap<String, u64>, name: String, key: u64)
    ensures
        name_pairs(*final(m)) == with_pair(name_pairs(*old(m)), name@, key),
{
    m.insert(name, key);
}

/// `BiHashMap::remove_by_right`: the pair of `key` is dropped and its name
/// handed out; where no name is paired with `key`, nothing changes.
#[verifier::external_body]
pub(crate) fn names_remove_by_right(m: &mut bimap::BiHashMap<String, u64>, key: u64) -> (r: Option<String>)
    ensures
        r is Some <==> has_key(name_pairs(*old(m)), key),
        r is Some ==> name_pairs(*old(m)).contains_key(r.unwrap()@) && name_pairs(*old(m))[r.unwrap()@]
            == key,
        name_pairs(*final(m)) == without_key(name_pairs(*old(m)), key),
{
    m.remove_by_right(&key).map(|pair| pair.0)
}

/// `BiHashMap::iter`, collected: every pair once, names copied, in the order
/// the map happens to walk them.
#[verifier::external_body]
pub(crate) fn names_iter(m: &bimap::BiHashMap<String, u64>) -> (r: Vec<(String, u64)>)
    ensures
        lists_pairs(r@, name_pairs(*m)),
{
    m.iter().map(|(name, key)| (name.clone(), *key)).collect()
}

} // verus!
