//! The concurrent tables, keyed by client address, that the screening
//! rules keep their records in.

use vstd::prelude::*;
use dashmap::DashMap;

verus! {

#[verifier::external_type_specification]
#[verifier::external_body]
#[verifier::reject_recursive_types(K)]
#[verifier::reject_recursive_types(V)]
#[verifier::reject_recursive_types(S)]
pub struct ExDashMap<K, V, S>(DashMap<K, V, S>);

/// What a table of expiry times holds: for each key its value.
pub uninterp spec fn expiries(m: DashMap<String, u64>) -> Map<Seq<char>, u64>;

/// What a table of timestamp lists holds: for each key its list, in order.
pub uninterp spec fn stamps(m: DashMap<String, Vec<u64>>) -> Map<Seq<char>, Seq<u64>>;

/// A table of expiry times without entries.
pub open spec fn no_expiries() -> Map<Seq<char>, u64> {
    Map::empty()
}

/// A table of timestamp lists without entries.
pub open spec fn no_stamps() -> Map<Seq<char>, Seq<u64>> {
    Map::empty()
}

/// `DashMap::with_capacity` makes an empty map.
#[verifier::external_body]
pub(crate) fn expiry_table(capacity: usize) -> (m: DashMap<String, u64>)
    requires
        capacity <= 0x10000,
    ensures
        expiries(m) == no_expiries(),
{
    DashMap::with_capacity(capacity)
}

/// `DashMap::get` finds the value stored under a key, if there is one.
#[verifier::external_body]
pub(crate) fn expiry_get(m: &DashMap<String, u64>, key: &str) -> (r: Option<u64>)
    ensures
        r == (if expiries(*m).dom().contains(key@) {
            Some(expiries(*m)[key@])
        } else {
            None
        }),
{
    m.get(key).map(|e| *e.value())
}

/// `DashMap::insert` stores a value under a key, in place of any value that
/// was stored under it, and leaves the other keys alone.
#[verifier::external_body]
pub(crate) fn expiry_insert(m: &mut DashMap<String, u64>, key: String, value: u64)
    ensures
        expiries(*final(m)) == expiries(*old(m)).insert(key@, value),
{
    m.insert(key, value);
}

/// `DashMap::remove` takes a key and its value out, if the key is there,
/// and leaves the other keys alone.
#[verifier::external_body]
pub(crate) fn expiry_remove(m: &mut DashMap<String, u64>, key: &str)
    ensures
        expiries(*final(m)) == expiries(*old(m)).remove(key@),
{
    m.remove(key);
}

/// `DashMap::new` makes an empty map.
#[verifier::external_body]
pub(crate) fn stamp_table() -> (m: DashMap<String, Vec<u64>>)
    ensures
        stamps(m) == no_stamps(),
{
    DashMap::new()
}

/// `DashMap::with_capacity` makes an empty map.
#[verifier::external_body]
pub(crate) fn stamp_table_with_capacity(capacity: usize) -> (m: DashMap<String, Vec<u64>>)
    requires
        capacity <= 0x10000,
    ensures
        stamps(m) == no_stamps(),
{
    DashMap::with_capacity(capacity)
}

/// `DashMap::get` finds the list stored under a key, if there is one; the
/// list is handed out as a copy.
#[verifier::external_body]
pub(crate) fn stamps_get(m: &DashMap<String, Vec<u64>>, key: &str) -> (r: Option<Vec<u64>>)
    ensures
        r is Some == stamps(*m).dom().contains(key@),
        r is Some ==> r->0@ == stamps(*m)[key@],
{
    m.get(key).map(|e| e.value().clone())
}

/// `DashMap::insert` stores a list under a key, in place of any list that
/// was stored under it, and leaves the other keys alone.
#[verifier::external_body]
pub(crate) fn stamps_insert(m: &mut DashMap<String, Vec<u64>>, key: String, value: Vec<u64>)
    ensures
        stamps(*final(m)) == stamps(*old(m)).insert(key@, value@),
{
    m.insert(key, value);
}

/// `DashMap::remove` takes a key and its list out, if the key is there,
/// and leaves the other keys alone.
#[verifier::external_body]
pub(crate) fn stamps_remove(m: &mut DashMap<String, Vec<u64>>, key: &str)
    ensures
        stamps(*final(m)) == stamps(*old(m)).remove(key@),
{
    m.remove(key);
}

/// `DashMap::iter` visits every entry of the map once, in no particular
/// order: every key that comes out is a key of the map, every key of the
/// map comes out, and none comes out twice.
#[verifier::external_body]
pub(crate) fn stamps_keys(m: &DashMap<String, Vec<u64>>) -> (keys: Vec<String>)
    ensures
        forall|i: int| 0 <= i < keys@.len() ==> stamps(*m).dom().contains(#[trigger] keys@[i]@),
        forall|k: Seq<char>|
            stamps(*m).dom().contains(k) ==> exists|i: int|
                0 <= i < keys@.len() && #[trigger] keys@[i]@ == k,
        forall|i: int, j: int|
            0 <= i < j < keys@.len() ==> #[trigger] keys@[i]@ != #[trigger] keys@[j]@,
{
    m.iter().map(|e| e.key().clone()).collect()
}

} // verus!
