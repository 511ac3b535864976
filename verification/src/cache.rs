//! The concurrent maps behind the cache, as far as the service relies on them.
//!
//! `dashmap` offers its maps through shared references. The service reaches
//! them through exclusive ones, so that what a map holds is a property of the
//! value at hand and a contract can state how a call changes it.

use dashmap::DashMap;
use dashmap::DashSet;
use vstd::prelude::*;

verus! {

/// `dashmap::DashMap`, a map that is carried through as an opaque value.
#[verifier::external_type_specification]
#[verifier::external_body]
#[verifier::reject_recursive_types(K)]
#[verifier::reject_recursive_types(V)]
#[verifier::reject_recursive_types(S)]
pub struct ExDashMap<K, V, S>(DashMap<K, V, S>);

/// `dashmap::DashSet`, a set that is carried through as an opaque value.
#[verifier::external_type_specification]
#[verifier::external_body]
#[verifier::reject_recursive_types(K)]
#[verifier::reject_recursive_types(S)]
pub struct ExDashSet<K, S>(DashSet<K, S>);

/// What an index holds under a key: a body and, where the entry expires, the
/// second from which it no longer counts.
pub type Entry = (String, Option<u64>);

/// The content of an `Entry`.
pub type EntryView = (Seq<char>, Option<u64>);

/// The content of an index.
pub type Entries = Map<Seq<char>, EntryView>;

/// The keys of a `DashMap` and what it holds under each, keys and bodies as
/// their characters.
pub uninterp spec fn map_entries(map: DashMap<String, (String, Option<u64>)>) -> Map<
    Seq<char>,
    (Seq<char>, Option<u64>),
>;

/// The members of a `DashSet`, as their characters.
pub uninterp spec fn set_members(set: DashSet<String>) -> Set<Seq<char>>;

/// `DashMap::new` makes a map that holds nothing.
#[verifier::external_body]
pub(crate) fn map_new() -> (made: DashMap<String, Entry>)
    ensures
        map_entries(made) == Entries::empty(),
{
    DashMap::new()
}

/// `DashMap::insert` puts the value under the key, in place of what the key
/// held before, and leaves every other key as it was.
#[verifier::external_body]
pub(crate) fn map_insert(
    map: &mut DashMap<String, Entry>,
    key: String,
    body: String,
    deadline: Option<u64>,
)
    ensures
        map_entries(*final(map)) == map_entries(*old(map)).insert(key@, (body@, deadline)),
{
    map.insert(key, (body, deadline));
}

/// `DashMap::get` finds what the key holds; the wrapper hands out a copy and
/// lets go of the map's guard before it returns.
#[verifier::external_body]
pub(crate) fn map_get(map: &DashMap<String, Entry>, key: &str) -> (found: Option<Entry>)
    ensures
        found is Some <==> map_entries(*map).contains_key(key@),
        found matches Some(entry) ==> (entry.0@, entry.1) == map_entries(*map)[key@],
{
    map.get(key).map(|held| held.value().clone())
}

/// `DashSet::new` makes a set without members.
#[verifier::external_body]
pub(crate) fn set_new() -> (made: DashSet<String>)
    ensures
        set_members(made) == Set::<Seq<char>>::empty(),
{
    DashSet::new()
}

/// `DashSet::insert` adds the key in one step and tells whether it was new:
/// it returns `true` exactly when the set did not hold the key before.
#[verifier::external_body]
pub(crate) fn set_insert(set: &mut DashSet<String>, key: String) -> (fresh: bool)
    ensures
        fresh == !set_members(*old(set)).contains(key@),
        set_members(*final(set)) == set_members(*old(set)).insert(key@),
{
    set.insert(key)
}

/// Whether an entry still counts at the second `now`.
pub open spec fn live(entry: EntryView, now: u64) -> bool {
    match entry.1 {
        Some(deadline) => now < deadline,
        None => true,
    }
}

/// The body that an index serves for `key` at the second `now`.
pub open spec fn lookup(entries: Entries, key: Seq<char>, now: u64) -> Option<Seq<char>> {
    if entries.contains_key(key) && live(entries[key], now) {
        Some(entries[key].0)
    } else {
        None
    }
}

/// The bodies of an index, whatever their deadlines.
pub open spec fn bodies(entries: Entries) -> Map<Seq<char>, Seq<char>> {
    Map::new(|key: Seq<char>| entries.contains_key(key), |key: Seq<char>| entries[key].0)
}

} // verus!
