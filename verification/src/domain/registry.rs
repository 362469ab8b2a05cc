//! The two maps of the registry, from the name of a series to its windows and
//! to its store. They are maps of the crate `dashmap`.

use vstd::prelude::*;
use dashmap::DashMap;
use crate::domain::computation::WindowedComputations;
use crate::domain::storage::Storage;

verus! {

/// The map of the crate `dashmap`. Nothing inside it is seen here: what it
/// holds goes by the names [`windows_held`] and [`storages_held`].
#[verifier::external_type_specification]
#[verifier::external_body]
#[verifier::reject_recursive_types(K)]
#[verifier::reject_recursive_types(V)]
#[verifier::reject_recursive_types(S)]
pub struct ExDashMap<K, V, S>(DashMap<K, V, S>);

/// The entries of a map of windows, by the characters of the key.
pub uninterp spec fn windows_held(map: DashMap<String, WindowedComputations>) -> Map<
    Seq<char>,
    WindowedComputations,
>;

/// The entries of a map of stores, by the characters of the key.
pub uninterp spec fn storages_held(map: DashMap<String, Storage>) -> Map<Seq<char>, Storage>;

/// `DashMap::new`: a map of windows without entries.
#[verifier::external_body]
pub(crate) fn no_windows() -> (registry: DashMap<String, WindowedComputations>)
    ensures
        (windows_held(registry) == Map::<Seq<char>, WindowedComputations>::empty()),
{
    DashMap::new()
}

/// `DashMap::new`: a map of stores without entries.
#[verifier::external_body]
pub(crate) fn no_storages() -> (registry: DashMap<String, Storage>)
    ensures
        (storages_held(registry) == Map::<Seq<char>, Storage>::empty()),
{
    DashMap::new()
}

/// `DashMap::get`: a copy of the windows entered under `name`, and nothing
/// where the map has no such key.
#[verifier::external_body]
pub(crate) fn find_windows(map: &DashMap<String, WindowedComputations>, name: &str) -> (found:
    Option<WindowedComputations>)
    ensures
        found == if windows_held(*map).contains_key(name@) {
            Some(windows_held(*map)[name@])
        } else {
            None
        },
{
    map.get(name).map(|entry| *entry.value())
}

/// `DashMap::insert`: the windows are entered under `name`, in place of
/// what was entered there; every other entry stays.
#[verifier::external_body]
pub(crate) fn put_windows(
    map: &mut DashMap<String, WindowedComputations>,
    name: String,
    windows: WindowedComputations,
)
    ensures
        windows_held(*final(map)) == windows_held(*old(map)).insert(name@, windows),
{
    map.insert(name, windows);
}

/// `DashMap::remove`: the store entered under `name` leaves the map and is
/// handed out, and nothing where the map has no such key; every other entry
/// stays.
#[verifier::external_body]
pub(crate) fn take_storage(map: &mut DashMap<String, Storage>, name: &str) -> (taken: Option<
    Storage,
>)
    ensures
        taken == if storages_held(*old(map)).contains_key(name@) {
            Some(storages_held(*old(map))[name@])
        } else {
            None
        },
        storages_held(*final(map)) == storages_held(*old(map)).remove(name@),
{
    map.remove(name).map(|entry| entry.1)
}

/// `DashMap::insert`: the store is entered under `name`, in place of what
/// was entered there; every other entry stays.
#[verifier::external_body]
pub(crate) fn put_storage(map: &mut DashMap<String, Storage>, name: String, storage: Storage)
    ensures
        storages_held(*final(map)) == storages_held(*old(map)).insert(name@, storage),
{
    map.insert(name, storage);
}

} // verus!
