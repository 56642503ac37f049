//! The table from a watched path to the handles that wait for it.
//!
//! The table is a `dashmap::DashMap`. The listener that owns it is its only
//! user, so what it holds changes only through the calls below.

use vstd::prelude::*;
use dashmap::DashMap;
use crate::utils::model::NotifyMeta;

verus! {

/// A `dashmap::DashMap`; opaque to the verifier.
#[verifier::external_type_specification]
#[verifier::external_body]
#[verifier::reject_recursive_types(K)]
#[verifier::reject_recursive_types(V)]
#[verifier::reject_recursive_types(S)]
pub struct ExDashMap<K, V, S>(DashMap<K, V, S>);

/// What the table holds: for each path that has an entry, its handles in the
/// order in which they were added.
pub uninterp spec fn watch_entries(table: DashMap<String, Vec<NotifyMeta>>) -> Map<
    Seq<char>,
    Seq<NotifyMeta>,
>;

/// An empty table.
///
/// Trusted: calls `DashMap::new`, which makes a map without entries.
#[verifier::external_body]
pub(crate) fn new_table() -> (table: DashMap<String, Vec<NotifyMeta>>)
    ensures
        watch_entries(table) == (Map::<Seq<char>, Seq<NotifyMeta>>::empty()),
{
    DashMap::new()
}

/// Whether the table has an entry for `path`.
///
/// Trusted: calls `DashMap::contains_key`, which says whether the map holds a
/// value for the key.
#[verifier::external_body]
pub(crate) fn table_contains(table: &DashMap<String, Vec<NotifyMeta>>, path: &str) -> (found: bool)
    ensures
        found == watch_entries(*table).dom().contains(path@),
{
    table.contains_key(path)
}

/// The handles entered for `path`, if it has an entry.
///
/// Trusted: calls `DashMap::get`, which returns a reference to the value of
/// the key if the map holds one; the handles behind it are cloned out.
#[verifier::external_body]
pub(crate) fn table_get(table: &DashMap<String, Vec<NotifyMeta>>, path: &str) -> (metas: Option<
    Vec<NotifyMeta>,
>)
    ensures
        metas is Some <==> watch_entries(*table).dom().contains(path@),
        metas is Some ==> metas->0@ == watch_entries(*table)[path@],
{
    table.get(path).map(|entry| entry.value().clone())
}

/// Enters `metas` for `path`, in place of what was entered for it.
///
/// Trusted: calls `DashMap::insert`, which sets the value of the key and
/// leaves every other entry as it was.
#[verifier::external_body]
pub(crate) fn table_insert(
    table: &mut DashMap<String, Vec<NotifyMeta>>,
    path: String,
    metas: Vec<NotifyMeta>,
)
    ensures
        watch_entries(*final(table)) == watch_entries(*old(table)).insert(path@, metas@),
{
    table.insert(path, metas);
}

/// Takes the entry of `path` out of the table.
///
/// Trusted: calls `DashMap::remove`, which removes the entry of the key, if
/// there is one, and leaves every other entry as it was.
#[verifier::external_body]
pub(crate) fn table_remove(table: &mut DashMap<String, Vec<NotifyMeta>>, path: &str)
    ensures
        watch_entries(*final(table)) == watch_entries(*old(table)).remove(path@),
{
    table.remove(path);
}

} // verus!
