//! The persistent ordered map in which table summaries are kept.
//!
//! [`imbl::OrdMap`] is a B-tree whose nodes are shared between clones and
//! copied when they are written to. The functions here are the only ones that
//! call it; what they state of it is believed, not proved.

use crate::table_summaries::TableSummary;
use crate::types::TabletId;
use imbl::OrdMap;
use vstd::prelude::*;

verus! {

/// `imbl::OrdMap` itself, of which nothing but [`summaries_in`] is known.
#[verifier::external_type_specification]
#[verifier::external_body]
#[verifier::reject_recursive_types(K)]
#[verifier::reject_recursive_types(V)]
pub struct ExOrdMap<K, V>(imbl::OrdMap<K, V>);

/// What an ordered map of summaries holds: the summary under each tablet.
pub uninterp spec fn summaries_in(map: imbl::OrdMap<u128, TableSummary>) -> Map<
    u128,
    TableSummary,
>;

/// The tablets of a listing come in ascending order, each once.
pub open spec fn tablets_ascend(entries: Seq<(TabletId, TableSummary)>) -> bool {
    forall|i: int, j: int| 0 <= i < j < entries.len() ==> entries[i].0 < entries[j].0
}

/// The listing holds exactly what the map holds.
pub open spec fn lists_all(
    entries: Seq<(TabletId, TableSummary)>,
    tables: Map<TabletId, TableSummary>,
) -> bool {
    &&& forall|i: int|
        #![trigger entries[i]]
        0 <= i < entries.len() ==> tables.contains_key(entries[i].0) && tables[entries[i].0]
            == entries[i].1
    &&& forall|t: TabletId| #[trigger]
        tables.contains_key(t) ==> exists|i: int|
            0 <= i < entries.len() && (#[trigger] entries[i]).0 == t
}

/// `OrdMap::new`: a map that holds nothing.
#[verifier::external_body]
pub(crate) fn empty_map() -> (created: OrdMap<TabletId, TableSummary>)
    ensures
        summaries_in(created).dom() == Set::<TabletId>::empty(),
{
    OrdMap::new()
}

/// `OrdMap::clone`: a second map that holds the same.
#[verifier::external_body]
pub(crate) fn clone_map(map: &OrdMap<TabletId, TableSummary>) -> (copy: OrdMap<
    TabletId,
    TableSummary,
>)
    ensures
        summaries_in(copy) == summaries_in(*map),
{
    map.clone()
}

/// `OrdMap::get`: what stands under the tablet, or nothing.
#[verifier::external_body]
pub(crate) fn get(map: &OrdMap<TabletId, TableSummary>, tablet_id: TabletId) -> (found: Option<
    TableSummary,
>)
    ensures
        found == (if summaries_in(*map).contains_key(tablet_id) {
            Some(summaries_in(*map)[tablet_id])
        } else {
            None::<TableSummary>
        }),
{
    map.get(&tablet_id).copied()
}

/// `OrdMap::insert`: puts the summary under the tablet and hands back what
/// stood there before.
#[verifier::external_body]
pub(crate) fn insert(
    map: &mut OrdMap<TabletId, TableSummary>,
    tablet_id: TabletId,
    summary: TableSummary,
) -> (replaced: Option<TableSummary>)
    ensures
        summaries_in(*final(map)) == summaries_in(*old(map)).insert(tablet_id, summary),
        replaced == (if summaries_in(*old(map)).contains_key(tablet_id) {
            Some(summaries_in(*old(map))[tablet_id])
        } else {
            None::<TableSummary>
        }),
{
    map.insert(tablet_id, summary)
}

/// `OrdMap::remove`: takes out what stands under the tablet, if anything does,
/// and hands it back.
#[verifier::external_body]
pub(crate) fn remove(map: &mut OrdMap<TabletId, TableSummary>, tablet_id: TabletId) -> (removed:
    Option<TableSummary>)
    ensures
        summaries_in(*final(map)) == summaries_in(*old(map)).remove(tablet_id),
        removed == (if summaries_in(*old(map)).contains_key(tablet_id) {
            Some(summaries_in(*old(map))[tablet_id])
        } else {
            None::<TableSummary>
        }),
{
    map.remove(&tablet_id)
}

/// `OrdMap::iter`: everything in the map, once, from the lowest tablet to the
/// highest.
#[verifier::external_body]
pub(crate) fn entries(map: &OrdMap<TabletId, TableSummary>) -> (entries: Vec<
    (TabletId, TableSummary),
>)
    ensures
        tablets_ascend(entries@),
        lists_all(entries@, summaries_in(*map)),
{
    map.iter().map(|(tablet_id, summary)| (*tablet_id, *summary)).collect()
}

} // verus!
