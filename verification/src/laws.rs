//! What holds of the library as a whole.

use crate::snapshot;
use crate::snapshot::{EnabledIndex, SnapshotView, StorageError};
use crate::snapshot_manager;
use crate::snapshot_manager::{SnapshotManagerView, Versions};
use crate::snapshot_update::{
    PendingUpdate, UpdateError, UpdateEvent, UpdateStage, UpdateStep,
};
use crate::storage::StorageByTable;
use crate::table_mapping;
use crate::table_mapping::{MappedTable, TableKey, TableUpdate, TableUpdateMode};
use crate::table_summaries;
use crate::table_summaries::{TableSummariesView, TableSummary};
use crate::totals;
use crate::types::{DocumentUpdate, Runtime, TabletId, Timestamp};
use vstd::prelude::*;

pub mod summaries;
pub mod tables;
pub mod updates;
pub mod versions;

verus! {

// Table summaries.

/// Taking a document out of a summary undoes putting it in.
pub proof fn law_remove_undoes_insert(summary: TableSummary, size: usize)
    requires
        summary.has_room_for(size),
    ensures
        summary.with_document(size).without_document(size) == Ok::<
            TableSummary,
            table_summaries::SummariesError,
        >(summary),
{
}

/// Deleting a document undoes inserting it, for all that is kept of the
/// tables.
pub proof fn law_delete_undoes_insert(
    before: TableSummariesView,
    tablet_id: TabletId,
    size: usize,
    mapping: Map<TabletId, MappedTable>,
)
    requires
        before.tables.contains_key(tablet_id),
        before.accepts(tablet_id, None, Some(size), None, mapping),
    ensures
        before.updated(tablet_id, None, Some(size), None, mapping) matches Ok(after)
            && after.updated(tablet_id, Some(size), None, None, mapping) == Ok::<
            TableSummariesView,
            table_summaries::SummariesError,
        >(before),
{
    let after = before.updated(tablet_id, None, Some(size), None, mapping)->Ok_0;
    let restored = after.updated(tablet_id, Some(size), None, None, mapping)->Ok_0;
    assert(restored.tables =~= before.tables);
}

/// A write that is taken in changes the summary of the table that it is
/// written to, and that of the table which it creates or drops. All others
/// stay.
pub proof fn law_update_leaves_other_tables(
    before: TableSummariesView,
    tablet_id: TabletId,
    old_size: Option<usize>,
    new_size: Option<usize>,
    table_update: Option<TableUpdate>,
    mapping: Map<TabletId, MappedTable>,
    other: TabletId,
)
    requires
        other != tablet_id,
        table_update matches Some(update) ==> other != update.table_id_and_number.tablet_id,
    ensures
        before.updated(tablet_id, old_size, new_size, table_update, mapping) matches Ok(after)
            ==> after.summary(other) == before.summary(other) && after.tables.contains_key(other)
            == before.tables.contains_key(other),
{
}

/// Whether the write creates the tablet.
pub open spec fn creates(table_update: Option<TableUpdate>, tablet_id: TabletId) -> bool {
    match table_update {
        Some(update) => update.mode == TableUpdateMode::Create
            && update.table_id_and_number.tablet_id == tablet_id,
        None => false,
    }
}

/// Whether the write drops the tablet.
pub open spec fn drops(table_update: Option<TableUpdate>, tablet_id: TabletId) -> bool {
    match table_update {
        Some(update) => update.mode == TableUpdateMode::Drop
            && update.table_id_and_number.tablet_id == tablet_id,
        None => false,
    }
}

/// The summaries stay those of tables that exist when a write is taken in. The
/// mapping may change with the write, but a table with a summary leaves it only
/// when it is dropped, and a table that is created is in it. A write does not
/// drop the table that it is written to.
pub proof fn law_update_keeps_to_existing_tables(
    before: TableSummariesView,
    tablet_id: TabletId,
    old_size: Option<usize>,
    new_size: Option<usize>,
    table_update: Option<TableUpdate>,
    mapping: Map<TabletId, MappedTable>,
)
    requires
        !drops(table_update, tablet_id),
        forall|t: TabletId| #[trigger]
            before.tables.contains_key(t) && !drops(table_update, t) ==> mapping.contains_key(t),
        forall|t: TabletId| #[trigger] creates(table_update, t) ==> mapping.contains_key(t),
    ensures
        before.updated(tablet_id, old_size, new_size, table_update, mapping) matches Ok(after)
            ==> after.tables_exist(mapping),
{
    if before.updated(tablet_id, old_size, new_size, table_update, mapping) is Ok {
        let after = before.updated(tablet_id, old_size, new_size, table_update, mapping)->Ok_0;
        assert forall|t: TabletId| #[trigger]
            after.tables.contains_key(t) implies mapping.contains_key(t) by {
            assert(before.tables.contains_key(t) || creates(table_update, t));
        }
    }
}

/// The counts of user documents stay those of the user tables when a write is
/// taken in. The mapping may change with the write, but not as to which of the
/// tables that keep their summary are system tables. Of a table that is
/// dropped, the update says rightly whether it was a system table; the new
/// mapping need not know it any more.
pub proof fn law_update_keeps_totals(
    before: TableSummariesView,
    tablet_id: TabletId,
    old_size: Option<usize>,
    new_size: Option<usize>,
    table_update: Option<TableUpdate>,
    mapping_before: Map<TabletId, MappedTable>,
    mapping: Map<TabletId, MappedTable>,
)
    requires
        before.totals_agree(mapping_before),
        before.accepts(tablet_id, old_size, new_size, table_update, mapping),
        forall|t: TabletId| #[trigger]
            before.tables.contains_key(t) && !drops(table_update, t) ==> table_mapping::is_system(
                mapping_before,
                t,
            ) == table_mapping::is_system(mapping, t),
        forall|t: TabletId| #[trigger]
            before.tables.contains_key(t) && drops(table_update, t) ==> table_update->Some_0.system
                == table_mapping::is_system(mapping_before, t),
    ensures
        before.updated(tablet_id, old_size, new_size, table_update, mapping) matches Ok(after)
            ==> after.totals_agree(mapping),
{
    if before.updated(tablet_id, old_size, new_size, table_update, mapping) is Ok {
        let after = before.updated(tablet_id, old_size, new_size, table_update, mapping)->Ok_0;
        let between = table_summaries::after_table_update(before.tables, table_update);
        let docs = |s: TableSummary| s.num_values as nat;
        let bytes = |s: TableSummary| s.total_size as nat;
        lemma_totals_as_totals_of(before.tables, mapping_before);
        lemma_totals_as_totals_of(after.tables, mapping);
        match table_update {
            Some(update) => {
                let changed = update.table_id_and_number.tablet_id;
                match update.mode {
                    TableUpdateMode::Create => {
                        let empty = table_summaries::empty_summary();
                        lemma_same_systems(before.tables, mapping_before, mapping, docs);
                        lemma_same_systems(before.tables, mapping_before, mapping, bytes);
                        lemma_put(before.tables, mapping, changed, empty, docs);
                        lemma_put(before.tables, mapping, changed, empty, bytes);
                    },
                    TableUpdateMode::Activate => {
                        lemma_same_systems(before.tables, mapping_before, mapping, docs);
                        lemma_same_systems(before.tables, mapping_before, mapping, bytes);
                    },
                    TableUpdateMode::Drop => {
                        if before.tables.contains_key(changed) {
                            let s = before.tables[changed];
                            assert(drops(table_update, changed));
                            assert(between.insert(changed, s) =~= before.tables);
                            lemma_put(between, mapping_before, changed, s, docs);
                            lemma_put(between, mapping_before, changed, s, bytes);
                        } else {
                            assert(between =~= before.tables);
                        }
                        assert forall|t: TabletId| #[trigger]
                            between.contains_key(t) implies table_mapping::is_system(
                            mapping_before,
                            t,
                        ) == table_mapping::is_system(mapping, t) by {
                            assert(before.tables.contains_key(t));
                        }
                        lemma_same_systems(between, mapping_before, mapping, docs);
                        lemma_same_systems(between, mapping_before, mapping, bytes);
                    },
                }
            },
            None => {
                lemma_same_systems(before.tables, mapping_before, mapping, docs);
                lemma_same_systems(before.tables, mapping_before, mapping, bytes);
            },
        }
        lemma_replace(between, mapping, tablet_id, after.tables[tablet_id], docs);
        lemma_replace(between, mapping, tablet_id, after.tables[tablet_id], bytes);
    }
}

/// The sum of a measure over the user tables.
spec fn total_of(
    tables: Map<TabletId, TableSummary>,
    mapping: Map<TabletId, MappedTable>,
    measure: spec_fn(TableSummary) -> nat,
) -> nat {
    totals::sum_over(
        table_summaries::user_tablets(tables, mapping),
        |t: TabletId| measure(tables[t]),
    )
}

proof fn lemma_totals_as_totals_of(
    tables: Map<TabletId, TableSummary>,
    mapping: Map<TabletId, MappedTable>,
)
    requires
        tables.dom().finite(),
    ensures
        table_summaries::user_documents(tables, mapping) == total_of(
            tables,
            mapping,
            |s: TableSummary| s.num_values as nat,
        ),
        table_summaries::user_bytes(tables, mapping) == total_of(
            tables,
            mapping,
            |s: TableSummary| s.total_size as nat,
        ),
{
    let user = table_summaries::user_tablets(tables, mapping);
    vstd::set_lib::lemma_set_subset_finite(tables.dom(), user);
    let docs = |s: TableSummary| s.num_values as nat;
    let bytes = |s: TableSummary| s.total_size as nat;
    totals::lemma_sum_same_values(
        user,
        |t: TabletId| tables[t].num_values as nat,
        |t: TabletId| docs(tables[t]),
    );
    totals::lemma_sum_same_values(
        user,
        |t: TabletId| tables[t].total_size as nat,
        |t: TabletId| bytes(tables[t]),
    );
}

proof fn lemma_same_systems(
    tables: Map<TabletId, TableSummary>,
    mapping_before: Map<TabletId, MappedTable>,
    mapping: Map<TabletId, MappedTable>,
    measure: spec_fn(TableSummary) -> nat,
)
    requires
        forall|t: TabletId| #[trigger]
            tables.contains_key(t) ==> table_mapping::is_system(mapping_before, t)
                == table_mapping::is_system(mapping, t),
    ensures
        total_of(tables, mapping_before, measure) == total_of(tables, mapping, measure),
{
    assert(table_summaries::user_tablets(tables, mapping_before)
        =~= table_summaries::user_tablets(tables, mapping));
}

/// What a new table adds to a sum.
proof fn lemma_put(
    tables: Map<TabletId, TableSummary>,
    mapping: Map<TabletId, MappedTable>,
    tablet_id: TabletId,
    summary: TableSummary,
    measure: spec_fn(TableSummary) -> nat,
)
    requires
        tables.dom().finite(),
        !tables.contains_key(tablet_id),
    ensures
        total_of(tables.insert(tablet_id, summary), mapping, measure) == total_of(
            tables,
            mapping,
            measure,
        ) + (if table_mapping::is_system(mapping, tablet_id) {
            0
        } else {
            measure(summary)
        }),
{
    let more = tables.insert(tablet_id, summary);
    let user = table_summaries::user_tablets(tables, mapping);
    let user_more = table_summaries::user_tablets(more, mapping);
    vstd::set_lib::lemma_set_subset_finite(tables.dom(), user);
    let f = |t: TabletId| measure(tables[t]);
    let g = |t: TabletId| measure(more[t]);
    totals::lemma_sum_same_values(user, f, g);
    if table_mapping::is_system(mapping, tablet_id) {
        assert(user_more =~= user);
    } else {
        totals::lemma_sum_insert(user, g, tablet_id);
        assert(user_more =~= user.insert(tablet_id));
    }
}

/// What another summary for a table changes in a sum.
proof fn lemma_replace(
    tables: Map<TabletId, TableSummary>,
    mapping: Map<TabletId, MappedTable>,
    tablet_id: TabletId,
    summary: TableSummary,
    measure: spec_fn(TableSummary) -> nat,
)
    requires
        tables.dom().finite(),
        tables.contains_key(tablet_id),
    ensures
        table_mapping::is_system(mapping, tablet_id) ==> total_of(
            tables.insert(tablet_id, summary),
            mapping,
            measure,
        ) == total_of(tables, mapping, measure),
        !table_mapping::is_system(mapping, tablet_id) ==> total_of(
            tables.insert(tablet_id, summary),
            mapping,
            measure,
        ) + measure(tables[tablet_id]) == total_of(tables, mapping, measure) + measure(summary),
{
    let rest = tables.remove(tablet_id);
    assert(rest.insert(tablet_id, tables[tablet_id]) =~= tables);
    assert(rest.insert(tablet_id, summary) =~= tables.insert(tablet_id, summary));
    lemma_put(rest, mapping, tablet_id, tables[tablet_id], measure);
    lemma_put(rest, mapping, tablet_id, summary, measure);
}

// User tables and their storage.

/// Where the summaries are those of tables that exist, the user tables can be
/// listed and their storage told.
pub proof fn law_existing_tables_are_mapped<RT: Runtime>(view: SnapshotView<RT>)
    requires
        view.table_summaries.tables_exist(view.mapping()),
    ensures
        view.active_tables_mapped(),
{
}

/// How many documents the tables of a list hold.
pub open spec fn listed_documents(listing: Seq<(TableKey, TableSummary)>) -> nat
    decreases listing.len(),
{
    if listing.len() == 0 {
        0
    } else {
        listed_documents(listing.drop_last()) + listing.last().1.num_values as nat
    }
}

/// How large the documents in the tables of a list are.
pub open spec fn listed_bytes(listing: Seq<(TableKey, TableSummary)>) -> nat
    decreases listing.len(),
{
    if listing.len() == 0 {
        0
    } else {
        listed_bytes(listing.drop_last()) + listing.last().1.total_size as nat
    }
}

/// The documents in the user tables that are listed are among those that the
/// summaries count as user documents, and so is their size. Where every tablet
/// that counts as a user's is in the active state, they are all of them.
pub proof fn law_user_tables_are_counted<RT: Runtime>(
    view: SnapshotView<RT>,
    listing: Seq<(TableKey, TableSummary)>,
)
    requires
        view.table_summaries.totals_agree(view.mapping()),
        view.is_listing(listing),
    ensures
        listed_documents(listing) <= view.table_summaries.num_user_documents,
        listed_bytes(listing) <= view.table_summaries.user_size,
        (forall|t: TabletId| #[trigger]
            table_summaries::user_tablets(
                view.table_summaries.tables,
                view.mapping(),
            ).contains(t) ==> view.table_registry.state_is_active(t)) ==> {
            &&& listed_documents(listing) == view.table_summaries.num_user_documents
            &&& listed_bytes(listing) == view.table_summaries.user_size
        },
{
    let tables = view.table_summaries.tables;
    let user = table_summaries::user_tablets(tables, view.mapping());
    let tablets = choose|tablets: Seq<TabletId>| #[trigger]
        view.are_user_tablets(tablets) && listing == view.describe(tablets);
    let active = tablets.to_set();
    vstd::set_lib::lemma_set_subset_finite(tables.dom(), user);
    assert forall|t: TabletId| #[trigger] active.contains(t) implies user.contains(t) by {
        assert(tablets.contains(t));
    }
    lemma_listed(view, tablets);
    totals::lemma_sum_subset(active, user, |t: TabletId| tables[t].num_values as nat);
    totals::lemma_sum_subset(active, user, |t: TabletId| tables[t].total_size as nat);
    if forall|t: TabletId| #[trigger] user.contains(t) ==> view.table_registry.state_is_active(t) {
        assert forall|t: TabletId| #[trigger] user.contains(t) implies active.contains(t) by {
            assert(view.is_user_table(t));
            assert(tablets.contains(t));
        }
        assert(active =~= user);
    }
}

/// What the tables of a list hold is what its tablets hold.
proof fn lemma_listed<RT: Runtime>(view: SnapshotView<RT>, tablets: Seq<TabletId>)
    requires
        forall|i: int, j: int| 0 <= i < j < tablets.len() ==> tablets[i] < tablets[j],
    ensures
        listed_documents(view.describe(tablets)) == totals::sum_over(
            tablets.to_set(),
            |t: TabletId| view.table_summaries.tables[t].num_values as nat,
        ),
        listed_bytes(view.describe(tablets)) == totals::sum_over(
            tablets.to_set(),
            |t: TabletId| view.table_summaries.tables[t].total_size as nat,
        ),
    decreases tablets.len(),
{
    let docs = |t: TabletId| view.table_summaries.tables[t].num_values as nat;
    let bytes = |t: TabletId| view.table_summaries.tables[t].total_size as nat;
    vstd::seq_lib::seq_to_set_is_finite(tablets);
    if tablets.len() == 0 {
        assert(tablets.to_set() =~= Set::empty());
    } else {
        let rest = tablets.drop_last();
        let last = tablets.last();
        lemma_listed(view, rest);
        vstd::seq_lib::seq_to_set_is_finite(rest);
        assert(view.describe(tablets).drop_last() =~= view.describe(rest));
        assert(!rest.to_set().contains(last));
        assert(tablets.to_set() =~= rest.to_set().insert(last)) by {
            assert(tablets =~= rest.push(last));
            assert forall|t: TabletId| rest.to_set().insert(last).contains(
                t,
            ) implies tablets.to_set().contains(t) by {
                if t == last {
                    assert(tablets[tablets.len() - 1] == t);
                } else {
                    let i = choose|i: int| 0 <= i < rest.len() && rest[i] == t;
                    assert(tablets[i] == t);
                }
            }
        }
        totals::lemma_sum_insert(rest.to_set(), docs, last);
        totals::lemma_sum_insert(rest.to_set(), bytes, last);
    }
}

/// Storage is told of exactly the names of the user tables.
pub proof fn law_storage_names_the_user_tables<RT: Runtime>(view: SnapshotView<RT>, key: TableKey)
    requires
        view.table_summaries.tables.dom().finite(),
    ensures
        view.storage().contains_key(key) <==> exists|t: TabletId|
            view.is_user_table(t) && #[trigger] view.mapping()[t].key() == key,
{
    if view.storage().contains_key(key) {
        let t = choose|t: TabletId| #[trigger] view.is_last_named(t, key);
        assert(view.mapping()[t].key() == key);
    }
    if exists|t: TabletId| view.is_user_table(t) && #[trigger] view.mapping()[t].key() == key {
        let t = choose|t: TabletId|
            view.is_user_table(t) && #[trigger] view.mapping()[t].key() == key;
        let named = Set::new(
            |u: TabletId| view.is_user_table(u) && view.mapping()[u].key() == key,
        );
        vstd::set_lib::lemma_set_subset_finite(view.table_summaries.tables.dom(), named);
        let last = lemma_highest(named, t);
        assert forall|u: TabletId|
            view.is_user_table(u) && #[trigger] view.mapping()[u].key() == key implies u
            <= last by {
            assert(named.contains(u));
        }
        assert(view.is_last_named(last, key));
    }
}

/// A finite set has a highest element.
proof fn lemma_highest(s: Set<TabletId>, some: TabletId) -> (last: TabletId)
    requires
        s.finite(),
        s.contains(some),
    ensures
        s.contains(last),
        forall|u: TabletId| #[trigger] s.contains(u) ==> u <= last,
    decreases s.len(),
{
    if s.remove(some).len() == 0 {
        assert forall|u: TabletId| #[trigger] s.contains(u) implies u <= some by {
            if u != some {
                assert(s.remove(some).contains(u));
            }
        }
        some
    } else {
        let other = s.remove(some).choose();
        let last = lemma_highest(s.remove(some), other);
        let highest = if last < some {
            some
        } else {
            last
        };
        assert forall|u: TabletId| #[trigger] s.contains(u) implies u <= highest by {
            if u != some {
                assert(s.remove(some).contains(u));
            }
        }
        highest
    }
}

/// Where the active state is that of the tablets which their names stand for,
/// the document storage of a user table is the size of that table.
pub proof fn law_document_storage_is_the_size_of_the_table<RT: Runtime>(
    view: SnapshotView<RT>,
    t: TabletId,
)
    requires
        table_mapping::names_are_unambiguous(view.mapping()),
        forall|u: TabletId| #[trigger]
            view.table_registry.state_is_active(u) ==> table_mapping::is_active(view.mapping(), u),
        view.is_user_table(t),
    ensures
        view.storage().contains_key(view.mapping()[t].key()),
        view.storage()[view.mapping()[t].key()].0 == view.table_summaries.tables[t].total_size,
{
    let key = view.mapping()[t].key();
    assert forall|u: TabletId|
        view.is_user_table(u) && #[trigger] view.mapping()[u].key() == key implies u <= t by {
        assert(view.table_registry.state_is_active(u));
        assert(view.table_registry.state_is_active(t));
        assert(view.mapping()[u].key() == view.mapping()[t].key());
    }
    assert(view.is_last_named(t, key));
    let c = choose|c: TabletId| #[trigger] view.is_last_named(c, key);
    assert(view.is_last_named(c, key));
    assert(view.mapping()[c].key() == key && view.mapping()[t].key() == key);
}

/// `more` has the tables of `view`, and one more index in use, at some place
/// among those of `view`.
pub open spec fn has_one_more_index<RT: Runtime>(
    more: SnapshotView<RT>,
    view: SnapshotView<RT>,
    pos: int,
    index: EnabledIndex,
) -> bool {
    &&& 0 <= pos <= view.index_registry.enabled@.len()
    &&& more.index_registry.enabled@ == view.index_registry.enabled@.insert(pos, index)
    &&& more.table_registry == view.table_registry
    &&& more.table_summaries == view.table_summaries
}

/// An index on a table that is not active, or one that the database owns,
/// costs no table anything, wherever it stands among the indexes: the same
/// storage, or the same error, is told with it and without it, and under the
/// same conditions.
pub proof fn law_only_user_indexes_on_active_tables_cost<RT: Runtime>(
    view: SnapshotView<RT>,
    more: SnapshotView<RT>,
    pos: int,
    index: EnabledIndex,
    told: Result<StorageByTable, StorageError>,
)
    requires
        has_one_more_index(more, view, pos, index),
        !view.mapping().contains_key(index.tablet_id) || !view.mapping()[index.tablet_id].active
            || index.system_owned,
    ensures
        more.active_tables_mapped() == view.active_tables_mapped(),
        more.index_sizes_fit() == view.index_sizes_fit(),
        more.storage_result(told) == view.storage_result(told),
{
    let len = view.index_registry.enabled@.len() as int;
    lemma_one_more_index(view, more, pos, index);
    lemma_one_more_index_size(view, more, pos, index);
    lemma_fits_without_the_index(view, more, pos, index);
    if view.index_sizes_fit() {
        assert forall|n: int, k: TableKey|
            0 <= n <= more.index_registry.enabled@.len() && more.none_stray(n)
                && more.document_sizes().contains_key(k) implies #[trigger] more.index_size(n, k)
            <= usize::MAX by {
            assert(view.none_stray(place_without(n, pos)));
            assert(view.index_size(place_without(n, pos), k) <= usize::MAX);
        }
    }
    assert(more.storage() =~= view.storage()) by {
        assert forall|k: TableKey| #[trigger] view.storage().contains_key(k) implies more.storage()[k]
            == view.storage()[k] by {
            assert(more.index_size(len + 1, k) == view.index_size(place_without(len + 1, pos), k));
        }
    }
    assert(more.none_stray(len + 1) == view.none_stray(place_without(len + 1, pos)));
    if let Err(error) = told {
        lemma_same_error(view, more, pos, index, error);
    }
}

/// A user's index on a user table costs that table as much as its documents
/// take up, and no other table anything, wherever it stands among the indexes
/// and where the sizes fit. Where an error is told, the same is told with it
/// and without it.
pub proof fn law_a_user_index_costs_the_size_of_its_table<RT: Runtime>(
    view: SnapshotView<RT>,
    more: SnapshotView<RT>,
    pos: int,
    index: EnabledIndex,
    told: Result<StorageByTable, StorageError>,
    told_more: Result<StorageByTable, StorageError>,
)
    requires
        has_one_more_index(more, view, pos, index),
        view.mapping().contains_key(index.tablet_id),
        view.mapping()[index.tablet_id].active,
        !view.mapping()[index.tablet_id].system,
        !index.system_owned,
        view.table_summaries.tables.contains_key(index.tablet_id),
        view.table_registry.tablet_states@.contains_key(index.tablet_id),
        view.table_registry.tablet_states@[index.tablet_id] is Active,
        view.table_summaries.tables.dom().finite(),
        more.index_sizes_fit(),
        view.storage_result(told),
        more.storage_result(told_more),
    ensures
        view.index_sizes_fit(),
        told is Ok <==> told_more is Ok,
        told matches Ok(storage) ==> {
            let key = view.mapping()[index.tablet_id].key();
            let (document_size, index_size) = storage@[key];
            &&& storage@.contains_key(key)
            &&& document_size == view.document_sizes()[key]
            &&& index_size + document_size <= usize::MAX
            &&& told_more->Ok_0@ == storage@.insert(
                key,
                (document_size, (index_size + document_size) as usize),
            )
        },
        told is Err ==> view.storage_result(told_more) && more.storage_result(told),
{
    let len = view.index_registry.enabled@.len() as int;
    let key = view.mapping()[index.tablet_id].key();
    law_storage_names_the_user_tables(view, key);
    lemma_one_more_index(view, more, pos, index);
    lemma_one_more_index_size(view, more, pos, index);
    lemma_fits_without_the_index(view, more, pos, index);
    assert(more.none_stray(len + 1) == view.none_stray(place_without(len + 1, pos)));
    if let Err(error) = told {
        lemma_same_error(view, more, pos, index, error);
    }
    if let Err(error) = told_more {
        lemma_same_error(view, more, pos, index, error);
    }
    if let Ok(storage) = told {
        assert(view.index_size(len, key) <= usize::MAX);
        assert(more.index_size(len + 1, key) <= usize::MAX);
        let (document_size, index_size) = storage@[key];
        let with_index = storage@.insert(
            key,
            (document_size, (index_size + document_size) as usize),
        );
        assert(more.storage() =~= with_index) by {
            assert forall|k: TableKey| #[trigger] with_index.contains_key(k) implies more.storage()[k]
                == with_index[k] by {
                assert(view.index_size(len, k) <= usize::MAX);
                assert(more.index_size(len + 1, k) <= usize::MAX);
            }
        }
    }
}

/// How many of the first `n` indexes are left when the one at `pos` is not
/// counted.
spec fn place_without(n: int, pos: int) -> int {
    if n <= pos {
        n
    } else {
        n - 1
    }
}

/// The document sizes are those of the tables, whatever indexes there are.
proof fn lemma_same_document_sizes<RT: Runtime>(view: SnapshotView<RT>, more: SnapshotView<RT>)
    requires
        more.table_registry == view.table_registry,
        more.table_summaries == view.table_summaries,
    ensures
        more.document_sizes() == view.document_sizes(),
{
    assert forall|t: TabletId, k: TableKey| #[trigger]
        more.is_last_named(t, k) == view.is_last_named(t, k) by {}
    assert forall|k: TableKey| #[trigger]
        view.document_sizes().contains_key(k) implies more.document_sizes().contains_key(k)
        && more.document_sizes()[k] == view.document_sizes()[k] by {
        let a = choose|t: TabletId| #[trigger] view.is_last_named(t, k);
        assert(more.is_last_named(a, k));
        let b = choose|t: TabletId| #[trigger] more.is_last_named(t, k);
        assert(view.is_last_named(b, k));
        assert(view.mapping()[a].key() == k && view.mapping()[b].key() == k);
    }
    assert forall|k: TableKey| #[trigger]
        more.document_sizes().contains_key(k) implies view.document_sizes().contains_key(k) by {
        let b = choose|t: TabletId| #[trigger] more.is_last_named(t, k);
        assert(view.is_last_named(b, k));
    }
    assert(more.document_sizes() =~= view.document_sizes());
}

/// One more index that is charged to no missing table leaves the others as they
/// are.
proof fn lemma_one_more_index<RT: Runtime>(
    view: SnapshotView<RT>,
    more: SnapshotView<RT>,
    pos: int,
    index: EnabledIndex,
)
    requires
        has_one_more_index(more, view, pos, index),
        !view.is_stray(index),
    ensures
        more.document_sizes() == view.document_sizes(),
        forall|n: int|
            0 <= n <= more.index_registry.enabled@.len() ==> #[trigger] more.none_stray(n)
                == view.none_stray(place_without(n, pos)),
{
    let few = view.index_registry.enabled@;
    let many = more.index_registry.enabled@;
    lemma_same_document_sizes(view, more);
    assert forall|n: int| 0 <= n <= many.len() implies #[trigger] more.none_stray(n)
        == view.none_stray(place_without(n, pos)) by {
        if more.none_stray(n) {
            assert forall|i: int| 0 <= i < place_without(n, pos) implies !view.is_stray(
                #[trigger] few[i],
            ) by {
                let j = if i < pos {
                    i
                } else {
                    i + 1
                };
                assert(many[j] == few[i]);
            }
        }
        if view.none_stray(place_without(n, pos)) {
            assert forall|j: int| 0 <= j < n implies !more.is_stray(#[trigger] many[j]) by {
                if j != pos {
                    let i = if j < pos {
                        j
                    } else {
                        j - 1
                    };
                    assert(many[j] == few[i]);
                }
            }
        }
    }
}

/// Two lists of indexes charge what each of them charges.
proof fn lemma_charges_together(
    first: Seq<EnabledIndex>,
    second: Seq<EnabledIndex>,
    mapping: Map<TabletId, MappedTable>,
    key: TableKey,
)
    ensures
        snapshot::charges(first + second, mapping, key) == snapshot::charges(first, mapping, key)
            + snapshot::charges(second, mapping, key),
    decreases second.len(),
{
    if second.len() == 0 {
        assert(first + second =~= first);
    } else {
        lemma_charges_together(first, second.drop_last(), mapping, key);
        assert((first + second).drop_last() =~= first + second.drop_last());
    }
}

/// What one more index changes in the index size of a table.
proof fn lemma_one_more_index_size<RT: Runtime>(
    view: SnapshotView<RT>,
    more: SnapshotView<RT>,
    pos: int,
    index: EnabledIndex,
)
    requires
        has_one_more_index(more, view, pos, index),
    ensures
        forall|n: int, k: TableKey|
            0 <= n <= more.index_registry.enabled@.len() ==> #[trigger] more.index_size(n, k)
                == view.index_size(place_without(n, pos), k) + (if n > pos && snapshot::is_charged(
                index,
                view.mapping(),
            ) && view.mapping()[index.tablet_id].key() == k {
                view.document_sizes()[k] as nat
            } else {
                0
            }),
{
    let few = view.index_registry.enabled@;
    let many = more.index_registry.enabled@;
    let mapping = view.mapping();
    lemma_same_document_sizes(view, more);
    assert forall|n: int, k: TableKey| 0 <= n <= many.len() implies #[trigger] more.index_size(n, k)
        == view.index_size(place_without(n, pos), k) + (if n > pos && snapshot::is_charged(
        index,
        mapping,
    ) && mapping[index.tablet_id].key() == k {
        view.document_sizes()[k] as nat
    } else {
        0
    }) by {
        if n <= pos {
            assert(many.take(n) =~= few.take(n));
        } else {
            let before = few.take(pos);
            let after = few.subrange(pos, n - 1);
            assert(few.take(n - 1) =~= before + after);
            assert(many.take(n) =~= before.push(index) + after);
            assert(before.push(index).drop_last() =~= before);
            lemma_charges_together(before, after, mapping, k);
            lemma_charges_together(before.push(index), after, mapping, k);
            let size = view.document_sizes()[k] as nat;
            let charged = snapshot::charges(few.take(n - 1), mapping, k);
            assert(size * (charged + 1) == size * charged + size) by (nonlinear_arith);
        }
    }
}

/// Where the index sizes fit with one more index, they fit without it.
proof fn lemma_fits_without_the_index<RT: Runtime>(
    view: SnapshotView<RT>,
    more: SnapshotView<RT>,
    pos: int,
    index: EnabledIndex,
)
    requires
        has_one_more_index(more, view, pos, index),
        !view.is_stray(index),
    ensures
        more.index_sizes_fit() ==> view.index_sizes_fit(),
{
    lemma_one_more_index(view, more, pos, index);
    lemma_one_more_index_size(view, more, pos, index);
    if more.index_sizes_fit() {
        assert forall|n: int, k: TableKey|
            0 <= n <= view.index_registry.enabled@.len() && view.none_stray(n)
                && view.document_sizes().contains_key(k) implies #[trigger] view.index_size(n, k)
            <= usize::MAX by {
            let m = if n <= pos {
                n
            } else {
                n + 1
            };
            assert(place_without(m, pos) == n);
            assert(more.none_stray(m));
            assert(more.index_size(m, k) <= usize::MAX);
        }
    }
}

/// One more index that is charged to no missing table changes no error.
proof fn lemma_same_error<RT: Runtime>(
    view: SnapshotView<RT>,
    more: SnapshotView<RT>,
    pos: int,
    index: EnabledIndex,
    error: StorageError,
)
    requires
        has_one_more_index(more, view, pos, index),
        !view.is_stray(index),
    ensures
        (exists|i: int| #[trigger] more.explains(i, error)) == (exists|i: int| #[trigger]
            view.explains(i, error)),
{
    let few = view.index_registry.enabled@;
    let many = more.index_registry.enabled@;
    lemma_one_more_index(view, more, pos, index);
    if exists|i: int| #[trigger] more.explains(i, error) {
        let j = choose|i: int| #[trigger] more.explains(i, error);
        assert(more.is_stray(many[j]));
        assert(j != pos);
        let i = place_without(j, pos);
        assert(many[j] == few[i]);
        assert(more.none_stray(j));
        assert(view.explains(i, error));
    }
    if exists|i: int| #[trigger] view.explains(i, error) {
        let i = choose|i: int| #[trigger] view.explains(i, error);
        let j = if i < pos {
            i
        } else {
            i + 1
        };
        assert(many[j] == few[i]);
        assert(place_without(j, pos) == i);
        assert(more.none_stray(j));
        assert(more.explains(j, error));
    }
}

/// Where every user index on an active table is on a user table, the storage
/// is told without an error.
pub proof fn law_storage_is_told<RT: Runtime>(view: SnapshotView<RT>)
    requires
        view.table_summaries.tables.dom().finite(),
        forall|i: int|
            0 <= i < view.index_registry.enabled@.len() && snapshot::is_charged(
                #[trigger] view.index_registry.enabled@[i],
                view.mapping(),
            ) ==> view.is_user_table(view.index_registry.enabled@[i].tablet_id),
    ensures
        view.none_stray(view.index_registry.enabled@.len() as int),
{
    assert forall|i: int| 0 <= i < view.index_registry.enabled@.len() implies !view.is_stray(
        #[trigger] view.index_registry.enabled@[i],
    ) by {
        let t = view.index_registry.enabled@[i].tablet_id;
        law_storage_names_the_user_tables(view, view.mapping()[t].key());
    }
}

// Updates of a snapshot.

/// An event changes the part that it tells of, and no other but the table
/// summaries, which change only when the component registry has been updated.
pub proof fn law_a_step_changes_one_part<RT: Runtime>(
    view: SnapshotView<RT>,
    pending: PendingUpdate<RT>,
    event: UpdateEvent<RT>,
)
    ensures
        ({
            let after = view.resumed(pending, event).0;
            &&& event !is TableRegistry ==> after.table_registry == view.table_registry
            &&& event !is SchemaRegistry ==> after.schema_registry == view.schema_registry
            &&& event !is ComponentRegistry ==> after.component_registry
                == view.component_registry && after.table_summaries == view.table_summaries
            &&& event !is IndexRegistry ==> after.index_registry == view.index_registry
            &&& event !is InMemoryIndexes ==> after.in_memory_indexes == view.in_memory_indexes
            &&& event !is TextIndexes ==> after.text_indexes == view.text_indexes
            &&& event !is VectorIndexes ==> after.vector_indexes == view.vector_indexes
        }),
{
}

/// How many calls have been answered when an update is at a stage.
pub open spec fn calls_answered<RT: Runtime>(stage: UpdateStage<RT>) -> nat {
    match stage {
        UpdateStage::TableRegistry => 0,
        UpdateStage::SchemaRegistry { .. } => 1,
        UpdateStage::ComponentRegistry { .. } => 2,
        UpdateStage::IndexRegistry => 3,
        UpdateStage::InMemoryIndexes => 4,
        UpdateStage::TextIndexes { .. } => 5,
        UpdateStage::VectorIndexes { .. } => 6,
    }
}

/// Each event takes the update one stage further or ends it, so it ends after
/// seven calls at the latest. The document and the timestamp stay the same.
pub proof fn law_updates_advance<RT: Runtime>(
    view: SnapshotView<RT>,
    pending: PendingUpdate<RT>,
    event: UpdateEvent<RT>,
)
    requires
        pending.awaits(event),
    ensures
        match view.resumed(pending, event).1 {
            UpdateStep::Call(next, call) => {
                &&& calls_answered(next.stage) == calls_answered(pending.stage) + 1
                &&& calls_answered(next.stage) <= 6
                &&& next.document_update == pending.document_update
                &&& next.commit_ts == pending.commit_ts
                &&& call == next.call(view.resumed(pending, event).0)
            },
            UpdateStep::Finished(Ok(_)) => pending.stage is VectorIndexes,
            UpdateStep::Finished(Err(_)) => true,
        },
{
}

/// The snapshot and the step after a list of events, as long as there are
/// calls to answer.
pub open spec fn run<RT: Runtime>(
    view: SnapshotView<RT>,
    step: UpdateStep<RT>,
    events: Seq<UpdateEvent<RT>>,
) -> (SnapshotView<RT>, UpdateStep<RT>)
    decreases events.len(),
{
    if events.len() == 0 {
        (view, step)
    } else {
        match step {
            UpdateStep::Call(pending, _) => {
                let (after, next) = view.resumed(pending, events[0]);
                run(after, next, events.drop_first())
            },
            UpdateStep::Finished(_) => (view, step),
        }
    }
}

/// An update whose calls all succeed puts each new part in place, takes the
/// write into the table summaries under the new table mapping, and tells the
/// changes to the in-memory indexes and what the vector indexes said.
pub proof fn law_successful_update<RT: Runtime>(
    view: SnapshotView<RT>,
    pending: PendingUpdate<RT>,
    events: Seq<UpdateEvent<RT>>,
    updated: SnapshotView<RT>,
    table_update: Option<TableUpdate>,
    updates: Vec<RT::DatabaseIndexUpdate>,
    doc_in_vector_index: RT::DocInVectorIndex,
)
    requires
        pending.stage is TableRegistry,
        events.len() == 7,
        events[0] == (UpdateEvent::<RT>::TableRegistry {
            table_registry: updated.table_registry,
            result: Ok(table_update),
        }),
        events[1] == (UpdateEvent::<RT>::SchemaRegistry {
            schema_registry: updated.schema_registry,
            result: Ok(()),
        }),
        events[2] == (UpdateEvent::<RT>::ComponentRegistry {
            component_registry: updated.component_registry,
            result: Ok(()),
        }),
        events[3] == (UpdateEvent::<RT>::IndexRegistry {
            index_registry: updated.index_registry,
            result: Ok(()),
        }),
        events[4] == (UpdateEvent::<RT>::InMemoryIndexes {
            in_memory_indexes: updated.in_memory_indexes,
            updates,
        }),
        events[5] == (UpdateEvent::<RT>::TextIndexes {
            text_indexes: updated.text_indexes,
            result: Ok(()),
        }),
        events[6] == (UpdateEvent::<RT>::VectorIndexes {
            vector_indexes: updated.vector_indexes,
            result: Ok(doc_in_vector_index),
        }),
        view.table_summaries.updated(
            pending.document_update.id.tablet_id,
            pending.document_update.old_size(),
            pending.document_update.new_size(),
            table_update,
            updated.mapping(),
        ) == Ok::<TableSummariesView, table_summaries::SummariesError>(updated.table_summaries),
    ensures
        run(view, UpdateStep::Call(pending, pending.call(view)), events) == (
            updated,
            UpdateStep::Finished(
                Ok::<_, UpdateError<RT>>((updates, doc_in_vector_index)),
            ),
        ),
{
    reveal_with_fuel(run, 8);
    let rest = events.drop_first();
    assert(rest[0] == events[1]);
    assert(rest.drop_first()[0] == events[2]);
    assert(rest.drop_first().drop_first()[0] == events[3]);
    assert(rest.drop_first().drop_first().drop_first()[0] == events[4]);
    assert(rest.drop_first().drop_first().drop_first().drop_first()[0] == events[5]);
    assert(rest.drop_first().drop_first().drop_first().drop_first().drop_first()[0] == events[6]);
}

/// Which call of an update an event tells of.
pub open spec fn call_number<RT: Runtime>(event: UpdateEvent<RT>) -> int {
    match event {
        UpdateEvent::TableRegistry { .. } => 0,
        UpdateEvent::SchemaRegistry { .. } => 1,
        UpdateEvent::ComponentRegistry { .. } => 2,
        UpdateEvent::IndexRegistry { .. } => 3,
        UpdateEvent::InMemoryIndexes { .. } => 4,
        UpdateEvent::TextIndexes { .. } => 5,
        UpdateEvent::VectorIndexes { .. } => 6,
    }
}

/// The events tell of the calls of an update in their order, from the first
/// on.
pub open spec fn in_order<RT: Runtime>(events: Seq<UpdateEvent<RT>>) -> bool {
    forall|i: int| 0 <= i < events.len() ==> call_number(#[trigger] events[i]) == i
}

/// What becomes of the table summaries in an update with these events, once it
/// comes to them.
pub open spec fn summarised<RT: Runtime>(
    view: SnapshotView<RT>,
    document_update: DocumentUpdate<RT>,
    events: Seq<UpdateEvent<RT>>,
) -> Result<TableSummariesView, table_summaries::SummariesError> {
    view.table_summaries.updated(
        document_update.id.tablet_id,
        document_update.old_size(),
        document_update.new_size(),
        events[0]->TableRegistry_result->Ok_0,
        events[0]->TableRegistry_table_registry.table_mapping@,
    )
}

/// Why an update ends with its `k`th event, if it does: the part could not be
/// updated, or the component registry was and the table summaries then refuse
/// the write.
pub open spec fn refusal<RT: Runtime>(
    view: SnapshotView<RT>,
    document_update: DocumentUpdate<RT>,
    events: Seq<UpdateEvent<RT>>,
    k: int,
) -> Option<UpdateError<RT>> {
    match events[k] {
        UpdateEvent::TableRegistry { result: Err(e), .. } => Some(UpdateError::TableRegistry(e)),
        UpdateEvent::SchemaRegistry { result: Err(e), .. } => Some(UpdateError::SchemaRegistry(e)),
        UpdateEvent::ComponentRegistry { result: Err(e), .. } => Some(
            UpdateError::ComponentRegistry(e),
        ),
        UpdateEvent::ComponentRegistry { result: Ok(_), .. } => match summarised(
            view,
            document_update,
            events,
        ) {
            Ok(_) => None,
            Err(e) => Some(UpdateError::TableSummaries(e)),
        },
        UpdateEvent::IndexRegistry { result: Err(e), .. } => Some(UpdateError::IndexRegistry(e)),
        UpdateEvent::TextIndexes { result: Err(e), .. } => Some(UpdateError::TextIndexes(e)),
        UpdateEvent::VectorIndexes { result: Err(e), .. } => Some(UpdateError::VectorIndexes(e)),
        _ => None,
    }
}

/// The snapshot with the parts that the events tell of. The others stay. The
/// table summaries have taken in the write if the component registry was
/// updated and they did not refuse it.
pub open spec fn with_parts<RT: Runtime>(
    view: SnapshotView<RT>,
    document_update: DocumentUpdate<RT>,
    events: Seq<UpdateEvent<RT>>,
) -> SnapshotView<RT> {
    let n = events.len();
    SnapshotView {
        table_registry: if n > 0 {
            events[0]->TableRegistry_table_registry
        } else {
            view.table_registry
        },
        schema_registry: if n > 1 {
            events[1]->SchemaRegistry_schema_registry
        } else {
            view.schema_registry
        },
        component_registry: if n > 2 {
            events[2]->ComponentRegistry_component_registry
        } else {
            view.component_registry
        },
        table_summaries: if n > 2 && events[2]->ComponentRegistry_result is Ok && summarised(
            view,
            document_update,
            events,
        ) is Ok {
            summarised(view, document_update, events)->Ok_0
        } else {
            view.table_summaries
        },
        index_registry: if n > 3 {
            events[3]->IndexRegistry_index_registry
        } else {
            view.index_registry
        },
        in_memory_indexes: if n > 4 {
            events[4]->InMemoryIndexes_in_memory_indexes
        } else {
            view.in_memory_indexes
        },
        text_indexes: if n > 5 {
            events[5]->TextIndexes_text_indexes
        } else {
            view.text_indexes
        },
        vector_indexes: if n > 6 {
            events[6]->VectorIndexes_vector_indexes
        } else {
            view.vector_indexes
        },
    }
}

/// An update ends with the error of the first part that refuses the write. That
/// part and those before it are replaced by what their calls made of them, and
/// those after it stay. The table summaries change only if the component
/// registry was updated and they took in the write.
pub proof fn law_failed_update<RT: Runtime>(
    view: SnapshotView<RT>,
    pending: PendingUpdate<RT>,
    events: Seq<UpdateEvent<RT>>,
    k: int,
    error: UpdateError<RT>,
)
    requires
        pending.stage is TableRegistry,
        in_order(events),
        0 <= k < events.len(),
        forall|i: int|
            0 <= i < k ==> #[trigger] refusal(view, pending.document_update, events, i) is None,
        refusal(view, pending.document_update, events, k) == Some(error),
    ensures
        run(view, UpdateStep::Call(pending, pending.call(view)), events) == (
            with_parts(view, pending.document_update, events.take(k + 1)),
            UpdateStep::<RT>::Finished(Err(error)),
        ),
{
    let doc = pending.document_update;
    let told = events.take(k + 1);
    reveal_with_fuel(run, 8);
    assert(call_number(events[k]) == k);
    assert(told[0] == events[0] && refusal(view, doc, events, 0) == refusal(view, doc, told, 0));
    let rest = events.drop_first();
    if k >= 1 {
        assert(refusal(view, doc, events, 0) is None);
        assert(told[1] == events[1] && rest[0] == events[1]);
    }
    let rest = rest.drop_first();
    if k >= 2 {
        assert(refusal(view, doc, events, 1) is None);
        assert(told[2] == events[2] && rest[0] == events[2]);
    }
    let rest = rest.drop_first();
    if k >= 3 {
        assert(refusal(view, doc, events, 2) is None);
        assert(told[3] == events[3] && rest[0] == events[3]);
    }
    let rest = rest.drop_first();
    if k >= 4 {
        assert(refusal(view, doc, events, 3) is None);
        assert(told[4] == events[4] && rest[0] == events[4]);
    }
    let rest = rest.drop_first();
    if k >= 5 {
        assert(refusal(view, doc, events, 4) is None);
        assert(told[5] == events[5] && rest[0] == events[5]);
    }
    let rest = rest.drop_first();
    if k >= 6 {
        assert(refusal(view, doc, events, 5) is None);
        assert(told[6] == events[6] && rest[0] == events[6]);
    }
}

/// A successful update keeps the counts of user documents those of the user
/// tables, under the mapping that it ends with, where
/// [`law_update_keeps_totals`] says so of the table summaries.
pub proof fn law_successful_update_keeps_totals<RT: Runtime>(
    view: SnapshotView<RT>,
    pending: PendingUpdate<RT>,
    updated: SnapshotView<RT>,
    table_update: Option<TableUpdate>,
)
    requires
        view.table_summaries.totals_agree(view.mapping()),
        view.table_summaries.accepts(
            pending.document_update.id.tablet_id,
            pending.document_update.old_size(),
            pending.document_update.new_size(),
            table_update,
            updated.mapping(),
        ),
        view.table_summaries.updated(
            pending.document_update.id.tablet_id,
            pending.document_update.old_size(),
            pending.document_update.new_size(),
            table_update,
            updated.mapping(),
        ) == Ok::<TableSummariesView, table_summaries::SummariesError>(updated.table_summaries),
        forall|t: TabletId| #[trigger]
            view.table_summaries.tables.contains_key(t) && !drops(table_update, t)
                ==> table_mapping::is_system(view.mapping(), t) == table_mapping::is_system(
                updated.mapping(),
                t,
            ),
        forall|t: TabletId| #[trigger]
            view.table_summaries.tables.contains_key(t) && drops(table_update, t)
                ==> table_update->Some_0.system == table_mapping::is_system(view.mapping(), t),
    ensures
        updated.table_summaries.totals_agree(updated.mapping()),
{
    law_update_keeps_totals(
        view.table_summaries,
        pending.document_update.id.tablet_id,
        pending.document_update.old_size(),
        pending.document_update.new_size(),
        table_update,
        view.mapping(),
        updated.mapping(),
    );
}

/// After a successful update the summaries are again those of tables that
/// exist, under the mapping that it ends with, where
/// [`law_update_keeps_to_existing_tables`] says so of the table summaries. The
/// user tables can then be listed and their storage told.
pub proof fn law_successful_update_keeps_to_existing_tables<RT: Runtime>(
    view: SnapshotView<RT>,
    pending: PendingUpdate<RT>,
    updated: SnapshotView<RT>,
    table_update: Option<TableUpdate>,
)
    requires
        view.table_summaries.updated(
            pending.document_update.id.tablet_id,
            pending.document_update.old_size(),
            pending.document_update.new_size(),
            table_update,
            updated.mapping(),
        ) == Ok::<TableSummariesView, table_summaries::SummariesError>(updated.table_summaries),
        !drops(table_update, pending.document_update.id.tablet_id),
        forall|t: TabletId| #[trigger]
            view.table_summaries.tables.contains_key(t) && !drops(table_update, t)
                ==> updated.mapping().contains_key(t),
        forall|t: TabletId| #[trigger]
            creates(table_update, t) ==> updated.mapping().contains_key(t),
    ensures
        updated.table_summaries.tables_exist(updated.mapping()),
        updated.active_tables_mapped(),
{
    law_update_keeps_to_existing_tables(
        view.table_summaries,
        pending.document_update.id.tablet_id,
        pending.document_update.old_size(),
        pending.document_update.new_size(),
        table_update,
        updated.mapping(),
    );
    law_existing_tables_are_mapped(updated);
}

// Versions.

/// A read succeeds at every timestamp from the earliest version to the latest,
/// and at no other.
pub proof fn law_readable_range<RT: Runtime>(manager: SnapshotManagerView<RT>, ts: Timestamp)
    requires
        manager.wf(),
    ensures
        manager.read(ts) is Ok <==> manager.earliest_ts().nanos <= ts.nanos
            <= manager.latest_ts().nanos,
{
}

/// From the timestamp of a version until that of the next, a read gives that
/// version.
pub proof fn law_read_gives_the_version<RT: Runtime>(
    manager: SnapshotManagerView<RT>,
    i: int,
    ts: Timestamp,
)
    requires
        manager.wf(),
        0 <= i < manager.versions.len(),
        manager.versions[i].0.nanos <= ts.nanos <= manager.latest_ts().nanos,
        i + 1 < manager.versions.len() ==> ts.nanos < manager.versions[i + 1].0.nanos,
    ensures
        manager.read(ts) == Ok::<SnapshotView<RT>, snapshot_manager::SnapshotError>(
            manager.versions[i].1,
        ),
{
    let versions = manager.versions;
    assert(versions[0].0.nanos <= versions[i].0.nanos);
    assert forall|j: int| i < j < versions.len() implies ts.nanos < (
    #[trigger] versions[j]).0.nanos by {
        assert(versions[i + 1].0.nanos <= versions[j].0.nanos);
    }
    snapshot_manager::lemma_as_of(versions, ts, i);
}

/// A read at the latest timestamp gives the latest snapshot.
pub proof fn law_read_latest<RT: Runtime>(manager: SnapshotManagerView<RT>)
    requires
        manager.wf(),
    ensures
        manager.read(manager.latest_ts()) == Ok::<
            SnapshotView<RT>,
            snapshot_manager::SnapshotError,
        >(manager.latest_snapshot()),
{
    law_read_gives_the_version(manager, manager.versions.len() - 1, manager.latest_ts());
}

/// The versions that are kept are the last ones, from some place on.
proof fn lemma_retained_is_a_suffix<RT: Runtime>(versions: Versions<RT>, ts: Timestamp) -> (k: int)
    requires
        versions.len() > 0,
        snapshot_manager::timestamps_ascend(versions),
    ensures
        0 <= k < versions.len(),
        snapshot_manager::retained(versions, ts) == versions.skip(k),
        forall|i: int|
            0 <= i < k ==> !snapshot_manager::in_window(#[trigger] versions[i], ts),
        k == versions.len() - 1 || snapshot_manager::in_window(versions[k], ts),
{
    let k = lemma_first_in_window(versions, ts, 0);
    snapshot_manager::lemma_retained(versions, ts, k);
    k
}

proof fn lemma_first_in_window<RT: Runtime>(
    versions: Versions<RT>,
    ts: Timestamp,
    from: int,
) -> (k: int)
    requires
        0 <= from < versions.len(),
        forall|i: int|
            0 <= i < from ==> !snapshot_manager::in_window(#[trigger] versions[i], ts),
    ensures
        from <= k < versions.len(),
        forall|i: int|
            0 <= i < k ==> !snapshot_manager::in_window(#[trigger] versions[i], ts),
        k == versions.len() - 1 || snapshot_manager::in_window(versions[k], ts),
    decreases versions.len() - from,
{
    if from == versions.len() - 1 || snapshot_manager::in_window(versions[from], ts) {
        from
    } else {
        lemma_first_in_window(versions, ts, from + 1)
    }
}

/// Pushing a version keeps the manager well formed, and makes the new one the
/// latest. What is persisted as repeatable stays, and no version comes back.
pub proof fn law_push<RT: Runtime>(
    manager: SnapshotManagerView<RT>,
    ts: Timestamp,
    snapshot: SnapshotView<RT>,
)
    requires
        manager.wf(),
        manager.latest_ts().nanos < ts.nanos,
    ensures
        ({
            let after = manager.pushed(ts, snapshot);
            &&& after.wf()
            &&& after.latest_ts() == ts
            &&& after.latest_snapshot() == snapshot
            &&& after.read(ts) == Ok::<SnapshotView<RT>, snapshot_manager::SnapshotError>(snapshot)
            &&& manager.earliest_ts().nanos <= after.earliest_ts().nanos
                <= manager.latest_ts().nanos
            &&& after.persisted_max_repeatable_ts == manager.persisted_max_repeatable_ts
        }),
{
    let after = manager.pushed(ts, snapshot);
    let k = lemma_retained_is_a_suffix(manager.versions, ts);
    assert(after.versions =~= manager.versions.skip(k).push((ts, snapshot)));
    assert(after.wf());
    law_read_latest(after);
}

/// Pushing a version changes no read that is still possible: at every
/// timestamp up to the old latest one, unless it has become too early, a read
/// gives what it gave before. Between the old latest timestamp and the new one
/// it gives the old latest snapshot.
pub proof fn law_push_keeps_reads<RT: Runtime>(
    manager: SnapshotManagerView<RT>,
    ts: Timestamp,
    snapshot: SnapshotView<RT>,
    t: Timestamp,
)
    requires
        manager.wf(),
        manager.latest_ts().nanos < ts.nanos,
        manager.pushed(ts, snapshot).earliest_ts().nanos <= t.nanos < ts.nanos,
    ensures
        t.nanos <= manager.latest_ts().nanos ==> manager.pushed(ts, snapshot).read(t)
            == manager.read(t),
        t.nanos >= manager.latest_ts().nanos ==> manager.pushed(ts, snapshot).read(t) == Ok::<
            SnapshotView<RT>,
            snapshot_manager::SnapshotError,
        >(manager.latest_snapshot()),
{
    let after = manager.pushed(ts, snapshot);
    let versions = manager.versions;
    let k = lemma_retained_is_a_suffix(versions, ts);
    law_push(manager, ts, snapshot);
    assert(after.versions =~= versions.skip(k).push((ts, snapshot)));
    let i = lemma_version_of(versions, k, t);
    assert(after.versions[i - k] == versions[i]);
    if i + 1 < versions.len() {
        assert(after.versions[i + 1 - k] == versions[i + 1]);
    }
    law_read_gives_the_version(after, i - k, t);
    if t.nanos <= manager.latest_ts().nanos {
        law_read_gives_the_version(manager, i, t);
    }
    if t.nanos >= manager.latest_ts().nanos && i < versions.len() - 1 {
        assert(versions[i + 1].0.nanos <= versions[versions.len() - 1].0.nanos);
    }
}

/// The last version that is not later than a timestamp.
proof fn lemma_version_of<RT: Runtime>(versions: Versions<RT>, from: int, t: Timestamp) -> (i: int)
    requires
        0 <= from < versions.len(),
        versions[from].0.nanos <= t.nanos,
    ensures
        from <= i < versions.len(),
        versions[i].0.nanos <= t.nanos,
        i + 1 < versions.len() ==> t.nanos < versions[i + 1].0.nanos,
    decreases versions.len() - from,
{
    if from + 1 < versions.len() && versions[from + 1].0.nanos <= t.nanos {
        lemma_version_of(versions, from + 1, t)
    } else {
        from
    }
}

/// Pushing a version drops none that is in the window: from the timestamp of
/// such a version on, every timestamp up to the new one stays readable.
pub proof fn law_push_keeps_the_window<RT: Runtime>(
    manager: SnapshotManagerView<RT>,
    ts: Timestamp,
    snapshot: SnapshotView<RT>,
    i: int,
    t: Timestamp,
)
    requires
        manager.wf(),
        manager.latest_ts().nanos < ts.nanos,
        0 <= i < manager.versions.len(),
        ts.nanos - manager.versions[i].0.nanos <= snapshot_manager::MAX_TRANSACTION_WINDOW,
        manager.versions[i].0.nanos <= t.nanos <= ts.nanos,
    ensures
        manager.pushed(ts, snapshot).read(t) is Ok,
        t.nanos <= manager.latest_ts().nanos ==> manager.pushed(ts, snapshot).read(t)
            == manager.read(t),
{
    let after = manager.pushed(ts, snapshot);
    let versions = manager.versions;
    let k = lemma_retained_is_a_suffix(versions, ts);
    law_push(manager, ts, snapshot);
    assert(after.versions =~= versions.skip(k).push((ts, snapshot)));
    assert(k <= i);
    assert(versions[k].0.nanos <= versions[i].0.nanos);
    assert(after.earliest_ts() == versions[k].0);
    if t.nanos < ts.nanos {
        law_push_keeps_reads(manager, ts, snapshot, t);
    }
}

/// Pushing a version drops all that are not in the window, but for the latest:
/// what is read afterwards is in the window, or there are two versions.
pub proof fn law_push_bounds_the_versions<RT: Runtime>(
    manager: SnapshotManagerView<RT>,
    ts: Timestamp,
    snapshot: SnapshotView<RT>,
)
    requires
        manager.wf(),
        manager.latest_ts().nanos < ts.nanos,
    ensures
        ({
            let after = manager.pushed(ts, snapshot);
            after.versions == seq![manager.versions.last(), (ts, snapshot)] || forall|i: int|
                0 <= i < after.versions.len() ==> ts.nanos - (
                #[trigger] after.versions[i]).0.nanos <= snapshot_manager::MAX_TRANSACTION_WINDOW
        }),
{
    let after = manager.pushed(ts, snapshot);
    let versions = manager.versions;
    let k = lemma_retained_is_a_suffix(versions, ts);
    assert(after.versions =~= versions.skip(k).push((ts, snapshot)));
    if snapshot_manager::in_window(versions[k], ts) {
        assert forall|i: int| 0 <= i < after.versions.len() implies snapshot_manager::in_window(
            #[trigger] after.versions[i],
            ts,
        ) by {
            if i < after.versions.len() - 1 {
                assert(after.versions[i] == versions[k + i]);
                assert(versions[k].0.nanos <= versions[k + i].0.nanos);
            }
        }
    } else {
        assert(after.versions =~= seq![versions.last(), (ts, snapshot)]);
    }
}

/// What is persisted as repeatable never goes back, and is never later than
/// the latest version. A bump that takes effect raises both to its timestamp,
/// and changes nothing of what is read up to then.
pub proof fn law_bump<RT: Runtime>(manager: SnapshotManagerView<RT>, ts: Timestamp, t: Timestamp)
    requires
        manager.wf(),
        manager.bumped(ts).earliest_ts().nanos <= t.nanos,
    ensures
        ({
            let after = manager.bumped(ts);
            &&& after.wf()
            &&& manager.persisted_max_repeatable_ts.nanos
                <= after.persisted_max_repeatable_ts.nanos <= after.latest_ts().nanos
            &&& manager.latest_ts().nanos <= after.latest_ts().nanos
            &&& after.latest_snapshot() == manager.latest_snapshot()
            &&& ts.nanos > manager.latest_ts().nanos ==> after.persisted_max_repeatable_ts == ts
                && after.latest_ts() == ts
            &&& ts.nanos <= manager.latest_ts().nanos ==> after == manager
            &&& t.nanos <= manager.latest_ts().nanos ==> after.read(t) == manager.read(t)
            &&& manager.latest_ts().nanos <= t.nanos <= after.latest_ts().nanos ==> after.read(t)
                == Ok::<SnapshotView<RT>, snapshot_manager::SnapshotError>(
                manager.latest_snapshot(),
            )
        }),
{
    let after = manager.bumped(ts);
    if ts.nanos > manager.latest_ts().nanos {
        let pushed = manager.pushed(ts, manager.latest_snapshot());
        law_push(manager, ts, manager.latest_snapshot());
        assert(after.versions == pushed.versions);
        assert(after.read(t) == pushed.read(t));
        if t.nanos < ts.nanos {
            law_push_keeps_reads(manager, ts, manager.latest_snapshot(), t);
        }
    } else {
        if t.nanos == manager.latest_ts().nanos {
            law_read_latest(manager);
        }
    }
}

/// Replacing the latest snapshot changes what is read at its timestamp, and no
/// other read.
pub proof fn law_overwrite_changes_the_latest_read_alone<RT: Runtime>(
    manager: SnapshotManagerView<RT>,
    snapshot: SnapshotView<RT>,
    t: Timestamp,
)
    requires
        manager.wf(),
    ensures
        ({
            let after = manager.with_latest(snapshot);
            &&& after.wf()
            &&& after.latest_ts() == manager.latest_ts()
            &&& after.earliest_ts() == manager.earliest_ts()
            &&& after.persisted_max_repeatable_ts == manager.persisted_max_repeatable_ts
            &&& after.read(manager.latest_ts()) == Ok::<
                SnapshotView<RT>,
                snapshot_manager::SnapshotError,
            >(snapshot)
            &&& t.nanos != manager.latest_ts().nanos ==> after.read(t) == manager.read(t)
        }),
{
    let after = manager.with_latest(snapshot);
    assert(after.wf());
    law_read_latest(after);
    if manager.earliest_ts().nanos <= t.nanos < manager.latest_ts().nanos {
        let i = lemma_version_of(manager.versions, 0, t);
        law_read_gives_the_version(manager, i, t);
        law_read_gives_the_version(after, i, t);
    }
}

} // verus!
