//! What the table summaries say of the documents.

use crate::summary_map;
use crate::table_mapping::{MappedTable, TableUpdate};
use crate::table_summaries;
use crate::table_summaries::{SummariesError, TableSummaries, TableSummariesView, TableSummary};
use crate::totals;
use crate::types;
use crate::types::{DocumentUpdate, ResolvedDocument, Runtime, TabletId};
use vstd::prelude::*;

verus! {

/// A document that is put into a summary raises its number by one and its size
/// by that of the document. There is room for it wherever both still fit.
pub proof fn law_a_document_counts_once_and_by_its_size(summary: TableSummary, size: usize)
    requires
        summary.num_values + 1 <= usize::MAX,
        summary.total_size + size <= usize::MAX,
    ensures
        summary.has_room_for(size),
        summary.with_document(size).num_values == summary.num_values + 1,
        summary.with_document(size).total_size == summary.total_size + size,
{
}

/// A document that is taken out of a summary lowers its number by one and its
/// size by that of the document. It is refused where there is no document or
/// not as much.
pub proof fn law_a_document_leaves_with_its_size(summary: TableSummary, size: usize)
    ensures
        match summary.without_document(size) {
            Ok(rest) => {
                &&& rest.num_values + 1 == summary.num_values
                &&& rest.total_size + size == summary.total_size
            },
            Err(e) => {
                &&& summary.num_values == 0 || summary.total_size < size
                &&& e == SummariesError::NegativeSummary
            },
        },
{
}

/// A document is counted at its own size, and one that is not there is not
/// counted.
pub proof fn law_documents_are_measured_by_their_size<RT: Runtime>(
    document: ResolvedDocument<RT>,
    update: DocumentUpdate<RT>,
)
    ensures
        types::document_size(Some(&document)) == Some(document.size),
        types::document_size(None::<&ResolvedDocument<RT>>) is None,
        update.old_size() is Some <==> update.old_document is Some,
        update.new_size() is Some <==> update.new_document is Some,
        update.old_document matches Some(d) ==> update.old_size() == Some(d.size),
        update.new_document matches Some(d) ==> update.new_size() == Some(d.size),
{
}

/// The summaries are seen with all that the map holds, and with the counts that
/// are kept.
pub proof fn law_summaries_are_seen_as_they_are(summaries: TableSummaries)
    ensures
        summaries@.tables == summary_map::summaries_in(summaries.tables),
        summaries@.num_user_documents == summaries.num_user_documents,
        summaries@.user_size == summaries.user_size,
{
}

/// A tablet that has a summary is told by it; any other holds no document and
/// takes up nothing.
pub proof fn law_a_tablet_without_summary_is_empty(view: TableSummariesView, t: TabletId)
    ensures
        view.tables.contains_key(t) ==> view.summary(t) == view.tables[t],
        !view.tables.contains_key(t) ==> view.summary(t).num_values == 0 && view.summary(
            t,
        ).total_size == 0,
{
}

/// Of the tables that were summarised, exactly those are taken up that the
/// mapping knows, whatever they hold, and each with the summary that it had.
pub proof fn law_known_tables_are_taken_up(
    tables: Map<TabletId, TableSummary>,
    mapping: Map<TabletId, MappedTable>,
    t: TabletId,
)
    ensures
        table_summaries::existing_tables(tables, mapping).contains_key(t) <==> {
            tables.contains_key(t) && mapping.contains_key(t)
        },
        tables.contains_key(t) && mapping.contains_key(t) ==> table_summaries::existing_tables(
            tables,
            mapping,
        )[t] == tables[t],
{
}

/// Without tables there are no user documents. Every further table adds the
/// number and the size of its documents, unless the mapping knows it as a
/// system table.
pub proof fn law_user_documents_add_up(
    tables: Map<TabletId, TableSummary>,
    mapping: Map<TabletId, MappedTable>,
    t: TabletId,
    summary: TableSummary,
)
    requires
        tables.dom().finite(),
        !tables.contains_key(t),
    ensures
        tables.dom() == Set::<TabletId>::empty() ==> {
            &&& table_summaries::user_documents(tables, mapping) == 0
            &&& table_summaries::user_bytes(tables, mapping) == 0
        },
        mapping.contains_key(t) && mapping[t].system ==> {
            &&& table_summaries::user_documents(tables.insert(t, summary), mapping)
                == table_summaries::user_documents(tables, mapping)
            &&& table_summaries::user_bytes(tables.insert(t, summary), mapping)
                == table_summaries::user_bytes(tables, mapping)
        },
        !(mapping.contains_key(t) && mapping[t].system) ==> {
            &&& table_summaries::user_documents(tables.insert(t, summary), mapping)
                == table_summaries::user_documents(tables, mapping) + summary.num_values
            &&& table_summaries::user_bytes(tables.insert(t, summary), mapping)
                == table_summaries::user_bytes(tables, mapping) + summary.total_size
        },
{
    let more = tables.insert(t, summary);
    let user = table_summaries::user_tablets(tables, mapping);
    let user_more = table_summaries::user_tablets(more, mapping);
    let docs = |u: TabletId| tables[u].num_values as nat;
    let docs_more = |u: TabletId| more[u].num_values as nat;
    let bytes = |u: TabletId| tables[u].total_size as nat;
    let bytes_more = |u: TabletId| more[u].total_size as nat;
    vstd::set_lib::lemma_set_subset_finite(tables.dom(), user);
    if tables.dom() == Set::<TabletId>::empty() {
        assert(user =~= Set::empty());
    }
    totals::lemma_sum_same_values(user, docs, docs_more);
    totals::lemma_sum_same_values(user, bytes, bytes_more);
    if mapping.contains_key(t) && mapping[t].system {
        assert(user_more =~= user);
    } else {
        assert(user_more =~= user.insert(t));
        totals::lemma_sum_insert(user, docs_more, t);
        totals::lemma_sum_insert(user, bytes_more, t);
    }
}

/// Where the counts agree with the tables, and do so still with one more table,
/// they have grown by the documents of that table, or not at all where the
/// mapping knows it as a system table.
pub proof fn law_counts_agree_with_the_tables(
    view: TableSummariesView,
    more: TableSummariesView,
    mapping: Map<TabletId, MappedTable>,
    t: TabletId,
)
    requires
        view.totals_agree(mapping),
        more.totals_agree(mapping),
        more.tables.contains_key(t),
        view.tables == more.tables.remove(t),
    ensures
        mapping.contains_key(t) && mapping[t].system ==> {
            &&& more.num_user_documents == view.num_user_documents
            &&& more.user_size == view.user_size
        },
        !(mapping.contains_key(t) && mapping[t].system) ==> {
            &&& more.num_user_documents == view.num_user_documents + more.tables[t].num_values
            &&& more.user_size == view.user_size + more.tables[t].total_size
        },
{
    assert(view.tables.insert(t, more.tables[t]) =~= more.tables);
    law_user_documents_add_up(view.tables, mapping, t, more.tables[t]);
}

/// A write is refused where its table has no summary, or where a document is
/// taken out that the summary does not hold. Every other write is taken in,
/// and the summary of its table then counts one document less for an old
/// version and one more for a new one, each at its own size.
pub proof fn law_a_write_is_counted_at_its_sizes(
    before: TableSummariesView,
    t: TabletId,
    old_size: Option<usize>,
    new_size: Option<usize>,
    table_update: Option<TableUpdate>,
    mapping: Map<TabletId, MappedTable>,
)
    ensures
        match before.updated(t, old_size, new_size, table_update, mapping) {
            Err(e) => {
                ||| !before.tables.contains_key(t) && e == (SummariesError::NonexistentTable {
                    tablet_id: t,
                })
                ||| before.tables.contains_key(t) && old_size is Some && (
                before.tables[t].num_values == 0 || before.tables[t].total_size < old_size->0) && e
                    == SummariesError::NegativeSummary
            },
            Ok(after) => {
                let old_count: int = if old_size is Some {
                    1
                } else {
                    0
                };
                let new_count: int = if new_size is Some {
                    1
                } else {
                    0
                };
                let old_bytes: int = if old_size is Some {
                    old_size->0 as int
                } else {
                    0
                };
                let new_bytes: int = if new_size is Some {
                    new_size->0 as int
                } else {
                    0
                };
                &&& before.tables.contains_key(t)
                &&& after.tables.contains_key(t)
                &&& old_count <= before.tables[t].num_values
                &&& old_bytes <= before.tables[t].total_size
                &&& before.tables[t].num_values - old_count + new_count <= usize::MAX
                    ==> after.tables[t].num_values + old_count == before.tables[t].num_values
                    + new_count
                &&& before.tables[t].total_size - old_bytes + new_bytes <= usize::MAX
                    ==> after.tables[t].total_size + old_bytes == before.tables[t].total_size
                    + new_bytes
            },
        },
{
}

/// A write that is taken in touches no table but its own and the one that it
/// creates or drops. A table that is created starts out empty, one that is
/// dropped loses its summary, and one that is activated stays as it is.
pub proof fn law_a_write_touches_its_tables_alone(
    before: TableSummariesView,
    t: TabletId,
    old_size: Option<usize>,
    new_size: Option<usize>,
    table_update: Option<TableUpdate>,
    mapping: Map<TabletId, MappedTable>,
    other: TabletId,
)
    requires
        other != t,
    ensures
        before.updated(t, old_size, new_size, table_update, mapping) matches Ok(after) ==> {
            let changed = table_update is Some && table_update->0.table_id_and_number.tablet_id
                == other;
            if changed && table_update->0.mode is Create {
                &&& after.tables.contains_key(other)
                &&& after.tables[other].num_values == 0
                &&& after.tables[other].total_size == 0
            } else if changed && table_update->0.mode is Drop {
                !after.tables.contains_key(other)
            } else {
                &&& after.tables.contains_key(other) == before.tables.contains_key(other)
                &&& after.tables.contains_key(other) ==> after.tables[other] == before.tables[other]
            }
        },
{
}

/// The user counts change by the documents of the write, unless the mapping
/// knows its table as a system table, and by the documents of a user table
/// that is dropped.
pub proof fn law_a_write_changes_the_user_counts(
    before: TableSummariesView,
    t: TabletId,
    old_size: Option<usize>,
    new_size: Option<usize>,
    table_update: Option<TableUpdate>,
    mapping: Map<TabletId, MappedTable>,
)
    requires
        before.tables.contains_key(t),
        before.tables[t].num_values + 1 <= usize::MAX,
        new_size is Some ==> before.tables[t].total_size + new_size->0 <= usize::MAX,
        before.tables[t].num_values <= before.num_user_documents,
        before.tables[t].total_size <= before.user_size,
        table_update matches Some(update) ==> before.tables.contains_key(
            update.table_id_and_number.tablet_id,
        ) ==> {
            let changed = before.tables[update.table_id_and_number.tablet_id];
            &&& changed.num_values + before.tables[t].num_values <= before.num_user_documents
            &&& changed.total_size + before.tables[t].total_size <= before.user_size
        },
    ensures
        before.updated(t, old_size, new_size, table_update, mapping) matches Ok(after) ==> {
            let user = !(mapping.contains_key(t) && mapping[t].system);
            let drops_user = table_update is Some && table_update->0.mode is Drop
                && !table_update->0.system && before.tables.contains_key(
                table_update->0.table_id_and_number.tablet_id,
            );
            let gone = before.tables[table_update->0.table_id_and_number.tablet_id];
            let fewer: int = (if user && old_size is Some {
                1int
            } else {
                0
            }) + (if drops_user {
                gone.num_values as int
            } else {
                0
            });
            let more: int = if user && new_size is Some {
                1
            } else {
                0
            };
            let less_bytes: int = (if user && old_size is Some {
                old_size->0 as int
            } else {
                0
            }) + (if drops_user {
                gone.total_size as int
            } else {
                0
            });
            let more_bytes: int = if user && new_size is Some {
                new_size->0 as int
            } else {
                0
            };
            &&& after.num_user_documents + fewer == before.num_user_documents + more
            &&& after.user_size + less_bytes == before.user_size + more_bytes
        },
{
}

/// A write can be taken in, unless a count would leave the range of its type, a
/// table is created that has a summary already, or the table that is dropped is
/// the one written to. A write that is refused anyhow can always be tried.
pub proof fn law_writes_that_fit_are_accepted(
    before: TableSummariesView,
    t: TabletId,
    old_size: Option<usize>,
    new_size: Option<usize>,
    table_update: Option<TableUpdate>,
    mapping: Map<TabletId, MappedTable>,
)
    ensures
        before.accepts(t, old_size, new_size, table_update, mapping) <==> {
            let old_count: int = if old_size is Some {
                1
            } else {
                0
            };
            let old_bytes: int = if old_size is Some {
                old_size->0 as int
            } else {
                0
            };
            let new_count: int = if new_size is Some {
                1
            } else {
                0
            };
            let new_bytes: int = if new_size is Some {
                new_size->0 as int
            } else {
                0
            };
            let held = before.tables[t];
            let count = held.num_values - old_count + new_count;
            let bytes = held.total_size - old_bytes + new_bytes;
            let changed = table_update->0.table_id_and_number.tablet_id;
            let drops_user = table_update is Some && table_update->0.mode is Drop
                && !table_update->0.system && before.tables.contains_key(changed);
            let gone: int = if drops_user {
                before.tables[changed].num_values as int
            } else {
                0
            };
            let gone_bytes: int = if drops_user {
                before.tables[changed].total_size as int
            } else {
                0
            };
            ||| !before.tables.contains_key(t)
            ||| old_count > held.num_values
            ||| old_bytes > held.total_size
            ||| {
                &&& count <= usize::MAX
                &&& bytes <= usize::MAX
                &&& table_update is Some && table_update->0.mode is Create
                    ==> !before.tables.contains_key(changed)
                &&& table_update is Some && table_update->0.mode is Drop ==> changed != t
                &&& gone <= before.num_user_documents
                &&& gone_bytes <= before.user_size
                &&& !(mapping.contains_key(t) && mapping[t].system) ==> {
                    &&& held.num_values <= before.num_user_documents - gone + count
                    &&& before.num_user_documents - gone + count <= usize::MAX
                    &&& held.total_size <= before.user_size - gone_bytes + bytes
                    &&& before.user_size - gone_bytes + bytes <= usize::MAX
                }
            }
        },
{
}

/// Two writes to one table, one after the other, count like one that goes from
/// the first old version to the last new one.
pub proof fn law_writes_add_up(
    before: TableSummariesView,
    t: TabletId,
    old_size: usize,
    between: usize,
    new_size: usize,
    mapping: Map<TabletId, MappedTable>,
)
    requires
        before.accepts(t, Some(old_size), Some(between), None, mapping),
        before.accepts(t, Some(old_size), Some(new_size), None, mapping),
        before.updated(t, Some(old_size), Some(between), None, mapping) is Ok,
    ensures
        before.updated(t, Some(old_size), Some(between), None, mapping)->Ok_0.updated(
            t,
            Some(between),
            Some(new_size),
            None,
            mapping,
        ) == before.updated(t, Some(old_size), Some(new_size), None, mapping),
{
    let once = before.updated(t, Some(old_size), Some(between), None, mapping)->Ok_0;
    let twice = once.updated(t, Some(between), Some(new_size), None, mapping)->Ok_0;
    let direct = before.updated(t, Some(old_size), Some(new_size), None, mapping)->Ok_0;
    assert(twice.tables =~= direct.tables);
}

} // verus!
