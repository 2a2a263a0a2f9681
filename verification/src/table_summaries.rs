//! How many documents the tables hold, and how large they are.

use crate::summary_map;
use crate::table_mapping;
use crate::table_mapping::{MappedTable, TableMapping, TableUpdate, TableUpdateMode};
use crate::totals;
use crate::types;
use crate::types::{ResolvedDocument, ResolvedDocumentId, Runtime, TabletId, Timestamp};
use imbl::OrdMap;
use std::collections::BTreeMap;
use vstd::prelude::*;

verus! {

/// Why the summaries could not take in a write.
#[derive(Clone, Copy, Debug, PartialEq, Eq, Structural)]
pub enum SummariesError {
    /// The document's tablet has no summary.
    NonexistentTable { tablet_id: TabletId },
    /// A document was taken out of a summary that does not hold as much.
    NegativeSummary,
}

/// The number of documents in a table and their size.
#[derive(Clone, Copy, Debug, PartialEq, Eq, Structural)]
pub struct TableSummary {
    pub num_values: usize,
    pub total_size: usize,
}

/// The summary of a table without documents.
pub open spec fn empty_summary() -> TableSummary {
    TableSummary { num_values: 0, total_size: 0 }
}

impl TableSummary {
    /// The summary can count one more document of the given size.
    pub open spec fn has_room_for(self, size: usize) -> bool {
        self.num_values < usize::MAX && self.total_size + size <= usize::MAX
    }

    /// The summary with one more document of the given size.
    pub open spec fn with_document(self, size: usize) -> TableSummary {
        TableSummary {
            num_values: (self.num_values + 1) as usize,
            total_size: (self.total_size + size) as usize,
        }
    }

    /// The summary with one document of the given size less. There is none if
    /// the table is empty or smaller than that.
    pub open spec fn without_document(self, size: usize) -> Result<TableSummary, SummariesError> {
        if 1 <= self.num_values && size <= self.total_size {
            Ok(
                TableSummary {
                    num_values: (self.num_values - 1) as usize,
                    total_size: (self.total_size - size) as usize,
                },
            )
        } else {
            Err(SummariesError::NegativeSummary)
        }
    }

    /// The summary once the old version of a document has left the table.
    pub open spec fn after_removal(self, old_size: Option<usize>) -> Result<
        TableSummary,
        SummariesError,
    > {
        match old_size {
            Some(size) => self.without_document(size),
            None => Ok(self),
        }
    }

    /// The summary once the new version of a document has entered the table.
    pub open spec fn after_insertion(self, new_size: Option<usize>) -> TableSummary {
        match new_size {
            Some(size) => self.with_document(size),
            None => self,
        }
    }

    pub fn empty() -> (summary: TableSummary)
        ensures
            summary == empty_summary(),
    {
        TableSummary { num_values: 0, total_size: 0 }
    }

    pub fn num_values(&self) -> (n: usize)
        ensures
            n == self.num_values,
    {
        self.num_values
    }

    pub fn total_size(&self) -> (n: usize)
        ensures
            n == self.total_size,
    {
        self.total_size
    }

    /// Counts one more document.
    pub fn insert(&self, size: usize) -> (summary: TableSummary)
        requires
            self.has_room_for(size),
        ensures
            summary == self.with_document(size),
    {
        TableSummary { num_values: self.num_values + 1, total_size: self.total_size + size }
    }

    /// Counts one document less.
    pub fn remove(&self, size: usize) -> (summary: Result<TableSummary, SummariesError>)
        ensures
            summary == self.without_document(size),
    {
        if self.num_values == 0 || self.total_size < size {
            return Err(SummariesError::NegativeSummary);
        }
        Ok(TableSummary { num_values: self.num_values - 1, total_size: self.total_size - size })
    }
}

/// The summaries of all tables as they stood at one timestamp.
pub struct TableSummarySnapshot {
    pub tables: BTreeMap<TabletId, TableSummary>,
    pub ts: Timestamp,
}

/// The tablets of a set of summaries that do not hold system tables.
pub open spec fn user_tablets(
    tables: Map<TabletId, TableSummary>,
    mapping: Map<TabletId, MappedTable>,
) -> Set<TabletId> {
    tables.dom().filter(|t: TabletId| !table_mapping::is_system(mapping, t))
}

/// How many documents the user tables hold.
pub open spec fn user_documents(
    tables: Map<TabletId, TableSummary>,
    mapping: Map<TabletId, MappedTable>,
) -> nat {
    totals::sum_over(user_tablets(tables, mapping), |t: TabletId| tables[t].num_values as nat)
}

/// How large the documents of the user tables are.
pub open spec fn user_bytes(
    tables: Map<TabletId, TableSummary>,
    mapping: Map<TabletId, MappedTable>,
) -> nat {
    totals::sum_over(user_tablets(tables, mapping), |t: TabletId| tables[t].total_size as nat)
}

/// The summaries of those tables that the mapping knows.
pub open spec fn existing_tables(
    tables: Map<TabletId, TableSummary>,
    mapping: Map<TabletId, MappedTable>,
) -> Map<TabletId, TableSummary> {
    Map::new(
        |t: TabletId| tables.contains_key(t) && mapping.contains_key(t),
        |t: TabletId| tables[t],
    )
}

/// What [`TableSummaries`] holds.
#[verifier::ext_equal]
pub struct TableSummariesView {
    pub tables: Map<TabletId, TableSummary>,
    pub num_user_documents: nat,
    pub user_size: nat,
}

/// The summaries after a table was created, activated or dropped.
pub open spec fn after_table_update(
    tables: Map<TabletId, TableSummary>,
    table_update: Option<TableUpdate>,
) -> Map<TabletId, TableSummary> {
    match table_update {
        Some(update) => match update.mode {
            TableUpdateMode::Create => tables.insert(
                update.table_id_and_number.tablet_id,
                empty_summary(),
            ),
            TableUpdateMode::Activate => tables,
            TableUpdateMode::Drop => tables.remove(update.table_id_and_number.tablet_id),
        },
        None => tables,
    }
}

/// What leaves the user counts with a table that is dropped: its summary, if
/// it has one and is a user table. A write that drops no such table takes
/// nothing.
pub open spec fn dropped_with_table(
    tables: Map<TabletId, TableSummary>,
    table_update: Option<TableUpdate>,
) -> TableSummary {
    match table_update {
        Some(update) => if update.mode == TableUpdateMode::Drop && !update.system
            && tables.contains_key(update.table_id_and_number.tablet_id) {
            tables[update.table_id_and_number.tablet_id]
        } else {
            empty_summary()
        },
        None => empty_summary(),
    }
}

impl TableSummariesView {
    /// Every table that has a summary is known to the mapping.
    pub open spec fn tables_exist(self, mapping: Map<TabletId, MappedTable>) -> bool {
        forall|t: TabletId| #[trigger] self.tables.contains_key(t) ==> mapping.contains_key(t)
    }

    /// The counts are those of the user tables among the summaries.
    pub open spec fn totals_agree(self, mapping: Map<TabletId, MappedTable>) -> bool {
        &&& self.tables.dom().finite()
        &&& self.num_user_documents == user_documents(self.tables, mapping)
        &&& self.user_size == user_bytes(self.tables, mapping)
    }

    /// The summary of a tablet. A tablet without one counts as empty.
    pub open spec fn summary(self, tablet_id: TabletId) -> TableSummary {
        if self.tables.contains_key(tablet_id) {
            self.tables[tablet_id]
        } else {
            empty_summary()
        }
    }

    /// A write can be taken in: either it is refused with an error, or no
    /// count leaves the range of its type, a table that is created has no
    /// summary yet, and the table that is dropped is not the one written to
    /// and was counted.
    pub open spec fn accepts(
        self,
        tablet_id: TabletId,
        old_size: Option<usize>,
        new_size: Option<usize>,
        table_update: Option<TableUpdate>,
        mapping: Map<TabletId, MappedTable>,
    ) -> bool {
        self.tables.contains_key(tablet_id) ==> match self.tables[tablet_id].after_removal(
            old_size,
        ) {
            Err(_) => true,
            Ok(rest) => {
                let before = self.tables[tablet_id];
                let after = rest.after_insertion(new_size);
                let dropped = dropped_with_table(self.tables, table_update);
                &&& new_size matches Some(size) ==> rest.has_room_for(size)
                &&& table_update matches Some(update) ==> {
                    let changed = update.table_id_and_number.tablet_id;
                    &&& update.mode == TableUpdateMode::Create ==> !self.tables.contains_key(
                        changed,
                    )
                    &&& update.mode == TableUpdateMode::Drop ==> changed != tablet_id
                }
                &&& dropped.num_values <= self.num_user_documents
                &&& dropped.total_size <= self.user_size
                &&& !table_mapping::is_system(mapping, tablet_id) ==> {
                    &&& before.num_values <= self.num_user_documents - dropped.num_values
                        + after.num_values <= usize::MAX
                    &&& before.total_size <= self.user_size - dropped.total_size
                        + after.total_size <= usize::MAX
                }
            },
        }
    }

    /// The summaries after a write, or why it is refused. A user table that is
    /// dropped takes its documents out of the counts; the table that is
    /// written to, if it is a user table, changes them by as much as its own
    /// summary changes.
    pub open spec fn updated(
        self,
        tablet_id: TabletId,
        old_size: Option<usize>,
        new_size: Option<usize>,
        table_update: Option<TableUpdate>,
        mapping: Map<TabletId, MappedTable>,
    ) -> Result<TableSummariesView, SummariesError> {
        if !self.tables.contains_key(tablet_id) {
            Err(SummariesError::NonexistentTable { tablet_id })
        } else {
            let before = self.tables[tablet_id];
            match before.after_removal(old_size) {
                Err(e) => Err(e),
                Ok(rest) => {
                    let after = rest.after_insertion(new_size);
                    let tables = after_table_update(self.tables, table_update).insert(
                        tablet_id,
                        after,
                    );
                    let dropped = dropped_with_table(self.tables, table_update);
                    let documents = self.num_user_documents - dropped.num_values;
                    let size = self.user_size - dropped.total_size;
                    if table_mapping::is_system(mapping, tablet_id) {
                        Ok(
                            TableSummariesView {
                                tables,
                                num_user_documents: documents as nat,
                                user_size: size as nat,
                            },
                        )
                    } else {
                        Ok(
                            TableSummariesView {
                                tables,
                                num_user_documents: (documents + after.num_values
                                    - before.num_values) as nat,
                                user_size: (size + after.total_size - before.total_size) as nat,
                            },
                        )
                    }
                },
            }
        }
    }
}

/// The summaries of the tables that exist, with the number and size of the
/// documents in user tables.
pub struct TableSummaries {
    pub tables: OrdMap<TabletId, TableSummary>,
    pub num_user_documents: usize,
    pub user_size: usize,
}

impl View for TableSummaries {
    type V = TableSummariesView;

    open spec fn view(&self) -> TableSummariesView {
        TableSummariesView {
            tables: summary_map::summaries_in(self.tables),
            num_user_documents: self.num_user_documents as nat,
            user_size: self.user_size as nat,
        }
    }
}

impl Clone for TableSummaries {
    fn clone(&self) -> (copy: Self)
        ensures
            copy@ == self@,
    {
        TableSummaries {
            tables: summary_map::clone_map(&self.tables),
            num_user_documents: self.num_user_documents,
            user_size: self.user_size,
        }
    }
}

impl TableSummaries {
    /// Takes up the summaries of the tables that the mapping knows. The others
    /// are left out first: an unknown tablet does not count as a system one,
    /// so its documents would be taken for user documents.
    pub fn new(snapshot: TableSummarySnapshot, table_mapping: &TableMapping) -> (summaries: Self)
        requires
            user_documents(existing_tables(snapshot.tables@, table_mapping@), table_mapping@)
                <= usize::MAX,
            user_bytes(existing_tables(snapshot.tables@, table_mapping@), table_mapping@)
                <= usize::MAX,
        ensures
            summaries@.tables == existing_tables(snapshot.tables@, table_mapping@),
            forall|t: TabletId| #[trigger]
                summary_map::summaries_in(summaries.tables).contains_key(t) <==> (
                snapshot.tables@.contains_key(t) && table_mapping@.contains_key(t)),
            forall|t: TabletId| #[trigger]
                summary_map::summaries_in(summaries.tables).contains_key(t)
                    ==> summary_map::summaries_in(summaries.tables)[t] == snapshot.tables@[t],
            summaries.num_user_documents == user_documents(
                summary_map::summaries_in(summaries.tables),
                table_mapping@,
            ),
            summaries.user_size == user_bytes(
                summary_map::summaries_in(summaries.tables),
                table_mapping@,
            ),
            summaries@.tables_exist(table_mapping@),
            summaries@.totals_agree(table_mapping@),
    {
        let mut tables: OrdMap<TabletId, TableSummary> = summary_map::empty_map();
        let mut num_user_documents: usize = 0;
        let mut user_size: usize = 0;
        let ghost all = snapshot.tables@;
        let ghost kept = existing_tables(all, table_mapping@);
        let ghost num_values = |t: TabletId| all[t].num_values as nat;
        let ghost total_size = |t: TabletId| all[t].total_size as nat;
        proof {
            lemma_existing_is_finite(all, table_mapping@);
            totals::lemma_sum_same_values(
                user_tablets(kept, table_mapping@),
                num_values,
                |t: TabletId| kept[t].num_values as nat,
            );
            totals::lemma_sum_same_values(
                user_tablets(kept, table_mapping@),
                total_size,
                |t: TabletId| kept[t].total_size as nat,
            );
            assert(user_tablets(summary_map::summaries_in(tables), table_mapping@) =~= Set::empty());
        }
        for entry in it: snapshot.tables.iter()
            invariant
                all == snapshot.tables@,
                kept == existing_tables(all, table_mapping@),
                num_values == |t: TabletId| all[t].num_values as nat,
                total_size == |t: TabletId| all[t].total_size as nat,
                it.seq() == vstd::std_specs::iter::IteratorSpec::remaining(
                    &vstd::std_specs::btree::spec_btree_map_iter(&snapshot.tables),
                ),
                it.seq().no_duplicates(),
                user_tablets(kept, table_mapping@).finite(),
                totals::sum_over(user_tablets(kept, table_mapping@), num_values) <= usize::MAX,
                totals::sum_over(user_tablets(kept, table_mapping@), total_size) <= usize::MAX,
                forall|t: TabletId| #[trigger]
                    summary_map::summaries_in(tables).contains_key(t) ==> kept.contains_key(t) && all[t]
                        == summary_map::summaries_in(tables)[t],
                forall|i: int|
                    #![trigger it.seq()[i]]
                    0 <= i < it.index() ==> (kept.contains_key(*it.seq()[i].0)
                        ==> summary_map::summaries_in(tables).contains_key(*it.seq()[i].0)),
                forall|i: int|
                    #![trigger it.seq()[i]]
                    it.index() <= i < it.seq().len() ==> !summary_map::summaries_in(tables).contains_key(
                        *it.seq()[i].0,
                    ),
                num_user_documents == totals::sum_over(
                    user_tablets(summary_map::summaries_in(tables), table_mapping@),
                    num_values,
                ),
                user_size == totals::sum_over(
                    user_tablets(summary_map::summaries_in(tables), table_mapping@),
                    total_size,
                ),
        {
            let (tablet_id, summary): (&TabletId, &TableSummary) = entry;
            let ghost so_far = summary_map::summaries_in(tables);
            proof {
                assert(all.contains_key(*it.seq()[it.index()].0));
                assert forall|i: int| it.index() < i < it.seq().len() implies *(
                #[trigger] it.seq()[i]).0 != *tablet_id by {
                    assert(all[*it.seq()[i].0] == *it.seq()[i].1);
                }
            }
            if table_mapping.tablet_id_exists(*tablet_id) {
                summary_map::insert(&mut tables, *tablet_id, *summary);
                proof {
                    let m = table_mapping@;
                    lemma_count_one_more(so_far, kept, m, *tablet_id, *summary, num_values);
                    lemma_count_one_more(so_far, kept, m, *tablet_id, *summary, total_size);
                }
                if !table_mapping.is_system_tablet(*tablet_id) {
                    num_user_documents = num_user_documents + summary.num_values();
                    user_size = user_size + summary.total_size();
                }
            }
        }
        proof {
            let listed = vstd::std_specs::iter::IteratorSpec::remaining(
                &vstd::std_specs::btree::spec_btree_map_iter(&snapshot.tables),
            );
            assert forall|t: TabletId| kept.contains_key(t) implies summary_map::summaries_in(
                tables,
            ).contains_key(t) by {
                assert(all.contains_key(t));
                assert(listed.contains((&t, &all[t])));
            }
            assert(summary_map::summaries_in(tables) =~= kept);
        }
        TableSummaries { tables, num_user_documents, user_size }
    }

    /// The number of documents in a table.
    pub fn count(&self, table: TabletId) -> (n: u64)
        ensures
            n == self@.summary(table).num_values,
            self@.tables.contains_key(table) ==> n == self@.tables[table].num_values,
            !self@.tables.contains_key(table) ==> n == 0,
    {
        match summary_map::get(&self.tables, table) {
            Some(summary) => summary.num_values() as u64,
            None => 0,
        }
    }

    /// The summary of a table. A table without one counts as empty.
    pub fn tablet_summary(&self, table: &TabletId) -> (summary: TableSummary)
        ensures
            summary == self@.summary(*table),
            self@.tables.contains_key(*table) ==> summary == self@.tables[*table],
            !self@.tables.contains_key(*table) ==> summary.num_values == 0 && summary.total_size
                == 0,
    {
        match summary_map::get(&self.tables, *table) {
            Some(summary) => summary,
            None => TableSummary::empty(),
        }
    }

    /// Whether [`TableSummaries::update`] can be called with these arguments.
    pub fn accepts_update<RT: Runtime>(
        &self,
        document_id: ResolvedDocumentId,
        old_document: Option<&ResolvedDocument<RT>>,
        new_document: Option<&ResolvedDocument<RT>>,
        table_update: Option<&TableUpdate>,
        table_mapping: &TableMapping,
    ) -> (accepted: bool)
        ensures
            accepted == self@.accepts(
                document_id.tablet_id,
                types::document_size(old_document),
                types::document_size(new_document),
                table_mapping::referred_update(table_update),
                table_mapping@,
            ),
    {
        let before: TableSummary = match summary_map::get(&self.tables, document_id.tablet_id) {
            Some(summary) => summary,
            None => return true,
        };
        let mut after: TableSummary = before;
        if let Some(old_value) = old_document {
            match after.remove(old_value.size) {
                Ok(rest) => {
                    after = rest;
                },
                Err(_) => return true,
            }
        }
        if let Some(new_value) = new_document {
            if after.num_values == usize::MAX || usize::MAX - after.total_size < new_value.size {
                return false;
            }
            after = after.insert(new_value.size);
        }
        let mut num_user_documents: usize = self.num_user_documents;
        let mut user_size: usize = self.user_size;
        if let Some(update) = table_update {
            let changed: TabletId = update.table_id_and_number.tablet_id;
            match update.mode {
                TableUpdateMode::Create => {
                    if summary_map::get(&self.tables, changed).is_some() {
                        return false;
                    }
                },
                TableUpdateMode::Activate => {},
                TableUpdateMode::Drop => {
                    if changed == document_id.tablet_id {
                        return false;
                    }
                    if let Some(dropped) = summary_map::get(&self.tables, changed) {
                        if !update.system {
                            if num_user_documents < dropped.num_values || user_size
                                < dropped.total_size {
                                return false;
                            }
                            num_user_documents = num_user_documents - dropped.num_values;
                            user_size = user_size - dropped.total_size;
                        }
                    }
                },
            }
        }
        if table_mapping.is_system_tablet(document_id.tablet_id) {
            return true;
        }
        usize::MAX - after.num_values >= num_user_documents && usize::MAX - after.total_size
            >= user_size && num_user_documents + after.num_values >= before.num_values
            && user_size + after.total_size >= before.total_size
    }

    /// Takes in the write of one document, and with it the table that the
    /// write creates, activates or drops. Only tables that exist are counted:
    /// the documents of a user table leave the counts when it is dropped. A
    /// write that is refused changes nothing.
    pub fn update<RT: Runtime>(
        &mut self,
        document_id: ResolvedDocumentId,
        old_document: Option<&ResolvedDocument<RT>>,
        new_document: Option<&ResolvedDocument<RT>>,
        table_update: Option<&TableUpdate>,
        table_mapping: &TableMapping,
    ) -> (result: Result<(), SummariesError>)
        requires
            old(self)@.accepts(
                document_id.tablet_id,
                types::document_size(old_document),
                types::document_size(new_document),
                table_mapping::referred_update(table_update),
                table_mapping@,
            ),
        ensures
            match old(self)@.updated(
                document_id.tablet_id,
                types::document_size(old_document),
                types::document_size(new_document),
                table_mapping::referred_update(table_update),
                table_mapping@,
            ) {
                Ok(view) => result is Ok && final(self)@ == view,
                Err(e) => result == Err::<(), SummariesError>(e) && final(self)@ == old(self)@,
            },
            result is Ok ==> {
                let before = summary_map::summaries_in(old(self).tables)[document_id.tablet_id];
                let after = summary_map::summaries_in(final(self).tables)[document_id.tablet_id];
                &&& after.num_values + (if old_document is Some {
                    1int
                } else {
                    0
                }) == before.num_values + (if new_document is Some {
                    1int
                } else {
                    0
                })
                &&& after.total_size + (if old_document is Some {
                    old_document->0.size as int
                } else {
                    0
                }) == before.total_size + (if new_document is Some {
                    new_document->0.size as int
                } else {
                    0
                })
            },
            result is Ok && table_update is None && !(table_mapping@.contains_key(
                document_id.tablet_id,
            ) && table_mapping@[document_id.tablet_id].system) ==> {
                &&& final(self).num_user_documents + (if old_document is Some {
                    1int
                } else {
                    0
                }) == old(self).num_user_documents + (if new_document is Some {
                    1int
                } else {
                    0
                })
                &&& final(self).user_size + (if old_document is Some {
                    old_document->0.size as int
                } else {
                    0
                }) == old(self).user_size + (if new_document is Some {
                    new_document->0.size as int
                } else {
                    0
                })
            },
    {
        let tablet_id: TabletId = document_id.tablet_id;
        let mut table_summary: TableSummary = match summary_map::get(&self.tables, tablet_id) {
            Some(summary) => summary,
            None => return Err(SummariesError::NonexistentTable { tablet_id }),
        };
        if let Some(old_value) = old_document {
            table_summary = match table_summary.remove(old_value.size) {
                Ok(rest) => rest,
                Err(e) => return Err(e),
            };
        }
        if let Some(new_value) = new_document {
            table_summary = table_summary.insert(new_value.size);
        }
        if let Some(update) = table_update {
            match update.mode {
                TableUpdateMode::Create => {
                    summary_map::insert(
                        &mut self.tables,
                        update.table_id_and_number.tablet_id,
                        TableSummary::empty(),
                    );
                },
                TableUpdateMode::Activate => {},
                TableUpdateMode::Drop => {
                    if let Some(dropped) = summary_map::remove(
                        &mut self.tables,
                        update.table_id_and_number.tablet_id,
                    ) {
                        if !update.system {
                            self.num_user_documents = self.num_user_documents
                                - dropped.num_values();
                            self.user_size = self.user_size - dropped.total_size();
                        }
                    }
                },
            }
        }
        let new_info_num_values: usize = table_summary.num_values();
        let new_info_total_size: usize = table_summary.total_size();
        if let Some(old_summary) = summary_map::insert(&mut self.tables, tablet_id, table_summary) {
            if !table_mapping.is_system_tablet(tablet_id) {
                self.num_user_documents = self.num_user_documents + new_info_num_values
                    - old_summary.num_values();
                self.user_size = self.user_size + new_info_total_size - old_summary.total_size();
            }
        }
        Ok(())
    }
}

/// A part of a finite set of summaries is finite.
proof fn lemma_existing_is_finite(
    tables: Map<TabletId, TableSummary>,
    mapping: Map<TabletId, MappedTable>,
)
    requires
        tables.dom().finite(),
    ensures
        existing_tables(tables, mapping).dom().finite(),
        user_tablets(existing_tables(tables, mapping), mapping).finite(),
{
    let kept = existing_tables(tables, mapping).dom();
    vstd::set_lib::lemma_set_subset_finite(tables.dom(), kept);
    vstd::set_lib::lemma_set_subset_finite(
        kept,
        user_tablets(existing_tables(tables, mapping), mapping),
    );
}

/// What one more tablet of `kept` adds to a sum over the user tablets seen so
/// far, which stays below the sum over all of them.
proof fn lemma_count_one_more(
    so_far: Map<TabletId, TableSummary>,
    kept: Map<TabletId, TableSummary>,
    mapping: Map<TabletId, MappedTable>,
    tablet_id: TabletId,
    summary: TableSummary,
    f: spec_fn(TabletId) -> nat,
)
    requires
        user_tablets(kept, mapping).finite(),
        forall|t: TabletId| #[trigger] so_far.contains_key(t) ==> kept.contains_key(t),
        kept.contains_key(tablet_id),
        !so_far.contains_key(tablet_id),
    ensures
        totals::sum_over(user_tablets(so_far.insert(tablet_id, summary), mapping), f) == totals::sum_over(
            user_tablets(so_far, mapping),
            f,
        ) + (if table_mapping::is_system(mapping, tablet_id) {
            0
        } else {
            f(tablet_id)
        }),
        totals::sum_over(user_tablets(so_far.insert(tablet_id, summary), mapping), f) <= totals::sum_over(
            user_tablets(kept, mapping),
            f,
        ),
{
    let before = user_tablets(so_far, mapping);
    let after = user_tablets(so_far.insert(tablet_id, summary), mapping);
    assert(after.subset_of(user_tablets(kept, mapping)));
    assert(before.subset_of(user_tablets(kept, mapping)));
    totals::lemma_sum_subset(after, user_tablets(kept, mapping), f);
    vstd::set_lib::lemma_set_subset_finite(user_tablets(kept, mapping), before);
    if table_mapping::is_system(mapping, tablet_id) {
        assert(after =~= before);
    } else {
        totals::lemma_sum_insert(before, f, tablet_id);
        assert(after =~= before.insert(tablet_id));
    }
}

} // verus!
