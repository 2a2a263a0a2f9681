//! The state of the database at one timestamp.

use crate::storage::StorageByTable;
use crate::summary_map;
use crate::table_mapping;
use crate::table_mapping::{
    MappedTable, TableKey, TableMapping, TableRegistry, TabletIdAndTableNumber,
};
use crate::table_summaries;
use crate::table_summaries::{TableSummaries, TableSummariesView, TableSummary};
use crate::types::{Runtime, TableName, TableNamespace, TabletId};
use std::sync::Arc;
use vstd::prelude::*;

verus! {

/// An index that is in use.
pub struct EnabledIndex {
    /// The tablet that it is an index of.
    pub tablet_id: TabletId,
    /// What it is called among the indexes of its table.
    pub descriptor: String,
    /// Whether it is the database's own, and not a user's.
    pub system_owned: bool,
}

/// The metadata of all indexes, with those that are in use.
pub struct IndexRegistry<RT: Runtime> {
    pub metadata: Arc<RT::IndexMetadata>,
    pub enabled: Vec<EnabledIndex>,
}

/// A snapshot of the tables, registries and indexes of the database. What is
/// large in it is shared between copies.
pub struct Snapshot<RT: Runtime> {
    pub table_registry: Arc<TableRegistry>,
    pub schema_registry: Arc<RT::SchemaRegistry>,
    pub component_registry: Arc<RT::ComponentRegistry>,
    pub table_summaries: TableSummaries,
    pub index_registry: Arc<IndexRegistry<RT>>,
    pub in_memory_indexes: Arc<RT::InMemoryIndexes>,
    pub text_indexes: Arc<RT::TextIndexes>,
    pub vector_indexes: Arc<RT::VectorIndexes>,
}

/// What a [`Snapshot`] holds.
#[verifier::ext_equal]
pub struct SnapshotView<RT: Runtime> {
    pub table_registry: Arc<TableRegistry>,
    pub schema_registry: Arc<RT::SchemaRegistry>,
    pub component_registry: Arc<RT::ComponentRegistry>,
    pub table_summaries: TableSummariesView,
    pub index_registry: Arc<IndexRegistry<RT>>,
    pub in_memory_indexes: Arc<RT::InMemoryIndexes>,
    pub text_indexes: Arc<RT::TextIndexes>,
    pub vector_indexes: Arc<RT::VectorIndexes>,
}

impl<RT: Runtime> View for Snapshot<RT> {
    type V = SnapshotView<RT>;

    open spec fn view(&self) -> SnapshotView<RT> {
        SnapshotView {
            table_registry: self.table_registry,
            schema_registry: self.schema_registry,
            component_registry: self.component_registry,
            table_summaries: self.table_summaries@,
            index_registry: self.index_registry,
            in_memory_indexes: self.in_memory_indexes,
            text_indexes: self.text_indexes,
            vector_indexes: self.vector_indexes,
        }
    }
}

impl<RT: Runtime> Clone for Snapshot<RT> {
    fn clone(&self) -> (copy: Self)
        ensures
            copy@ == self@,
    {
        Snapshot {
            table_registry: self.table_registry.clone(),
            schema_registry: self.schema_registry.clone(),
            component_registry: self.component_registry.clone(),
            table_summaries: self.table_summaries.clone(),
            index_registry: self.index_registry.clone(),
            in_memory_indexes: self.in_memory_indexes.clone(),
            text_indexes: self.text_indexes.clone(),
            vector_indexes: self.vector_indexes.clone(),
        }
    }
}

/// Why the storage of a snapshot cannot be told.
pub enum StorageError {
    /// An active table has a user's index but is not among the user tables.
    IndexOnNonexistentTable {
        descriptor: String,
        table_name: TableName,
        namespace: TableNamespace,
    },
}

/// A list of tables as it is handed out: namespace and name, and the summary.
pub type TableListing = Vec<((TableNamespace, TableName), TableSummary)>;

/// A list of tables with their names by view.
pub open spec fn listing_view(
    listing: Seq<((TableNamespace, TableName), TableSummary)>,
) -> Seq<(TableKey, TableSummary)> {
    listing.map_values(
        |entry: ((TableNamespace, TableName), TableSummary)|
            ((entry.0.0, entry.0.1@), entry.1),
    )
}

/// How many of the indexes are charged to the table of that name: those of
/// users on a tablet that is active under it.
pub open spec fn charges(
    indexes: Seq<EnabledIndex>,
    mapping: Map<TabletId, MappedTable>,
    key: TableKey,
) -> nat
    decreases indexes.len(),
{
    if indexes.len() == 0 {
        0
    } else {
        let index = indexes.last();
        let charged = is_charged(index, mapping) && mapping[index.tablet_id].key() == key;
        charges(indexes.drop_last(), mapping, key) + (if charged {
            1nat
        } else {
            0nat
        })
    }
}

/// Whether an index is charged to a table at all.
pub open spec fn is_charged(index: EnabledIndex, mapping: Map<TabletId, MappedTable>) -> bool {
    table_mapping::is_active(mapping, index.tablet_id) && !index.system_owned
}

impl<RT: Runtime> SnapshotView<RT> {
    /// The tables that the mapping knows.
    pub open spec fn mapping(self) -> Map<TabletId, MappedTable> {
        self.table_registry.table_mapping@
    }

    /// Every tablet that has a summary and is in the active state is known to
    /// the mapping.
    pub open spec fn active_tables_mapped(self) -> bool {
        forall|t: TabletId|
            self.table_summaries.tables.contains_key(t) && self.table_registry.state_is_active(t)
                ==> #[trigger] self.mapping().contains_key(t)
    }

    /// The tablet has a summary, is in the active state, and is not a system
    /// table's.
    pub open spec fn is_user_table(self, t: TabletId) -> bool {
        &&& self.table_summaries.tables.contains_key(t)
        &&& self.table_registry.state_is_active(t)
        &&& !table_mapping::is_system(self.mapping(), t)
    }

    /// `tablets` are the user tables, in ascending order.
    pub open spec fn are_user_tablets(self, tablets: Seq<TabletId>) -> bool {
        &&& forall|i: int, j: int| 0 <= i < j < tablets.len() ==> tablets[i] < tablets[j]
        &&& forall|t: TabletId| #[trigger] tablets.contains(t) <==> self.is_user_table(t)
    }

    /// The name and the summary of each of the tablets.
    pub open spec fn describe(self, tablets: Seq<TabletId>) -> Seq<(TableKey, TableSummary)> {
        tablets.map_values(
            |t: TabletId| (self.mapping()[t].key(), self.table_summaries.tables[t]),
        )
    }

    /// The list describes the user tables, in the order of their tablets.
    pub open spec fn is_listing(self, listing: Seq<(TableKey, TableSummary)>) -> bool {
        exists|tablets: Seq<TabletId>| #[trigger]
            self.are_user_tablets(tablets) && listing == self.describe(tablets)
    }

    /// The tablet is a user table of that name, and the highest one there is.
    pub open spec fn is_last_named(self, t: TabletId, key: TableKey) -> bool {
        &&& self.is_user_table(t)
        &&& self.mapping()[t].key() == key
        &&& forall|u: TabletId|
            self.is_user_table(u) && #[trigger] self.mapping()[u].key() == key ==> u <= t
    }

    /// The size of the documents in each user table.
    pub open spec fn document_sizes(self) -> Map<TableKey, usize> {
        Map::new(
            |k: TableKey| exists|t: TabletId| #[trigger] self.is_last_named(t, k),
            |k: TableKey|
                self.table_summaries.tables[choose|t: TabletId| #[trigger]
                    self.is_last_named(t, k)].total_size,
        )
    }

    /// The index is charged to a table that is not among the user tables.
    pub open spec fn is_stray(self, index: EnabledIndex) -> bool {
        is_charged(index, self.mapping()) && !self.document_sizes().contains_key(
            self.mapping()[index.tablet_id].key(),
        )
    }

    /// The first `n` indexes are charged to user tables only.
    pub open spec fn none_stray(self, n: int) -> bool {
        forall|i: int|
            0 <= i < n ==> !self.is_stray(#[trigger] self.index_registry.enabled@[i])
    }

    /// How much the first `n` indexes take up on a table: the size of its
    /// documents, once for each index that is charged to it.
    pub open spec fn index_size(self, n: int, key: TableKey) -> nat {
        self.document_sizes()[key] as nat * charges(
            self.index_registry.enabled@.take(n),
            self.mapping(),
            key,
        )
    }

    /// No index size leaves the range of its type before an index is met that
    /// is charged to no user table.
    pub open spec fn index_sizes_fit(self) -> bool {
        forall|n: int, k: TableKey|
            0 <= n <= self.index_registry.enabled@.len() && self.none_stray(n)
                && self.document_sizes().contains_key(k) ==> #[trigger] self.index_size(n, k)
                <= usize::MAX
    }

    /// The document size of each user table, and the index size as far as the
    /// first `n` indexes go.
    pub open spec fn storage_after(self, n: int) -> Map<TableKey, (usize, usize)> {
        Map::new(
            |k: TableKey| self.document_sizes().contains_key(k),
            |k: TableKey| (self.document_sizes()[k], self.index_size(n, k) as usize),
        )
    }

    /// The document and index size of each user table.
    pub open spec fn storage(self) -> Map<TableKey, (usize, usize)> {
        self.storage_after(self.index_registry.enabled@.len() as int)
    }

    /// The `i`th index is the first that is charged to no user table, and the
    /// error tells of it.
    pub open spec fn explains(self, i: int, error: StorageError) -> bool {
        let indexes = self.index_registry.enabled@;
        &&& 0 <= i < indexes.len()
        &&& self.none_stray(i)
        &&& self.is_stray(indexes[i])
        &&& match error {
            StorageError::IndexOnNonexistentTable { descriptor, table_name, namespace } => {
                &&& descriptor == indexes[i].descriptor
                &&& (namespace, table_name@) == self.mapping()[indexes[i].tablet_id].key()
            },
        }
    }

    /// What is told of the storage.
    pub open spec fn storage_result(self, result: Result<StorageByTable, StorageError>) -> bool {
        match result {
            Ok(storage) => {
                &&& self.none_stray(self.index_registry.enabled@.len() as int)
                &&& storage@ == self.storage()
            },
            Err(error) => exists|i: int| #[trigger] self.explains(i, error),
        }
    }
}

impl<RT: Runtime> Snapshot<RT> {
    /// The names, numbers and namespaces of the tables.
    pub fn table_mapping(&self) -> (mapping: &TableMapping)
        ensures
            mapping@ == self@.mapping(),
    {
        &self.table_registry.table_mapping
    }

    /// The summary of the active table of that name, or the empty summary if
    /// there is no such table.
    pub fn table_summary(&self, namespace: TableNamespace, table: &TableName) -> (summary:
        TableSummary)
        ensures
            summary == (match table_mapping::active_tablet(
                self@.mapping(),
                (namespace, table@),
            ) {
                Some(t) => self@.table_summaries.summary(t),
                None => table_summaries::empty_summary(),
            }),
    {
        let table_id: TabletIdAndTableNumber = match self.table_mapping().id(namespace, table) {
            Some(table_id) => table_id,
            None => return TableSummary::empty(),
        };
        self.table_summaries.tablet_summary(&table_id.tablet_id)
    }

    /// Whether every active tablet with a summary is known to the mapping, as
    /// the functions that name the user tables ask.
    pub fn active_tables_are_mapped(&self) -> (mapped: bool)
        ensures
            mapped == self@.active_tables_mapped(),
    {
        let entries: Vec<(TabletId, TableSummary)> = summary_map::entries(
            &self.table_summaries.tables,
        );
        let mut i: usize = 0;
        while i < entries.len()
            invariant
                i <= entries@.len(),
                summary_map::lists_all(entries@, self@.table_summaries.tables),
                forall|j: int|
                    #![trigger entries@[j]]
                    0 <= j < i && self@.table_registry.state_is_active(entries@[j].0)
                        ==> self@.mapping().contains_key(entries@[j].0),
            decreases entries@.len() - i,
        {
            let tablet_id: TabletId = entries[i].0;
            if self.table_registry.is_state_active(tablet_id)
                && !self.table_mapping().tablet_id_exists(tablet_id) {
                assert(self@.table_summaries.tables.contains_key(entries@[i as int].0));
                return false;
            }
            i = i + 1;
        }
        true
    }

    /// The active user tables with their summaries, in the order of their
    /// tablets.
    pub fn iter_user_table_summaries(&self) -> (listing: TableListing)
        requires
            self@.active_tables_mapped(),
        ensures
            self@.is_listing(listing_view(listing@)),
    {
        let entries: Vec<(TabletId, TableSummary)> = summary_map::entries(
            &self.table_summaries.tables,
        );
        let mut listing: TableListing = Vec::new();
        let ghost mut tablets: Seq<TabletId> = Seq::empty();
        let mut i: usize = 0;
        while i < entries.len()
            invariant
                i <= entries@.len(),
                self@.active_tables_mapped(),
                summary_map::tablets_ascend(entries@),
                summary_map::lists_all(entries@, self@.table_summaries.tables),
                forall|x: int, y: int| 0 <= x < y < tablets.len() ==> tablets[x] < tablets[y],
                forall|x: int|
                    #![trigger tablets[x]]
                    0 <= x < tablets.len() ==> self@.is_user_table(tablets[x]) && exists|j: int|
                        0 <= j < i && (#[trigger] entries@[j]).0 == tablets[x],
                forall|j: int|
                    #![trigger entries@[j]]
                    0 <= j < i && self@.is_user_table(entries@[j].0) ==> tablets.contains(
                        entries@[j].0,
                    ),
                listing_view(listing@) =~= self@.describe(tablets),
            decreases entries@.len() - i,
        {
            let (tablet_id, summary): (TabletId, TableSummary) = entries[i];
            let mapping: &TableMapping = self.table_mapping();
            let ghost before = tablets;
            proof {
                assert(self@.table_summaries.tables.contains_key(entries@[i as int].0));
            }
            if self.table_registry.is_state_active(tablet_id) {
                if let (Some(namespace), Some(name)) = (
                    mapping.tablet_namespace(tablet_id),
                    mapping.tablet_name(tablet_id),
                ) {
                    if !mapping.is_system_tablet(tablet_id) {
                        let ghost listed = listing_view(listing@);
                        listing.push(((namespace, name), summary));
                        proof {
                            tablets = tablets.push(tablet_id);
                            let named = ((namespace, name@), summary);
                            assert(listing_view(listing@) =~= listed.push(named));
                            assert(self@.describe(tablets) =~= self@.describe(before).push(named));
                            assert(tablets[before.len() as int] == tablet_id);
                        }
                    }
                }
            }
            proof {
                assert forall|j: int|
                    #![trigger entries@[j]]
                    0 <= j < i + 1 && self@.is_user_table(
                        entries@[j].0,
                    ) implies tablets.contains(entries@[j].0) by {
                    if j < i {
                        let x = choose|x: int|
                            0 <= x < before.len() && before[x] == entries@[j].0;
                        assert(tablets[x] == entries@[j].0);
                    } else {
                        assert(tablets[before.len() as int] == tablet_id);
                    }
                }
            }
            i = i + 1;
        }
        proof {
            assert(self@.are_user_tablets(tablets));
        }
        listing
    }

    /// The document and index storage of each user table, as
    /// [`Snapshot::get_user_document_and_index_storage`] tells it, or nothing
    /// where that function cannot be called.
    pub fn checked_user_document_and_index_storage(&self) -> (result: Option<
        Result<StorageByTable, StorageError>,
    >)
        ensures
            match result {
                Some(told) => {
                    &&& self@.active_tables_mapped()
                    &&& self@.index_sizes_fit()
                    &&& self@.storage_result(told)
                },
                None => !(self@.active_tables_mapped() && self@.index_sizes_fit()),
            },
    {
        if !self.active_tables_are_mapped() {
            return None;
        }
        let mut storage: StorageByTable = self.document_storage();
        let mapping: &TableMapping = self.table_mapping();
        let enabled: &Vec<EnabledIndex> = &self.index_registry.enabled;
        proof {
            assert forall|k: TableKey| self@.index_size(0, k) == 0 by {
                assert(enabled@.take(0).len() == 0);
                assert(self@.document_sizes()[k] as nat * 0nat == 0) by (nonlinear_arith);
            }
            assert(storage@ =~= self@.storage_after(0));
        }
        let mut i: usize = 0;
        while i < enabled.len()
            invariant
                i <= enabled@.len(),
                enabled@ == self@.index_registry.enabled@,
                mapping@ == self@.mapping(),
                self@.active_tables_mapped(),
                self@.none_stray(i as int),
                storage@ == self@.storage_after(i as int),
                forall|n: int, k: TableKey|
                    0 <= n <= i && self@.document_sizes().contains_key(k)
                        ==> #[trigger] self@.index_size(n, k) <= usize::MAX,
            decreases enabled@.len() - i,
        {
            let index: &EnabledIndex = &enabled[i];
            proof {
                self@.lemma_one_more_index(i as int);
            }
            if mapping.is_active(index.tablet_id) && !index.system_owned {
                if let (Some(namespace), Some(table_name)) = (
                    mapping.tablet_namespace(index.tablet_id),
                    mapping.tablet_name(index.tablet_id),
                ) {
                    let ghost key = (namespace, table_name@);
                    match storage.get(namespace, &table_name) {
                        Some((document_size, total_index_size)) => {
                            if usize::MAX - total_index_size < document_size {
                                proof {
                                    assert(self@.none_stray(i + 1));
                                    assert(self@.index_size(i + 1, key) > usize::MAX);
                                }
                                return None;
                            }
                            storage.insert(
                                namespace,
                                table_name,
                                document_size,
                                total_index_size + document_size,
                            );
                            proof {
                                assert(storage@ =~= self@.storage_after(i + 1));
                            }
                        },
                        None => {
                            let error = StorageError::IndexOnNonexistentTable {
                                descriptor: index.descriptor.clone(),
                                table_name,
                                namespace,
                            };
                            proof {
                                assert(self@.is_stray(self@.index_registry.enabled@[i as int]));
                                assert(self@.explains(i as int, error));
                            }
                            return Some(Err(error));
                        },
                    }
                }
            } else {
                proof {
                    assert(storage@ =~= self@.storage_after(i + 1));
                }
            }
            i = i + 1;
        }
        Some(Ok(storage))
    }

    /// The size of the documents of each user table, with an index size of
    /// zero.
    fn document_storage(&self) -> (storage: StorageByTable)
        requires
            self@.active_tables_mapped(),
        ensures
            storage@ == self@.document_sizes().map_values(|size: usize| (size, 0usize)),
    {
        let listing: TableListing = self.iter_user_table_summaries();
        let ghost listed = listing_view(listing@);
        let mut storage: StorageByTable = StorageByTable::new();
        let mut i: usize = 0;
        proof {
            assert(listed.take(0) =~= Seq::empty());
            assert(storage@ =~= sizes_listed(listed.take(0)).map_values(
                |size: usize| (size, 0usize),
            ));
        }
        while i < listing.len()
            invariant
                i <= listing@.len(),
                listed == listing_view(listing@),
                storage@ == sizes_listed(listed.take(i as int)).map_values(
                    |size: usize| (size, 0usize),
                ),
            decreases listing@.len() - i,
        {
            let entry: &((TableNamespace, TableName), TableSummary) = &listing[i];
            let table_size: usize = entry.1.total_size();
            storage.insert(entry.0.0, entry.0.1.clone(), table_size, 0);
            proof {
                assert(listed.take(i + 1).drop_last() =~= listed.take(i as int));
                assert(storage@ =~= sizes_listed(listed.take(i + 1)).map_values(
                    |size: usize| (size, 0usize),
                ));
            }
            i = i + 1;
        }
        proof {
            assert(listed.take(i as int) =~= listed);
            let tablets = choose|tablets: Seq<TabletId>| #[trigger]
                self@.are_user_tablets(tablets) && listed == self@.describe(tablets);
            self@.lemma_listed_sizes(tablets);
        }
        storage
    }

    /// The document and index storage of each user table. An index is reckoned
    /// to take up as much as the documents that it indexes. Only the indexes
    /// of active tables are counted, and of these only the users' own.
    pub fn get_user_document_and_index_storage(&self) -> (result: Result<
        StorageByTable,
        StorageError,
    >)
        requires
            self@.active_tables_mapped(),
            self@.index_sizes_fit(),
        ensures
            self@.storage_result(result),
    {
        match self.checked_user_document_and_index_storage() {
            Some(result) => result,
            None => {
                assert(false);
                Ok(StorageByTable::new())
            },
        }
    }
}

/// The document size that comes last in a list under each name.
spec fn sizes_listed(listing: Seq<(TableKey, TableSummary)>) -> Map<TableKey, usize>
    decreases listing.len(),
{
    if listing.len() == 0 {
        Map::empty()
    } else {
        sizes_listed(listing.drop_last()).insert(listing.last().0, listing.last().1.total_size)
    }
}

/// A name that is listed has the size at its last place in the list.
proof fn lemma_last_listed(listing: Seq<(TableKey, TableSummary)>, key: TableKey, i: int) -> (j:
    int)
    requires
        0 <= i < listing.len(),
        listing[i].0 == key,
    ensures
        0 <= j < listing.len(),
        listing[j].0 == key,
        forall|x: int| j < x < listing.len() ==> (#[trigger] listing[x]).0 != key,
        sizes_listed(listing).contains_key(key),
        sizes_listed(listing)[key] == listing[j].1.total_size,
    decreases listing.len(),
{
    if listing.last().0 == key {
        listing.len() - 1
    } else {
        let j = lemma_last_listed(listing.drop_last(), key, i);
        assert forall|x: int| j < x < listing.len() implies (#[trigger] listing[x]).0 != key by {
            if x < listing.len() - 1 {
                assert(listing.drop_last()[x] == listing[x]);
            }
        }
        j
    }
}

/// A name that has a size is listed.
proof fn lemma_is_listed(listing: Seq<(TableKey, TableSummary)>, key: TableKey) -> (i: int)
    requires
        sizes_listed(listing).contains_key(key),
    ensures
        0 <= i < listing.len(),
        listing[i].0 == key,
    decreases listing.len(),
{
    if listing.last().0 == key {
        listing.len() - 1
    } else {
        lemma_is_listed(listing.drop_last(), key)
    }
}

impl<RT: Runtime> SnapshotView<RT> {
    /// The sizes in the list of the user tables are the document sizes.
    proof fn lemma_listed_sizes(self, tablets: Seq<TabletId>)
        requires
            self.are_user_tablets(tablets),
        ensures
            sizes_listed(self.describe(tablets)) == self.document_sizes(),
    {
        let listing = self.describe(tablets);
        assert forall|k: TableKey|
            #![trigger sizes_listed(listing).dom().contains(k)]
            #![trigger self.document_sizes().dom().contains(k)]
            sizes_listed(listing).contains_key(k) == self.document_sizes().contains_key(k) && (
            sizes_listed(listing).contains_key(k) ==> sizes_listed(listing)[k]
                == self.document_sizes()[k]) by {
            if sizes_listed(listing).contains_key(k) {
                let i = lemma_is_listed(listing, k);
                let j = lemma_last_listed(listing, k, i);
                let t = tablets[j];
                assert(tablets.contains(t));
                assert forall|u: TabletId|
                    self.is_user_table(u) && #[trigger] self.mapping()[u].key() == k implies u
                    <= t by {
                    assert(tablets.contains(u));
                    let x = choose|x: int| 0 <= x < tablets.len() && tablets[x] == u;
                    assert(listing[x].0 == k);
                }
                assert(self.is_last_named(t, k));
                let c = choose|c: TabletId| #[trigger] self.is_last_named(c, k);
                assert(self.is_last_named(c, k));
                assert(self.mapping()[c].key() == k && self.mapping()[t].key() == k);
                assert(c == t);
            }
            if self.document_sizes().contains_key(k) {
                let t = choose|t: TabletId| #[trigger] self.is_last_named(t, k);
                assert(tablets.contains(t));
                let x = choose|x: int| 0 <= x < tablets.len() && tablets[x] == t;
                assert(listing[x].0 == k);
                let j = lemma_last_listed(listing, k, x);
            }
        }
        assert(sizes_listed(listing) =~= self.document_sizes());
    }

    /// What one more index adds to the index sizes.
    proof fn lemma_one_more_index(self, n: int)
        requires
            0 <= n < self.index_registry.enabled@.len(),
        ensures
            forall|k: TableKey| #[trigger]
                self.index_size(n + 1, k) == self.index_size(n, k) + (if is_charged(
                    self.index_registry.enabled@[n],
                    self.mapping(),
                ) && self.mapping()[self.index_registry.enabled@[n].tablet_id].key() == k {
                    self.document_sizes()[k] as nat
                } else {
                    0
                }),
    {
        let enabled = self.index_registry.enabled@;
        assert(enabled.take(n + 1).drop_last() =~= enabled.take(n));
        assert(enabled.take(n + 1).last() == enabled[n]);
        assert forall|k: TableKey| #[trigger]
            self.index_size(n + 1, k) == self.index_size(n, k) + (if is_charged(
                enabled[n],
                self.mapping(),
            ) && self.mapping()[enabled[n].tablet_id].key() == k {
                self.document_sizes()[k] as nat
            } else {
                0
            }) by {
            let d = self.document_sizes()[k] as nat;
            let c = charges(enabled.take(n), self.mapping(), k);
            assert(d * (c + 1) == d * c + d) by (nonlinear_arith);
        }
    }
}

} // verus!
