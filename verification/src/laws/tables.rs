//! What is told of tables: their names, their lists and their storage.

use crate::laws;
use crate::order;
use crate::snapshot;
use crate::snapshot::{EnabledIndex, SnapshotView, StorageError};
use crate::storage;
use crate::storage::{StorageByTable, TableStorage};
use crate::table_mapping;
use crate::table_mapping::{MappedTable, TableKey, TableRegistry};
use crate::table_summaries::TableSummary;
use crate::types::{Runtime, TableName, TableNamespace, TabletId};
use vstd::prelude::*;

verus! {

// The mapping.

/// A tablet that is put into the mapping is then told of as it was put there,
/// and nothing else is told of another one. A mapping of no tables tells of no
/// system table and of no active one.
pub proof fn law_a_tablet_is_told_of_as_it_is_mapped(
    mapping: Map<TabletId, MappedTable>,
    t: TabletId,
    table: MappedTable,
    other: TabletId,
)
    ensures
        table.key() == (table.namespace, table.name@),
        table_mapping::is_system(mapping.insert(t, table), t) == table.system,
        table_mapping::is_active(mapping.insert(t, table), t) == table.active,
        other != t ==> {
            &&& table_mapping::is_system(mapping.insert(t, table), other)
                == table_mapping::is_system(mapping, other)
            &&& table_mapping::is_active(mapping.insert(t, table), other)
                == table_mapping::is_active(mapping, other)
        },
        !mapping.contains_key(t) ==> !table_mapping::is_system(mapping, t)
            && !table_mapping::is_active(mapping, t),
        mapping.contains_key(t) ==> table_mapping::is_system(mapping, t) == mapping[t].system
            && table_mapping::is_active(mapping, t) == mapping[t].active,
{
}

/// The tablet that a name stands for is known under that name and is active.
/// Where there is none, no active tablet has that name.
pub proof fn law_a_name_stands_for_an_active_tablet(
    mapping: Map<TabletId, MappedTable>,
    namespace: TableNamespace,
    name: Seq<char>,
    t: TabletId,
)
    ensures
        match table_mapping::active_tablet(mapping, (namespace, name)) {
            Some(found) => {
                &&& mapping.contains_key(found)
                &&& mapping[found].active
                &&& mapping[found].namespace == namespace
                &&& mapping[found].name@ == name
            },
            None => !(mapping.contains_key(t) && mapping[t].active && mapping[t].namespace
                == namespace && mapping[t].name@ == name),
        },
{
    assert(mapping[t].key() == (mapping[t].namespace, mapping[t].name@));
}

/// Where names are unambiguous, two active tablets of one name are the same.
pub proof fn law_unambiguous_names(
    mapping: Map<TabletId, MappedTable>,
    t: TabletId,
    u: TabletId,
)
    requires
        table_mapping::names_are_unambiguous(mapping),
        mapping.contains_key(t),
        mapping.contains_key(u),
        mapping[t].active,
        mapping[u].active,
        mapping[t].namespace == mapping[u].namespace,
        mapping[t].name@ == mapping[u].name@,
    ensures
        t == u,
{
    assert(mapping[t].key() == mapping[u].key());
}

/// A tablet is in the active state if that is the state which is kept for it.
pub proof fn law_the_state_of_a_tablet(registry: TableRegistry, t: TabletId)
    ensures
        registry.state_is_active(t) <==> registry.tablet_states@.contains_key(t)
            && registry.tablet_states@[t] is Active,
{
}

// The order of tables.

/// Byte strings are ordered by the first place at which they differ; one that
/// ends there comes first.
pub proof fn law_bytes_are_ordered_by_the_first_difference(a: Seq<u8>, b: Seq<u8>, n: int)
    requires
        0 <= n <= a.len(),
        n <= b.len(),
        a.take(n) == b.take(n),
        n == a.len() || n == b.len() || a[n] != b[n],
    ensures
        order::bytes_before(a, b) <==> n < b.len() && (n == a.len() || a[n] < b[n]),
    decreases n,
{
    if n > 0 {
        assert(a[0] == a.take(n)[0] && b[0] == b.take(n)[0]);
        assert(n < a.len() ==> a.drop_first()[n - 1] == a[n]);
        assert(n < b.len() ==> b.drop_first()[n - 1] == b[n]);
        assert(a.drop_first().take(n - 1) =~= a.take(n).drop_first());
        assert(b.drop_first().take(n - 1) =~= b.take(n).drop_first());
        law_bytes_are_ordered_by_the_first_difference(a.drop_first(), b.drop_first(), n - 1);
    }
}

/// Tables are ordered by namespace, the global one first and then the
/// components by their identifier. Within a namespace they are ordered by the
/// bytes of their names.
pub proof fn law_tables_are_ordered_by_namespace_and_name(
    a: Seq<char>,
    b: Seq<char>,
    namespace: TableNamespace,
    x: u128,
    y: u128,
)
    ensures
        order::key_before((TableNamespace::Global, a), (TableNamespace::ByComponent(x), b)),
        !order::key_before((TableNamespace::ByComponent(x), a), (TableNamespace::Global, b)),
        x < y ==> order::key_before(
            (TableNamespace::ByComponent(x), a),
            (TableNamespace::ByComponent(y), b),
        ),
        x < y ==> !order::key_before(
            (TableNamespace::ByComponent(y), a),
            (TableNamespace::ByComponent(x), b),
        ),
        order::key_before((namespace, a), (namespace, b)) <==> order::bytes_before(
            vstd::utf8::encode_utf8(a),
            vstd::utf8::encode_utf8(b),
        ),
{
}

/// A list of tables in order tells of each table in it, and of no other: the
/// size of its documents first, then that of its indexes.
pub proof fn law_the_sizes_are_those_of_the_entries(
    entries: Seq<TableStorage>,
    i: int,
    namespace: TableNamespace,
    name: Seq<char>,
)
    requires
        storage::tables_ascend(entries),
    ensures
        0 <= i < entries.len() && entries[i].namespace == namespace && entries[i].table_name@
            == name ==> {
            &&& storage::sizes_by_table(entries).contains_key((namespace, name))
            &&& storage::sizes_by_table(entries)[(namespace, name)] == (
                entries[i].document_size,
                entries[i].index_size,
            )
        },
        storage::sizes_by_table(entries).contains_key((namespace, name)) ==> exists|j: int|
            0 <= j < entries.len() && (#[trigger] entries[j]).namespace == namespace
                && entries[j].table_name@ == name,
        forall|x: int, y: int|
            #![trigger entries[x], entries[y]]
            0 <= x < y < entries.len() ==> order::key_before(
                (entries[x].namespace, entries[x].table_name@),
                (entries[y].namespace, entries[y].table_name@),
            ),
{
    let key = (namespace, name);
    if 0 <= i < entries.len() && entries[i].namespace == namespace && entries[i].table_name@
        == name {
        assert(entries[i].key() == key);
        let c = choose|c: int| 0 <= c < entries.len() && (#[trigger] entries[c]).key() == key;
        assert(entries[c].key() == key);
        order::lemma_key_irreflexive(key);
        if c < i {
            assert(order::key_before(entries[c].key(), entries[i].key()));
        }
        if i < c {
            assert(order::key_before(entries[i].key(), entries[c].key()));
        }
    }
    assert forall|x: int, y: int|
        #![trigger entries[x], entries[y]]
        0 <= x < y < entries.len() implies order::key_before(
        (entries[x].namespace, entries[x].table_name@),
        (entries[y].namespace, entries[y].table_name@),
    ) by {
        assert(order::key_before(entries[x].key(), entries[y].key()));
    }
}

// The list of user tables.

/// A list that is handed out is seen entry by entry.
pub proof fn law_a_list_is_seen_as_it_is(
    listing: Seq<((TableNamespace, TableName), TableSummary)>,
    i: int,
)
    ensures
        snapshot::listing_view(listing).len() == listing.len(),
        0 <= i < listing.len() ==> snapshot::listing_view(listing)[i] == (
            (listing[i].0.0, listing[i].0.1@),
            listing[i].1,
        ),
{
}

/// The list of user tables has one entry for each tablet that has a summary and
/// is in the active state, unless the mapping knows it as a system table. The
/// entries come in the order of the tablets, each with the name under which
/// the mapping knows the tablet and with its summary.
pub proof fn law_every_user_table_is_listed_once<RT: Runtime>(
    view: SnapshotView<RT>,
    listing: Seq<(TableKey, TableSummary)>,
) -> (tablets: Seq<TabletId>)
    requires
        view.is_listing(listing),
    ensures
        ({
            let tables = view.table_summaries.tables;
            let mapping = view.table_registry.table_mapping@;
            let states = view.table_registry.tablet_states@;
            &&& tablets.len() == listing.len()
            &&& forall|i: int, j: int| 0 <= i < j < tablets.len() ==> tablets[i] < tablets[j]
            &&& forall|t: TabletId| #[trigger]
                tablets.contains(t) <==> tables.contains_key(t) && states.contains_key(t)
                    && states[t] is Active && !(mapping.contains_key(t) && mapping[t].system)
            &&& forall|i: int|
                #![trigger listing[i]]
                0 <= i < listing.len() ==> listing[i] == (
                    (mapping[tablets[i]].namespace, mapping[tablets[i]].name@),
                    tables[tablets[i]],
                )
        }),
{
    choose|tablets: Seq<TabletId>| #[trigger]
        view.are_user_tablets(tablets) && listing == view.describe(tablets)
}

/// The user tables can be listed exactly if the mapping knows every tablet that
/// has a summary and is in the active state.
pub proof fn law_when_tables_can_be_listed<RT: Runtime>(view: SnapshotView<RT>)
    ensures
        view.active_tables_mapped() <==> (forall|t: TabletId|
            view.table_summaries.tables.contains_key(t)
                && view.table_registry.tablet_states@.contains_key(t)
                && view.table_registry.tablet_states@[t] is Active
                ==> #[trigger] view.table_registry.table_mapping@.contains_key(t)),
{
    let mapping = view.table_registry.table_mapping@;
    assert(mapping == view.mapping());
    if view.active_tables_mapped() {
        assert forall|t: TabletId|
            view.table_summaries.tables.contains_key(t)
                && view.table_registry.tablet_states@.contains_key(t)
                && view.table_registry.tablet_states@[t]
                is Active implies #[trigger] mapping.contains_key(t) by {
            assert(view.table_registry.state_is_active(t));
        }
    }
}

// Storage.

/// How many indexes are charged to a table: those in use that are not the
/// database's own, on an active tablet of its name.
proof fn lemma_charges_counted(
    indexes: Seq<EnabledIndex>,
    mapping: Map<TabletId, MappedTable>,
    key: TableKey,
)
    ensures
        snapshot::charges(indexes, mapping, key) == indexes.filter(
            |x: EnabledIndex|
                mapping.contains_key(x.tablet_id) && mapping[x.tablet_id].active && !x.system_owned
                    && (mapping[x.tablet_id].namespace, mapping[x.tablet_id].name@) == key,
        ).len(),
    decreases indexes.len(),
{
    reveal(Seq::filter);
    if indexes.len() > 0 {
        lemma_charges_counted(indexes.drop_last(), mapping, key);
    }
}

/// Where storage is told, the document storage under the name of a user table
/// is the size of the documents in it, or in the highest tablet where several
/// are called so. The index storage is that size once for each index in use
/// that is not the database's own and is on an active tablet of that name,
/// whatever the index is called.
pub proof fn law_storage_of_a_user_table<RT: Runtime>(
    view: SnapshotView<RT>,
    told: StorageByTable,
    t: TabletId,
)
    requires
        view.index_sizes_fit(),
        view.storage_result(Ok(told)),
        view.table_summaries.tables.contains_key(t),
        view.table_registry.tablet_states@.contains_key(t),
        view.table_registry.tablet_states@[t] is Active,
        !(view.table_registry.table_mapping@.contains_key(t)
            && view.table_registry.table_mapping@[t].system),
        forall|u: TabletId| #[trigger]
            view.table_summaries.tables.contains_key(u)
                && view.table_registry.tablet_states@.contains_key(u)
                && view.table_registry.tablet_states@[u] is Active
                && !(view.table_registry.table_mapping@.contains_key(u)
                && view.table_registry.table_mapping@[u].system)
                && view.table_registry.table_mapping@[u].namespace
                == view.table_registry.table_mapping@[t].namespace
                && view.table_registry.table_mapping@[u].name@
                == view.table_registry.table_mapping@[t].name@ ==> u <= t,
    ensures
        ({
            let mapping = view.table_registry.table_mapping@;
            let key = (mapping[t].namespace, mapping[t].name@);
            let charged = view.index_registry.enabled@.filter(
                |x: EnabledIndex|
                    mapping.contains_key(x.tablet_id) && mapping[x.tablet_id].active
                        && !x.system_owned && (
                        mapping[x.tablet_id].namespace,
                        mapping[x.tablet_id].name@,
                    ) == key,
            );
            &&& told@.contains_key(key)
            &&& told@[key].0 == view.table_summaries.tables[t].total_size
            &&& told@[key].1 == view.table_summaries.tables[t].total_size * charged.len()
        }),
{
    let mapping = view.mapping();
    let key = (mapping[t].namespace, mapping[t].name@);
    let enabled = view.index_registry.enabled@;
    let len = enabled.len() as int;
    assert forall|u: TabletId|
        view.is_user_table(u) && #[trigger] view.mapping()[u].key() == key implies u <= t by {
        assert(view.table_summaries.tables.contains_key(u));
    }
    assert(view.mapping()[t].key() == key);
    assert(view.is_last_named(t, key));
    let c = choose|c: TabletId| #[trigger] view.is_last_named(c, key);
    assert(view.is_last_named(c, key));
    assert(view.mapping()[c].key() == key);
    assert(c == t);
    assert(enabled.take(len) =~= enabled);
    lemma_charges_counted(enabled, mapping, key);
    assert(view.index_size(len, key) <= usize::MAX);
}

/// Storage is told under no name but those of the user tables.
pub proof fn law_storage_of_user_tables_only<RT: Runtime>(
    view: SnapshotView<RT>,
    told: StorageByTable,
    key: TableKey,
) -> (t: TabletId)
    requires
        view.storage_result(Ok(told)),
        told@.contains_key(key),
    ensures
        view.table_summaries.tables.contains_key(t),
        view.table_registry.tablet_states@.contains_key(t),
        view.table_registry.tablet_states@[t] is Active,
        !(view.table_registry.table_mapping@.contains_key(t)
            && view.table_registry.table_mapping@[t].system),
        view.table_registry.table_mapping@[t].namespace == key.0,
        view.table_registry.table_mapping@[t].name@ == key.1,
{
    let t = choose|t: TabletId| #[trigger] view.is_last_named(t, key);
    assert(view.mapping()[t].key() == key);
    t
}

/// Storage is refused exactly if an index in use, which is not the database's
/// own and is on an active tablet, belongs to a name that no user table has.
/// The error tells of the first such index.
pub proof fn law_storage_is_refused_for_a_stray_index<RT: Runtime>(
    view: SnapshotView<RT>,
    error: StorageError,
)
    requires
        view.table_summaries.tables.dom().finite(),
    ensures
        view.storage_result(Err(error)) <==> {
            let tables = view.table_summaries.tables;
            let mapping = view.table_registry.table_mapping@;
            let states = view.table_registry.tablet_states@;
            let indexes = view.index_registry.enabled@;
            let stray = |x: EnabledIndex|
                mapping.contains_key(x.tablet_id) && mapping[x.tablet_id].active && !x.system_owned
                    && (forall|t: TabletId| #[trigger]
                    tables.contains_key(t) && states.contains_key(t) && states[t] is Active && !(
                    mapping.contains_key(t) && mapping[t].system) ==> !(mapping[t].namespace
                        == mapping[x.tablet_id].namespace && mapping[t].name@
                        == mapping[x.tablet_id].name@));
            exists|i: int| #![trigger indexes[i]]
                {
                    &&& 0 <= i < indexes.len()
                    &&& stray(indexes[i])
                    &&& forall|j: int| 0 <= j < i ==> !stray(#[trigger] indexes[j])
                    &&& error->descriptor == indexes[i].descriptor
                    &&& error->table_name@ == mapping[indexes[i].tablet_id].name@
                    &&& error->namespace == mapping[indexes[i].tablet_id].namespace
                }
        },
{
    let tables = view.table_summaries.tables;
    let mapping = view.table_registry.table_mapping@;
    let states = view.table_registry.tablet_states@;
    let indexes = view.index_registry.enabled@;
    let stray = |x: EnabledIndex|
        mapping.contains_key(x.tablet_id) && mapping[x.tablet_id].active && !x.system_owned && (
        forall|t: TabletId| #[trigger]
            tables.contains_key(t) && states.contains_key(t) && states[t] is Active && !(
            mapping.contains_key(t) && mapping[t].system) ==> !(mapping[t].namespace
                == mapping[x.tablet_id].namespace && mapping[t].name@ == mapping[x.tablet_id].name@
            ));
    assert forall|x: EnabledIndex| #[trigger] view.is_stray(x) == stray(x) by {
        lemma_stray(view, x);
    }
    if view.storage_result(Err(error)) {
        let i = choose|i: int| #[trigger] view.explains(i, error);
        assert(view.is_stray(indexes[i]));
        assert forall|j: int| 0 <= j < i implies !stray(#[trigger] indexes[j]) by {
            assert(!view.is_stray(indexes[j]));
        }
        assert(mapping[indexes[i].tablet_id].key() == (
            mapping[indexes[i].tablet_id].namespace,
            mapping[indexes[i].tablet_id].name@,
        ));
    }
    if exists|i: int| #![trigger indexes[i]]
        {
            &&& 0 <= i < indexes.len()
            &&& stray(indexes[i])
            &&& forall|j: int| 0 <= j < i ==> !stray(#[trigger] indexes[j])
            &&& error->descriptor == indexes[i].descriptor
            &&& error->table_name@ == mapping[indexes[i].tablet_id].name@
            &&& error->namespace == mapping[indexes[i].tablet_id].namespace
        } {
        let i = choose|i: int| #![trigger indexes[i]]
            {
                &&& 0 <= i < indexes.len()
                &&& stray(indexes[i])
                &&& forall|j: int| 0 <= j < i ==> !stray(#[trigger] indexes[j])
                &&& error->descriptor == indexes[i].descriptor
                &&& error->table_name@ == mapping[indexes[i].tablet_id].name@
                &&& error->namespace == mapping[indexes[i].tablet_id].namespace
            };
        assert(view.is_stray(indexes[i]));
        assert forall|j: int| 0 <= j < i implies !view.is_stray(#[trigger] indexes[j]) by {
            assert(!stray(indexes[j]));
        }
        assert(view.explains(i, error));
    }
}

/// What a stray index is, in the terms of the mapping and the states.
proof fn lemma_stray<RT: Runtime>(view: SnapshotView<RT>, x: EnabledIndex)
    requires
        view.table_summaries.tables.dom().finite(),
    ensures
        ({
            let tables = view.table_summaries.tables;
            let mapping = view.table_registry.table_mapping@;
            let states = view.table_registry.tablet_states@;
            view.is_stray(x) == (mapping.contains_key(x.tablet_id) && mapping[x.tablet_id].active
                && !x.system_owned && (forall|t: TabletId| #[trigger]
                tables.contains_key(t) && states.contains_key(t) && states[t] is Active && !(
                mapping.contains_key(t) && mapping[t].system) ==> !(mapping[t].namespace
                    == mapping[x.tablet_id].namespace && mapping[t].name@
                    == mapping[x.tablet_id].name@)))
        }),
{
    let tables = view.table_summaries.tables;
    let mapping = view.table_registry.table_mapping@;
    let states = view.table_registry.tablet_states@;
    let key = mapping[x.tablet_id].key();
    laws::law_storage_names_the_user_tables(view, key);
    let none = forall|t: TabletId| #[trigger]
        tables.contains_key(t) && states.contains_key(t) && states[t] is Active && !(
        mapping.contains_key(t) && mapping[t].system) ==> !(mapping[t].namespace
            == mapping[x.tablet_id].namespace && mapping[t].name@ == mapping[x.tablet_id].name@);
    if view.storage().contains_key(key) {
        let t = choose|t: TabletId|
            view.is_user_table(t) && #[trigger] view.mapping()[t].key() == key;
        assert(tables.contains_key(t));
        assert(!none);
    } else {
        assert forall|t: TabletId| #[trigger]
            tables.contains_key(t) && states.contains_key(t) && states[t] is Active && !(
            mapping.contains_key(t) && mapping[t].system) implies !(mapping[t].namespace
            == mapping[x.tablet_id].namespace && mapping[t].name@
            == mapping[x.tablet_id].name@) by {
            assert(view.is_user_table(t));
            assert(view.mapping()[t].key() != key);
        }
        assert(none);
    }
    assert(view.document_sizes().contains_key(key) == view.storage().contains_key(key));
}

/// Storage can be told wherever the index storage of every user table fits
/// into its type, as far as the indexes go before the first one that belongs
/// to no user table.
pub proof fn law_storage_is_told_where_it_fits<RT: Runtime>(view: SnapshotView<RT>, n: int)
    requires
        view.table_summaries.tables.dom().finite(),
        0 <= n <= view.index_registry.enabled@.len(),
        n < view.index_registry.enabled@.len() ==> {
            let tables = view.table_summaries.tables;
            let mapping = view.table_registry.table_mapping@;
            let states = view.table_registry.tablet_states@;
            let x = view.index_registry.enabled@[n];
            &&& mapping.contains_key(x.tablet_id)
            &&& mapping[x.tablet_id].active
            &&& !x.system_owned
            &&& forall|t: TabletId| #[trigger]
                tables.contains_key(t) && states.contains_key(t) && states[t] is Active && !(
                mapping.contains_key(t) && mapping[t].system) ==> !(mapping[t].namespace
                    == mapping[x.tablet_id].namespace && mapping[t].name@
                    == mapping[x.tablet_id].name@)
        },
        forall|t: TabletId| #[trigger]
            view.table_summaries.tables.contains_key(t)
                && view.table_registry.tablet_states@.contains_key(t)
                && view.table_registry.tablet_states@[t] is Active && !(
            view.table_registry.table_mapping@.contains_key(t)
                && view.table_registry.table_mapping@[t].system) ==> {
                let mapping = view.table_registry.table_mapping@;
                let key = (mapping[t].namespace, mapping[t].name@);
                view.table_summaries.tables[t].total_size * view.index_registry.enabled@.take(
                    n,
                ).filter(
                    |x: EnabledIndex|
                        mapping.contains_key(x.tablet_id) && mapping[x.tablet_id].active
                            && !x.system_owned && (
                            mapping[x.tablet_id].namespace,
                            mapping[x.tablet_id].name@,
                        ) == key,
                ).len() <= usize::MAX
            },
    ensures
        view.index_sizes_fit(),
{
    let enabled = view.index_registry.enabled@;
    let mapping = view.mapping();
    if n < enabled.len() {
        lemma_stray(view, enabled[n]);
        assert(view.is_stray(enabled[n]));
    }
    assert forall|m: int, k: TableKey|
        0 <= m <= enabled.len() && view.none_stray(m) && view.document_sizes().contains_key(
            k,
        ) implies #[trigger] view.index_size(m, k) <= usize::MAX by {
        if m > n {
            assert(!view.is_stray(enabled[n]));
        }
        let t = choose|t: TabletId| #[trigger] view.is_last_named(t, k);
        assert(view.is_last_named(t, k));
        assert(view.table_summaries.tables.contains_key(t));
        lemma_charges_counted(enabled.take(n), mapping, k);
        laws::lemma_charges_together(enabled.take(m), enabled.subrange(m, n), mapping, k);
        assert(enabled.take(m) + enabled.subrange(m, n) =~= enabled.take(n));
        let size = view.document_sizes()[k] as nat;
        let few = snapshot::charges(enabled.take(m), mapping, k);
        let many = snapshot::charges(enabled.take(n), mapping, k);
        assert(size * few <= size * many) by (nonlinear_arith)
            requires
                few <= many,
        ;
    }
}

} // verus!
