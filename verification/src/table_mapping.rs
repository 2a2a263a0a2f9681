//! Which tables there are, what they are called and what state they are in.

use crate::types::{TableName, TableNamespace, TableNumber, TabletId};
use std::collections::BTreeMap;
use std::sync::Arc;
use vstd::prelude::*;

verus! {

/// What a table is known by: its namespace and its name there.
pub type TableKey = (TableNamespace, Seq<char>);

/// What the mapping knows of one tablet.
pub struct MappedTable {
    pub namespace: TableNamespace,
    pub table_number: TableNumber,
    pub name: TableName,
    /// Whether the name is one that the database keeps for itself.
    pub system: bool,
    /// Whether this is the tablet that the name stands for. Others with the
    /// same name are hidden.
    pub active: bool,
}

impl MappedTable {
    pub open spec fn key(self) -> TableKey {
        (self.namespace, self.name@)
    }
}

/// A tablet with its table number.
#[derive(Clone, Copy, Debug, PartialEq, Eq, Structural)]
pub struct TabletIdAndTableNumber {
    pub tablet_id: TabletId,
    pub table_number: TableNumber,
}

/// Whether the tablet is in the mapping under a name of the database's own.
pub open spec fn is_system(tables: Map<TabletId, MappedTable>, tablet_id: TabletId) -> bool {
    tables.contains_key(tablet_id) && tables[tablet_id].system
}

/// Whether the tablet is in the mapping and is the one that its name stands for.
pub open spec fn is_active(tables: Map<TabletId, MappedTable>, tablet_id: TabletId) -> bool {
    tables.contains_key(tablet_id) && tables[tablet_id].active
}

/// A name stands for one tablet at most.
pub open spec fn names_are_unambiguous(tables: Map<TabletId, MappedTable>) -> bool {
    forall|t: TabletId, u: TabletId|
        #![trigger tables[t], tables[u]]
        is_active(tables, t) && is_active(tables, u) && tables[t].key() == tables[u].key() ==> t
            == u
}

/// The tablet that a name stands for.
pub open spec fn active_tablet(tables: Map<TabletId, MappedTable>, key: TableKey) -> Option<
    TabletId,
> {
    if exists|t: TabletId| is_active(tables, t) && #[trigger] tables[t].key() == key {
        Some(choose|t: TabletId| is_active(tables, t) && #[trigger] tables[t].key() == key)
    } else {
        None
    }
}

/// Maps tablets to the namespace, number and name of their table, and the
/// names of active tables back to their tablet.
pub struct TableMapping {
    tables: BTreeMap<TabletId, MappedTable>,
}

impl View for TableMapping {
    type V = Map<TabletId, MappedTable>;

    closed spec fn view(&self) -> Map<TabletId, MappedTable> {
        self.tables@
    }
}

impl TableMapping {
    #[verifier::type_invariant]
    spec fn inv(self) -> bool {
        names_are_unambiguous(self.tables@)
    }

    /// A mapping of no tables.
    pub fn new() -> (mapping: TableMapping)
        ensures
            mapping@ == Map::<TabletId, MappedTable>::empty(),
    {
        TableMapping { tables: BTreeMap::new() }
    }

    /// Adds a tablet, or replaces what is known of it. A table that would be
    /// active under a name that already stands for another tablet is refused.
    pub fn insert(&mut self, tablet_id: TabletId, table: MappedTable) -> (inserted: bool)
        ensures
            inserted == !(table.active && exists|t: TabletId|
                t != tablet_id && is_active(old(self)@, t) && #[trigger] old(self)@[t].key()
                    == table.key()),
            final(self)@ == (if inserted {
                old(self)@.insert(tablet_id, table)
            } else {
                old(self)@
            }),
    {
        proof {
            use_type_invariant(&*self);
        }
        if table.active {
            match self.id(table.namespace, &table.name) {
                Some(holder) => {
                    if holder.tablet_id != tablet_id {
                        return false;
                    }
                },
                None => {},
            }
        }
        let mut tables: BTreeMap<TabletId, MappedTable> = BTreeMap::new();
        std::mem::swap(&mut tables, &mut self.tables);
        tables.insert(tablet_id, table);
        proof {
            let before = old(self)@;
            assert(table.active ==> forall|t: TabletId|
                t != tablet_id && is_active(before, t) ==> #[trigger] before[t].key()
                    != table.key());
        }
        self.tables = tables;
        true
    }

    /// Whether the tablet is known at all.
    pub fn tablet_id_exists(&self, tablet_id: TabletId) -> (known: bool)
        ensures
            known == self@.contains_key(tablet_id),
    {
        self.tables.contains_key(&tablet_id)
    }

    /// Whether the tablet holds a system table. False of an unknown tablet.
    pub fn is_system_tablet(&self, tablet_id: TabletId) -> (system: bool)
        ensures
            system == is_system(self@, tablet_id),
    {
        match self.tables.get(&tablet_id) {
            Some(table) => table.system,
            None => false,
        }
    }

    /// Whether the tablet is the one that its name stands for.
    pub fn is_active(&self, tablet_id: TabletId) -> (active: bool)
        ensures
            active == is_active(self@, tablet_id),
    {
        match self.tables.get(&tablet_id) {
            Some(table) => table.active,
            None => false,
        }
    }

    /// The namespace of the tablet's table, if the tablet is known.
    pub fn tablet_namespace(&self, tablet_id: TabletId) -> (namespace: Option<TableNamespace>)
        ensures
            namespace == (if self@.contains_key(tablet_id) {
                Some(self@[tablet_id].namespace)
            } else {
                None::<TableNamespace>
            }),
    {
        match self.tables.get(&tablet_id) {
            Some(table) => Some(table.namespace),
            None => None,
        }
    }

    /// The name of the tablet's table, if the tablet is known.
    pub fn tablet_name(&self, tablet_id: TabletId) -> (name: Option<TableName>)
        ensures
            name == (if self@.contains_key(tablet_id) {
                Some(self@[tablet_id].name)
            } else {
                None::<TableName>
            }),
    {
        match self.tables.get(&tablet_id) {
            Some(table) => Some(table.name.clone()),
            None => None,
        }
    }

    /// The active tablet of that name, with its table number.
    pub fn id(&self, namespace: TableNamespace, name: &TableName) -> (found: Option<
        TabletIdAndTableNumber,
    >)
        ensures
            found == (match active_tablet(self@, (namespace, name@)) {
                Some(t) => Some(
                    TabletIdAndTableNumber { tablet_id: t, table_number: self@[t].table_number },
                ),
                None => None,
            }),
    {
        proof {
            use_type_invariant(self);
        }
        let ghost key = (namespace, name@);
        for entry in it: self.tables.iter()
            invariant
                names_are_unambiguous(self.tables@),
                key == (namespace, name@),
                it.seq() == vstd::std_specs::iter::IteratorSpec::remaining(
                    &vstd::std_specs::btree::spec_btree_map_iter(&self.tables),
                ),
                forall|i: int|
                    #![trigger it.seq()[i]]
                    0 <= i < it.index() ==> !(it.seq()[i].1.active && it.seq()[i].1.key() == key),
        {
            let (tablet_id, table): (&TabletId, &MappedTable) = entry;
            if table.active && table.namespace == namespace && table.name == *name {
                proof {
                    let t = *tablet_id;
                    assert(self.tables@.contains_key(*it.seq()[it.index()].0));
                    assert(is_active(self@, t) && self@[t].key() == key);
                    let c = choose|t: TabletId|
                        is_active(self@, t) && #[trigger] self@[t].key() == key;
                    assert(is_active(self@, c) && self@[c].key() == key);
                    assert(self@[c].key() == self@[t].key());
                }
                return Some(
                    TabletIdAndTableNumber {
                        tablet_id: *tablet_id,
                        table_number: table.table_number,
                    },
                );
            }
        }
        proof {
            let all = vstd::std_specs::iter::IteratorSpec::remaining(
                    &vstd::std_specs::btree::spec_btree_map_iter(&self.tables),
                );
            assert forall|t: TabletId| is_active(self@, t) implies #[trigger] self@[t].key()
                != key by {
                assert(self.tables@.contains_key(t));
                assert(all.contains((&t, &self.tables@[t])));
                let i = choose|i: int| 0 <= i < all.len() && all[i] == (&t, &self.tables@[t]);
                assert(all[i].1.key() == self@[t].key());
            }
        }
        None
    }
}

/// The state of a table.
#[derive(Clone, Copy, Debug, PartialEq, Eq, Structural)]
pub enum TableState {
    Active,
    Hidden,
    Deleting,
}

/// The table mapping together with the state of each tablet.
pub struct TableRegistry {
    pub table_mapping: Arc<TableMapping>,
    pub tablet_states: BTreeMap<TabletId, TableState>,
}

impl TableRegistry {
    /// Whether the tablet's state is known and is active.
    pub open spec fn state_is_active(self, tablet_id: TabletId) -> bool {
        self.tablet_states@.contains_key(tablet_id) && self.tablet_states@[tablet_id]
            == TableState::Active
    }

    /// Whether the tablet's state is known and is active.
    pub fn is_state_active(&self, tablet_id: TabletId) -> (active: bool)
        ensures
            active == self.state_is_active(tablet_id),
    {
        match self.tablet_states.get(&tablet_id) {
            Some(state) => *state == TableState::Active,
            None => false,
        }
    }
}

/// What a write to the table of tables does to a table.
#[derive(Clone, Copy, Debug, PartialEq, Eq, Structural)]
pub enum TableUpdateMode {
    Create,
    Activate,
    Drop,
}

/// The effect of a document write on the set of tables.
pub struct TableUpdate {
    pub namespace: TableNamespace,
    pub table_id_and_number: TabletIdAndTableNumber,
    pub table_name: TableName,
    /// Whether the name is one that the database keeps for itself.
    pub system: bool,
    pub state: TableState,
    pub mode: TableUpdateMode,
}

/// The table update behind a reference that may be absent.
pub open spec fn referred_update(table_update: Option<&TableUpdate>) -> Option<TableUpdate> {
    match table_update {
        Some(update) => Some(*update),
        None => None,
    }
}

} // verus!
