use snapshot_manager::order::table_is_before;
use snapshot_manager::storage::StorageByTable;
use snapshot_manager::table_mapping::{
    MappedTable, TableMapping, TableRegistry, TableState, TabletIdAndTableNumber,
};
use snapshot_manager::types::TableNamespace;
use std::collections::BTreeMap;
use std::sync::Arc;

const A: TableNamespace = TableNamespace::Global;
const B: TableNamespace = TableNamespace::ByComponent(1);
const C: TableNamespace = TableNamespace::ByComponent(2);

fn table(namespace: TableNamespace, name: &str, number: u32, active: bool) -> MappedTable {
    MappedTable { namespace, table_number: number, name: name.to_string(), system: false, active }
}

#[test]
fn mapping_finds_the_active_tablet_of_a_name() {
    let mut m = TableMapping::new();
    assert!(m.insert(1, table(A, "users", 11, false)));
    assert!(m.insert(2, table(A, "users", 12, true)));
    assert!(m.insert(3, table(B, "users", 13, true)));
    let users = "users".to_string();
    assert_eq!(
        m.id(A, &users),
        Some(TabletIdAndTableNumber { tablet_id: 2, table_number: 12 })
    );
    assert_eq!(
        m.id(B, &users),
        Some(TabletIdAndTableNumber { tablet_id: 3, table_number: 13 })
    );
    assert_eq!(m.id(C, &users), None);
    assert_eq!(m.id(A, &"user".to_string()), None);
}

#[test]
fn mapping_refuses_a_second_active_tablet_of_a_name() {
    let mut m = TableMapping::new();
    assert!(m.insert(1, table(A, "users", 11, true)));
    assert!(!m.insert(2, table(A, "users", 12, true)));
    assert!(!m.tablet_id_exists(2));
    assert!(m.insert(2, table(A, "users", 12, false)));
    assert!(m.insert(1, table(A, "users", 14, true)));
    assert_eq!(m.id(A, &"users".to_string()).map(|found| found.table_number), Some(14));
}

#[test]
fn mapping_tells_of_tablets() {
    let mut m = TableMapping::new();
    let mut system = table(B, "_tables", 1, true);
    system.system = true;
    m.insert(1, system);
    m.insert(2, table(A, "users", 2, false));
    assert!(m.tablet_id_exists(1) && m.tablet_id_exists(2) && !m.tablet_id_exists(3));
    assert!(m.is_system_tablet(1) && !m.is_system_tablet(2) && !m.is_system_tablet(3));
    assert!(m.is_active(1) && !m.is_active(2) && !m.is_active(3));
    assert_eq!(m.tablet_namespace(1), Some(B));
    assert_eq!(m.tablet_namespace(3), None);
    assert_eq!(m.tablet_name(2), Some("users".to_string()));
    assert_eq!(m.tablet_name(3), None);
}

#[test]
fn registry_knows_active_states() {
    let mut tablet_states = BTreeMap::new();
    tablet_states.insert(1, TableState::Active);
    tablet_states.insert(2, TableState::Hidden);
    tablet_states.insert(3, TableState::Deleting);
    let registry = TableRegistry { table_mapping: Arc::new(TableMapping::new()), tablet_states };
    assert!(registry.is_state_active(1));
    assert!(!registry.is_state_active(2));
    assert!(!registry.is_state_active(3));
    assert!(!registry.is_state_active(4));
}

#[test]
fn tables_are_ordered_by_namespace_and_name() {
    let ordered = [(A, ""), (A, "a"), (A, "ab"), (A, "b"), (B, "a"), (B, "\u{e9}"), (C, "a")];
    for (i, x) in ordered.iter().enumerate() {
        for (j, y) in ordered.iter().enumerate() {
            assert_eq!(table_is_before(x.0, &x.1.to_string(), y.0, &y.1.to_string()), i < j);
        }
    }
}

#[test]
fn storage_is_kept_in_order() {
    let mut s = StorageByTable::new();
    assert_eq!(s.get(A, &"a".to_string()), None);
    s.insert(B, "a".to_string(), 1, 2);
    s.insert(A, "b".to_string(), 3, 4);
    s.insert(A, "a".to_string(), 5, 6);
    s.insert(A, "b".to_string(), 7, 8);
    assert_eq!(s.get(A, &"b".to_string()), Some((7, 8)));
    assert_eq!(s.get(B, &"a".to_string()), Some((1, 2)));
    assert_eq!(s.get(C, &"a".to_string()), None);
    let listed: Vec<(TableNamespace, &str, usize, usize)> = s
        .entries()
        .iter()
        .map(|e| (e.namespace, e.table_name.as_str(), e.document_size, e.index_size))
        .collect();
    assert_eq!(listed, vec![(A, "a", 5, 6), (A, "b", 7, 8), (B, "a", 1, 2)]);
}
