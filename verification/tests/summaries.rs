use snapshot_manager::table_mapping::{
    MappedTable, TableMapping, TableState, TableUpdate, TableUpdateMode, TabletIdAndTableNumber,
};
use snapshot_manager::table_summaries::{
    SummariesError, TableSummaries, TableSummary, TableSummarySnapshot,
};
use snapshot_manager::types::{
    ResolvedDocument, ResolvedDocumentId, Runtime, TableNamespace, Timestamp,
};
use std::collections::BTreeMap;
use std::sync::Arc;

struct Rt;

impl Runtime for Rt {
    type Document = &'static str;
    type SchemaRegistry = ();
    type ComponentRegistry = ();
    type IndexMetadata = ();
    type InMemoryIndexes = ();
    type TextIndexes = ();
    type VectorIndexes = ();
    type DatabaseIndexUpdate = ();
    type DocInVectorIndex = ();
    type Error = ();
}

const TABLES: u128 = 1;
const USERS: u128 = 10;
const MESSAGES: u128 = 20;
const UNKNOWN: u128 = 30;

fn table(name: &str, system: bool, active: bool) -> MappedTable {
    MappedTable {
        namespace: TableNamespace::Global,
        table_number: 7,
        name: name.to_string(),
        system,
        active,
    }
}

fn mapping() -> TableMapping {
    let mut mapping = TableMapping::new();
    assert!(mapping.insert(TABLES, table("_tables", true, true)));
    assert!(mapping.insert(USERS, table("users", false, true)));
    assert!(mapping.insert(MESSAGES, table("messages", false, true)));
    mapping
}

fn summary(num_values: usize, total_size: usize) -> TableSummary {
    TableSummary { num_values, total_size }
}

fn summaries() -> TableSummaries {
    let mut tables = BTreeMap::new();
    tables.insert(TABLES, summary(3, 300));
    tables.insert(USERS, summary(2, 50));
    tables.insert(MESSAGES, summary(5, 70));
    tables.insert(UNKNOWN, summary(100, 1000));
    let snapshot = TableSummarySnapshot { tables, ts: Timestamp::from_nanos(1) };
    TableSummaries::new(snapshot, &mapping())
}

fn doc(size: usize) -> ResolvedDocument<Rt> {
    ResolvedDocument { size, content: Arc::new("content") }
}

fn id(tablet_id: u128) -> ResolvedDocumentId {
    ResolvedDocumentId { tablet_id, internal_id: 99 }
}

fn table_update(tablet_id: u128, mode: TableUpdateMode) -> TableUpdate {
    TableUpdate {
        namespace: TableNamespace::Global,
        table_id_and_number: TabletIdAndTableNumber { tablet_id, table_number: 8 },
        table_name: "fresh".to_string(),
        system: false,
        state: TableState::Active,
        mode,
    }
}

fn totals(s: &TableSummaries) -> (usize, usize) {
    (s.num_user_documents, s.user_size)
}

#[test]
fn new_leaves_out_unknown_tables_and_counts_user_tables() {
    let s = summaries();
    assert_eq!(totals(&s), (7, 120));
    assert_eq!(s.tables.len(), 3);
    assert_eq!(s.tablet_summary(&TABLES), summary(3, 300));
    assert_eq!(s.tablet_summary(&USERS), summary(2, 50));
    assert_eq!(s.tablet_summary(&UNKNOWN), TableSummary::empty());
}

#[test]
fn new_from_nothing_is_empty() {
    let snapshot = TableSummarySnapshot { tables: BTreeMap::new(), ts: Timestamp::from_nanos(1) };
    let s = TableSummaries::new(snapshot, &mapping());
    assert_eq!(totals(&s), (0, 0));
    assert!(s.tables.is_empty());
}

#[test]
fn new_takes_up_many_tables() {
    let mut mapping = TableMapping::new();
    let mut tables = BTreeMap::new();
    for t in 0..1000u128 {
        mapping.insert(t, table(&format!("t{}", t), t % 2 == 0, true));
        tables.insert(t, summary(1, 2));
    }
    let snapshot = TableSummarySnapshot { tables, ts: Timestamp::from_nanos(1) };
    let s = TableSummaries::new(snapshot, &mapping);
    assert_eq!(totals(&s), (500, 1000));
    assert_eq!(s.tables.len(), 1000);
}

#[test]
fn count_is_the_number_of_documents() {
    let s = summaries();
    assert_eq!(s.count(MESSAGES), 5);
    assert_eq!(s.count(TABLES), 3);
    assert_eq!(s.count(UNKNOWN), 0);
}

#[test]
fn summary_insert_and_remove() {
    let s = summary(1, 10);
    assert_eq!(s.insert(5), summary(2, 15));
    assert_eq!(s.insert(5).remove(5), Ok(s));
    assert_eq!(s.remove(10), Ok(TableSummary::empty()));
    assert_eq!(s.remove(11), Err(SummariesError::NegativeSummary));
    assert_eq!(TableSummary::empty().remove(0), Err(SummariesError::NegativeSummary));
    assert_eq!((s.num_values(), s.total_size()), (1, 10));
}

#[test]
fn update_inserts_replaces_and_deletes() {
    let m = mapping();
    let mut s = summaries();
    assert_eq!(s.update::<Rt>(id(USERS), None, Some(&doc(8)), None, &m), Ok(()));
    assert_eq!(s.tablet_summary(&USERS), summary(3, 58));
    assert_eq!(totals(&s), (8, 128));
    assert_eq!(s.update::<Rt>(id(USERS), Some(&doc(8)), Some(&doc(3)), None, &m), Ok(()));
    assert_eq!(s.tablet_summary(&USERS), summary(3, 53));
    assert_eq!(totals(&s), (8, 123));
    assert_eq!(s.update::<Rt>(id(USERS), Some(&doc(3)), None, None, &m), Ok(()));
    assert_eq!(s.tablet_summary(&USERS), summary(2, 50));
    assert_eq!(totals(&s), (7, 120));
    assert_eq!(s.tablet_summary(&MESSAGES), summary(5, 70));
}

#[test]
fn update_of_a_system_table_leaves_the_user_counts() {
    let mut s = summaries();
    assert_eq!(s.update::<Rt>(id(TABLES), None, Some(&doc(9)), None, &mapping()), Ok(()));
    assert_eq!(s.tablet_summary(&TABLES), summary(4, 309));
    assert_eq!(totals(&s), (7, 120));
}

#[test]
fn update_of_a_table_without_summary_is_refused() {
    let mut s = summaries();
    assert!(s.accepts_update::<Rt>(id(UNKNOWN), None, Some(&doc(1)), None, &mapping()));
    assert_eq!(
        s.update::<Rt>(id(UNKNOWN), None, Some(&doc(1)), None, &mapping()),
        Err(SummariesError::NonexistentTable { tablet_id: UNKNOWN })
    );
    assert_eq!(totals(&s), (7, 120));
    assert_eq!(s.tables.len(), 3);
}

#[test]
fn update_that_takes_out_too_much_is_refused() {
    let mut s = summaries();
    let update = table_update(40, TableUpdateMode::Create);
    assert_eq!(
        s.update::<Rt>(id(USERS), Some(&doc(51)), Some(&doc(1)), Some(&update), &mapping()),
        Err(SummariesError::NegativeSummary)
    );
    assert_eq!(s.tablet_summary(&USERS), summary(2, 50));
    assert_eq!(s.tables.len(), 3);
    assert_eq!(totals(&s), (7, 120));
}

#[test]
fn update_creates_a_table() {
    let mut m = mapping();
    m.insert(40, table("fresh", false, true));
    let mut s = summaries();
    let update = table_update(40, TableUpdateMode::Create);
    assert_eq!(s.update::<Rt>(id(TABLES), None, Some(&doc(1)), Some(&update), &m), Ok(()));
    assert!(s.tables.contains_key(&40));
    assert_eq!(s.tablet_summary(&40), TableSummary::empty());
    assert_eq!(s.tables.len(), 4);
    assert_eq!(totals(&s), (7, 120));
}

#[test]
fn update_activates_a_table() {
    let mut s = summaries();
    let update = table_update(USERS, TableUpdateMode::Activate);
    assert_eq!(s.update::<Rt>(id(TABLES), None, Some(&doc(1)), Some(&update), &mapping()), Ok(()));
    assert_eq!(s.tablet_summary(&USERS), summary(2, 50));
    assert_eq!(s.tables.len(), 3);
}

#[test]
fn update_drops_a_user_table_and_its_counts() {
    let mut s = summaries();
    let update = table_update(USERS, TableUpdateMode::Drop);
    assert_eq!(
        s.update::<Rt>(id(TABLES), Some(&doc(1)), None, Some(&update), &mapping()),
        Ok(())
    );
    assert!(!s.tables.contains_key(&USERS));
    assert_eq!(s.tablet_summary(&TABLES), summary(2, 299));
    assert_eq!(totals(&s), (5, 70));
}

#[test]
fn update_drops_a_table_that_the_mapping_has_forgotten() {
    let mut m = TableMapping::new();
    m.insert(TABLES, table("_tables", true, true));
    m.insert(MESSAGES, table("messages", false, true));
    let mut s = summaries();
    let update = table_update(USERS, TableUpdateMode::Drop);
    assert_eq!(s.update::<Rt>(id(TABLES), Some(&doc(1)), None, Some(&update), &m), Ok(()));
    assert_eq!(totals(&s), (5, 70));
    assert!(s.tables.keys().all(|tablet_id| m.tablet_id_exists(*tablet_id)));
}

#[test]
fn update_drops_a_user_table_while_another_is_written_to() {
    let mut s = summaries();
    let update = table_update(USERS, TableUpdateMode::Drop);
    assert_eq!(
        s.update::<Rt>(id(MESSAGES), None, Some(&doc(9)), Some(&update), &mapping()),
        Ok(())
    );
    assert_eq!(s.tablet_summary(&MESSAGES), summary(6, 79));
    assert_eq!(totals(&s), (6, 79));
}

#[test]
fn update_drops_a_system_table_without_touching_the_user_counts() {
    let mut s = summaries();
    let mut update = table_update(TABLES, TableUpdateMode::Drop);
    update.system = true;
    assert_eq!(
        s.update::<Rt>(id(USERS), None, Some(&doc(1)), Some(&update), &mapping()),
        Ok(())
    );
    assert!(!s.tables.contains_key(&TABLES));
    assert_eq!(totals(&s), (8, 121));
}

#[test]
fn update_drops_a_table_without_summary() {
    let mut s = summaries();
    let update = table_update(UNKNOWN, TableUpdateMode::Drop);
    assert_eq!(
        s.update::<Rt>(id(TABLES), Some(&doc(1)), None, Some(&update), &mapping()),
        Ok(())
    );
    assert_eq!(s.tables.len(), 3);
    assert_eq!(totals(&s), (7, 120));
}

#[test]
fn update_is_not_accepted_where_it_cannot_be_made() {
    let m = mapping();
    let s = summaries();
    let create = table_update(USERS, TableUpdateMode::Create);
    let drop_own = table_update(TABLES, TableUpdateMode::Drop);
    let drop_other = table_update(USERS, TableUpdateMode::Drop);
    assert!(!s.accepts_update::<Rt>(id(TABLES), None, Some(&doc(1)), Some(&create), &m));
    assert!(!s.accepts_update::<Rt>(id(TABLES), None, Some(&doc(1)), Some(&drop_own), &m));
    assert!(s.accepts_update::<Rt>(id(TABLES), None, Some(&doc(1)), Some(&drop_other), &m));
    assert!(!s.accepts_update::<Rt>(id(USERS), None, Some(&doc(usize::MAX)), None, &m));
    assert!(s.accepts_update::<Rt>(id(USERS), None, Some(&doc(1)), None, &m));
    assert!(s.accepts_update::<Rt>(id(USERS), Some(&doc(51)), None, None, &m));
    let mut miscounted = s.clone();
    miscounted.num_user_documents = 1;
    assert!(!miscounted.accepts_update::<Rt>(
        id(TABLES),
        None,
        Some(&doc(1)),
        Some(&drop_other),
        &m
    ));
}

#[test]
fn clone_of_summaries_is_independent() {
    let mut s = summaries();
    let copy = s.clone();
    assert_eq!(s.update::<Rt>(id(USERS), None, Some(&doc(8)), None, &mapping()), Ok(()));
    assert_eq!(copy.tablet_summary(&USERS), summary(2, 50));
    assert_eq!(totals(&copy), (7, 120));
    assert_eq!(s.tablet_summary(&USERS), summary(3, 58));
}

#[test]
fn many_tables_come_and_go() {
    let m = mapping();
    let mut s = summaries();
    let mut expected: BTreeMap<u128, TableSummary> = BTreeMap::new();
    expected.insert(TABLES, summary(3, 300));
    expected.insert(USERS, summary(2, 50));
    expected.insert(MESSAGES, summary(5, 70));
    let mut kept: Vec<(TableSummaries, BTreeMap<u128, TableSummary>)> = Vec::new();
    let mut state: u64 = 12345;
    for round in 0..20000 {
        state = state.wrapping_mul(6364136223846793005).wrapping_add(1442695040888963407);
        let tablet = 1000 + ((state >> 33) % 1500) as u128;
        let present = expected.contains_key(&tablet);
        let wanted = round % 4000 < 2500;
        if wanted && present {
            let size = (state >> 40) as usize % 100;
            assert_eq!(s.update::<Rt>(id(tablet), None, Some(&doc(size)), None, &m), Ok(()));
            let before = expected[&tablet];
            expected.insert(tablet, before.insert(size));
        } else {
            let mode = if wanted { TableUpdateMode::Create } else { TableUpdateMode::Drop };
            let update = table_update(tablet, mode);
            assert_eq!(
                s.update::<Rt>(id(TABLES), Some(&doc(0)), Some(&doc(0)), Some(&update), &m),
                Ok(())
            );
            if wanted {
                expected.insert(tablet, TableSummary::empty());
            } else {
                expected.remove(&tablet);
            }
        }
        if round % 1000 == 0 {
            kept.push((s.clone(), expected.clone()));
        }
    }
    kept.push((s, expected));
    for (s, expected) in &kept {
        assert!(s.tables.iter().eq(expected.iter()));
        let user = expected.iter().filter(|entry| *entry.0 != TABLES);
        let counted = user.fold((0, 0), |acc, entry| {
            (acc.0 + entry.1.num_values(), acc.1 + entry.1.total_size())
        });
        assert_eq!(totals(s), counted);
        for tablet in 1000..2500u128 {
            let wanted = expected.get(&tablet).copied().unwrap_or(TableSummary::empty());
            assert_eq!(s.tablet_summary(&tablet), wanted);
        }
    }
}
