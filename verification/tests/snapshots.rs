use snapshot_manager::snapshot::{EnabledIndex, IndexRegistry, Snapshot, StorageError};
use snapshot_manager::snapshot_update::{
    UpdateCall, UpdateError, UpdateEvent, UpdateStep,
};
use snapshot_manager::table_mapping::{
    MappedTable, TableMapping, TableRegistry, TableState, TableUpdate, TableUpdateMode,
    TabletIdAndTableNumber,
};
use snapshot_manager::table_summaries::{
    SummariesError, TableSummaries, TableSummary, TableSummarySnapshot,
};
use snapshot_manager::types::{
    DocumentUpdate, ResolvedDocument, ResolvedDocumentId, Runtime, TableNamespace, Timestamp,
    WriteTimestamp,
};
use std::collections::BTreeMap;
use std::sync::Arc;

struct Rt;

impl Runtime for Rt {
    type Document = &'static str;
    type SchemaRegistry = &'static str;
    type ComponentRegistry = &'static str;
    type IndexMetadata = &'static str;
    type InMemoryIndexes = &'static str;
    type TextIndexes = &'static str;
    type VectorIndexes = &'static str;
    type DatabaseIndexUpdate = u32;
    type DocInVectorIndex = bool;
    type Error = &'static str;
}

const TABLES: u128 = 1;
const USERS: u128 = 10;
const HIDDEN: u128 = 15;
const MESSAGES: u128 = 20;
const OTHER_USERS: u128 = 5;

const COMPONENT: TableNamespace = TableNamespace::ByComponent(4);

fn table(namespace: TableNamespace, name: &str, system: bool, active: bool) -> MappedTable {
    MappedTable { namespace, table_number: 7, name: name.to_string(), system, active }
}

fn mapping() -> TableMapping {
    let mut m = TableMapping::new();
    assert!(m.insert(TABLES, table(TableNamespace::Global, "_tables", true, true)));
    assert!(m.insert(USERS, table(TableNamespace::Global, "users", false, true)));
    assert!(m.insert(HIDDEN, table(TableNamespace::Global, "users", false, false)));
    assert!(m.insert(MESSAGES, table(TableNamespace::Global, "messages", false, true)));
    assert!(m.insert(OTHER_USERS, table(COMPONENT, "users", false, true)));
    m
}

fn summary(num_values: usize, total_size: usize) -> TableSummary {
    TableSummary { num_values, total_size }
}

fn index(tablet_id: u128, descriptor: &str, system_owned: bool) -> EnabledIndex {
    EnabledIndex { tablet_id, descriptor: descriptor.to_string(), system_owned }
}

fn indexes() -> Vec<EnabledIndex> {
    vec![
        index(TABLES, "by_id", true),
        index(USERS, "by_name", false),
        index(USERS, "by_age", false),
        index(HIDDEN, "by_name", false),
        index(OTHER_USERS, "by_name", false),
        index(MESSAGES, "by_id", true),
    ]
}

fn snapshot_with(enabled: Vec<EnabledIndex>, mapping: TableMapping) -> Snapshot<Rt> {
    let mut tables = BTreeMap::new();
    tables.insert(TABLES, summary(5, 500));
    tables.insert(USERS, summary(2, 50));
    tables.insert(HIDDEN, summary(1, 9));
    tables.insert(MESSAGES, summary(3, 70));
    tables.insert(OTHER_USERS, summary(4, 8));
    let mut tablet_states = BTreeMap::new();
    tablet_states.insert(TABLES, TableState::Active);
    tablet_states.insert(USERS, TableState::Active);
    tablet_states.insert(HIDDEN, TableState::Hidden);
    tablet_states.insert(MESSAGES, TableState::Active);
    tablet_states.insert(OTHER_USERS, TableState::Active);
    let summaries = TableSummaries::new(
        TableSummarySnapshot { tables, ts: Timestamp::from_nanos(1) },
        &mapping,
    );
    Snapshot {
        table_registry: Arc::new(TableRegistry { table_mapping: Arc::new(mapping), tablet_states }),
        schema_registry: Arc::new("schema"),
        component_registry: Arc::new("components"),
        table_summaries: summaries,
        index_registry: Arc::new(IndexRegistry { metadata: Arc::new("indexes"), enabled }),
        in_memory_indexes: Arc::new("memory"),
        text_indexes: Arc::new("text"),
        vector_indexes: Arc::new("vector"),
    }
}

fn snapshot() -> Snapshot<Rt> {
    snapshot_with(indexes(), mapping())
}

#[test]
fn user_tables_are_listed_in_the_order_of_their_tablets() {
    let listing = snapshot().iter_user_table_summaries();
    assert_eq!(
        listing,
        vec![
            ((COMPONENT, "users".to_string()), summary(4, 8)),
            ((TableNamespace::Global, "users".to_string()), summary(2, 50)),
            ((TableNamespace::Global, "messages".to_string()), summary(3, 70)),
        ]
    );
}

#[test]
fn listed_documents_are_among_the_counted_ones() {
    let s = snapshot();
    let listed: usize = s.iter_user_table_summaries().iter().map(|e| e.1.num_values()).sum();
    assert_eq!(listed, 9);
    assert_eq!(s.table_summaries.num_user_documents, 10);
}

#[test]
fn all_counted_documents_are_listed_where_all_user_tables_are_active() {
    let mut s = snapshot();
    let mut tablet_states = s.table_registry.tablet_states.clone();
    tablet_states.insert(HIDDEN, TableState::Active);
    let table_mapping = s.table_registry.table_mapping.clone();
    s.table_registry = Arc::new(TableRegistry { table_mapping, tablet_states });
    let listing = s.iter_user_table_summaries();
    let listed: usize = listing.iter().map(|e| e.1.num_values()).sum();
    let size: usize = listing.iter().map(|e| e.1.total_size()).sum();
    assert_eq!((listed, size), (10, 137));
    assert_eq!((s.table_summaries.num_user_documents, s.table_summaries.user_size), (10, 137));
}

#[test]
fn table_summary_is_found_by_name() {
    let s = snapshot();
    assert_eq!(s.table_summary(TableNamespace::Global, &"users".to_string()), summary(2, 50));
    assert_eq!(s.table_summary(COMPONENT, &"users".to_string()), summary(4, 8));
    assert_eq!(s.table_summary(COMPONENT, &"messages".to_string()), TableSummary::empty());
    assert!(s.table_mapping().tablet_id_exists(HIDDEN));
}

#[test]
fn storage_counts_user_indexes_on_active_tables() {
    let s = snapshot();
    let storage = match s.get_user_document_and_index_storage() {
        Ok(storage) => storage,
        Err(_) => panic!("no storage"),
    };
    assert_eq!(storage.get(TableNamespace::Global, &"users".to_string()), Some((50, 100)));
    assert_eq!(storage.get(TableNamespace::Global, &"messages".to_string()), Some((70, 0)));
    assert_eq!(storage.get(COMPONENT, &"users".to_string()), Some((8, 8)));
    assert_eq!(storage.get(TableNamespace::Global, &"_tables".to_string()), None);
    let names: Vec<&str> = storage.entries().iter().map(|e| e.table_name.as_str()).collect();
    assert_eq!(names, vec!["messages", "users", "users"]);
}

#[test]
fn an_index_on_a_table_that_is_no_user_table_is_an_error() {
    let mut enabled = indexes();
    enabled.push(index(TABLES, "by_name", false));
    enabled.push(index(TABLES, "by_other", false));
    let s = snapshot_with(enabled, mapping());
    match s.get_user_document_and_index_storage() {
        Err(StorageError::IndexOnNonexistentTable { descriptor, table_name, namespace }) => {
            assert_eq!(descriptor, "by_name");
            assert_eq!(table_name, "_tables");
            assert_eq!(namespace, TableNamespace::Global);
        }
        Ok(_) => panic!("storage"),
    }
}

/// The storage of the snapshot with these indexes: document and index size of
/// each table, or the descriptor of the index that is on no user table.
fn told(enabled: Vec<EnabledIndex>) -> Result<Vec<(String, usize, usize)>, String> {
    match snapshot_with(enabled, mapping()).get_user_document_and_index_storage() {
        Ok(storage) => Ok(storage
            .entries()
            .iter()
            .map(|e| (e.table_name.clone(), e.document_size, e.index_size))
            .collect()),
        Err(StorageError::IndexOnNonexistentTable { descriptor, .. }) => Err(descriptor),
    }
}

#[test]
fn indexes_that_are_not_charged_cost_nothing_wherever_they_stand() {
    let mut stray = indexes();
    stray.insert(3, index(TABLES, "by_name", false));
    for at in 0..=indexes().len() {
        for free in [(MESSAGES, true), (HIDDEN, false), (999, false)] {
            let mut enabled = indexes();
            enabled.insert(at, index(free.0, "free", free.1));
            assert_eq!(told(enabled), told(indexes()));
            let mut enabled = indexes();
            enabled.insert(3, index(TABLES, "by_name", false));
            enabled.insert(at, index(free.0, "free", free.1));
            assert_eq!(told(enabled), Err("by_name".to_string()));
        }
    }
    assert_eq!(told(stray), Err("by_name".to_string()));
}

#[test]
fn a_user_index_costs_the_size_of_its_table_wherever_it_stands() {
    let entry = |name: &str, documents: usize, index: usize| (name.to_string(), documents, index);
    assert_eq!(
        told(indexes()),
        Ok(vec![entry("messages", 70, 0), entry("users", 50, 100), entry("users", 8, 8)])
    );
    for at in 0..=indexes().len() {
        let mut enabled = indexes();
        enabled.insert(at, index(MESSAGES, "by_text", false));
        assert_eq!(
            told(enabled),
            Ok(vec![entry("messages", 70, 70), entry("users", 50, 100), entry("users", 8, 8)])
        );
        let mut enabled = indexes();
        enabled.push(index(TABLES, "by_name", false));
        enabled.insert(at, index(MESSAGES, "by_text", false));
        assert_eq!(told(enabled), Err("by_name".to_string()));
    }
}

#[test]
fn storage_is_not_told_where_sizes_do_not_fit() {
    let mut s = snapshot();
    let big = ResolvedDocument::<Rt> { size: usize::MAX / 2, content: Arc::new("big") };
    let id = ResolvedDocumentId { tablet_id: USERS, internal_id: 1 };
    let m = mapping();
    assert!(s.table_summaries.accepts_update(id, None, Some(&big), None, &m));
    assert_eq!(s.table_summaries.update(id, None, Some(&big), None, &m), Ok(()));
    assert!(s.active_tables_are_mapped());
    assert!(s.checked_user_document_and_index_storage().is_none());
}

#[test]
fn storage_is_not_told_where_an_active_table_has_no_name() {
    let mut s = snapshot();
    let mut m = TableMapping::new();
    m.insert(USERS, table(TableNamespace::Global, "users", false, true));
    let states = s.table_registry.tablet_states.clone();
    s.table_registry =
        Arc::new(TableRegistry { table_mapping: Arc::new(m), tablet_states: states });
    assert!(!s.active_tables_are_mapped());
    assert!(s.checked_user_document_and_index_storage().is_none());
    assert!(snapshot().active_tables_are_mapped());
    assert!(snapshot().checked_user_document_and_index_storage().is_some());
}

fn document_update(tablet_id: u128, old: Option<usize>, new: Option<usize>) -> DocumentUpdate<Rt> {
    let document =
        |content: &'static str, size: usize| ResolvedDocument { size, content: Arc::new(content) };
    DocumentUpdate {
        id: ResolvedDocumentId { tablet_id, internal_id: 77 },
        old_document: old.map(|size| document("old", size)),
        new_document: new.map(|size| document("new", size)),
    }
}

/// The registry after a table "fresh" was created, and the update that says so.
fn with_fresh_table(s: &Snapshot<Rt>) -> (Arc<TableRegistry>, TableUpdate) {
    let mut m = mapping();
    assert!(m.insert(40, table(TableNamespace::Global, "fresh", false, true)));
    let mut tablet_states = s.table_registry.tablet_states.clone();
    tablet_states.insert(40, TableState::Active);
    (
        Arc::new(TableRegistry { table_mapping: Arc::new(m), tablet_states }),
        TableUpdate {
            namespace: TableNamespace::Global,
            table_id_and_number: TabletIdAndTableNumber { tablet_id: 40, table_number: 9 },
            table_name: "fresh".to_string(),
            system: false,
            state: TableState::Active,
            mode: TableUpdateMode::Create,
        },
    )
}

/// Answers every call, and fails at the given one, counted from zero.
fn answer(s: &Snapshot<Rt>, call: UpdateCall<Rt>, fail_at: usize) -> UpdateEvent<Rt> {
    let result = |n: usize| if n == fail_at { Err("broken") } else { Ok(()) };
    match call {
        UpdateCall::TableRegistry { table_registry, index_registry, document_id, removal, insertion } => {
            assert!(Arc::ptr_eq(&table_registry, &s.table_registry));
            assert!(Arc::ptr_eq(&index_registry, &s.index_registry));
            assert_eq!(document_id.internal_id, 77);
            assert!(removal.is_none());
            assert_eq!(insertion.map(|d| (*d.content, d.size)), Some(("new", 6)));
            let (table_registry, update) = with_fresh_table(s);
            UpdateEvent::TableRegistry { table_registry, result: result(0).map(|_| Some(update)) }
        }
        UpdateCall::SchemaRegistry { schema_registry, table_mapping, .. } => {
            assert_eq!(*schema_registry, "schema");
            assert!(table_mapping.tablet_id_exists(40));
            UpdateEvent::SchemaRegistry { schema_registry: Arc::new("schema'"), result: result(1) }
        }
        UpdateCall::ComponentRegistry { component_registry, table_mapping, .. } => {
            assert_eq!(*component_registry, "components");
            assert!(table_mapping.tablet_id_exists(40));
            UpdateEvent::ComponentRegistry {
                component_registry: Arc::new("components'"),
                result: result(2),
            }
        }
        UpdateCall::IndexRegistry { index_registry, .. } => {
            assert_eq!(*index_registry.metadata, "indexes");
            UpdateEvent::IndexRegistry {
                index_registry: Arc::new(IndexRegistry {
                    metadata: Arc::new("indexes'"),
                    enabled: vec![],
                }),
                result: result(3),
            }
        }
        UpdateCall::InMemoryIndexes { in_memory_indexes, index_registry, commit_ts, .. } => {
            assert_eq!(*in_memory_indexes, "memory");
            assert_eq!(*index_registry.metadata, "indexes'");
            assert_eq!(commit_ts, Timestamp::from_nanos(8));
            UpdateEvent::InMemoryIndexes {
                in_memory_indexes: Arc::new("memory'"),
                updates: vec![1, 2, 3],
            }
        }
        UpdateCall::TextIndexes { text_indexes, index_registry, write_ts, .. } => {
            assert_eq!(*text_indexes, "text");
            assert_eq!(*index_registry.metadata, "indexes'");
            assert_eq!(write_ts, WriteTimestamp::Committed(Timestamp::from_nanos(8)));
            UpdateEvent::TextIndexes { text_indexes: Arc::new("text'"), result: result(5) }
        }
        UpdateCall::VectorIndexes { vector_indexes, index_registry, write_ts, .. } => {
            assert_eq!(*vector_indexes, "vector");
            assert_eq!(*index_registry.metadata, "indexes'");
            assert_eq!(write_ts, WriteTimestamp::Committed(Timestamp::from_nanos(8)));
            UpdateEvent::VectorIndexes {
                vector_indexes: Arc::new("vector'"),
                result: result(6).map(|_| true),
            }
        }
    }
}

fn run(
    s: &mut Snapshot<Rt>,
    tablet_id: u128,
    fail_at: usize,
) -> Result<(Vec<u32>, bool), UpdateError<Rt>> {
    let update = document_update(tablet_id, None, Some(6));
    let mut step = s.begin_update(update, Timestamp::from_nanos(8));
    loop {
        match step {
            UpdateStep::Call(pending, call) => {
                let event = answer(s, call, fail_at);
                assert!(s.can_resume_update(&pending, &event));
                step = s.resume_update(pending, event);
            }
            UpdateStep::Finished(result) => return result,
        }
    }
}

fn parts(s: &Snapshot<Rt>) -> (bool, &str, &str, usize, &str, &str, &str, &str) {
    (
        s.table_mapping().tablet_id_exists(40),
        &s.schema_registry,
        &s.component_registry,
        s.table_summaries.tables.len(),
        &s.index_registry.metadata,
        &s.in_memory_indexes,
        &s.text_indexes,
        &s.vector_indexes,
    )
}

#[test]
fn successful_update_puts_every_part_in_place() {
    let mut s = snapshot();
    match run(&mut s, TABLES, 100) {
        Ok((updates, in_vector_index)) => {
            assert_eq!(updates, vec![1, 2, 3]);
            assert!(in_vector_index);
        }
        Err(_) => panic!("failed"),
    }
    assert_eq!(
        parts(&s),
        (true, "schema'", "components'", 6, "indexes'", "memory'", "text'", "vector'")
    );
    assert_eq!(s.table_summaries.tablet_summary(&TABLES), summary(6, 506));
}

#[test]
fn after_an_update_the_tables_that_exist_can_be_listed() {
    let mut s = snapshot();
    assert!(run(&mut s, TABLES, 100).is_ok());
    assert!(s.active_tables_are_mapped());
    let names: Vec<String> =
        s.iter_user_table_summaries().into_iter().map(|entry| entry.0 .1).collect();
    assert_eq!(names, vec!["users", "users", "messages", "fresh"]);
}

fn failure(fail_at: usize) -> (Option<&'static str>, Snapshot<Rt>) {
    let mut s = snapshot();
    match run(&mut s, TABLES, fail_at) {
        Ok(_) => panic!("succeeded"),
        Err(e) => {
            let cause = match &e {
                UpdateError::TableRegistry(cause) => (0, *cause),
                UpdateError::SchemaRegistry(cause) => (1, *cause),
                UpdateError::ComponentRegistry(cause) => (2, *cause),
                UpdateError::IndexRegistry(cause) => (3, *cause),
                UpdateError::TextIndexes(cause) => (5, *cause),
                UpdateError::VectorIndexes(cause) => (6, *cause),
                UpdateError::TableSummaries(_) => (9, ""),
            };
            assert_eq!(cause, (fail_at, "broken"));
            (e.context(), s)
        }
    }
}

#[test]
fn failed_updates_keep_what_was_done_and_say_what_failed() {
    let (context, s) = failure(0);
    assert_eq!(context, Some("Table registry update failed"));
    assert_eq!(parts(&s), (true, "schema", "components", 5, "indexes", "memory", "text", "vector"));
    let (context, s) = failure(1);
    assert_eq!(context, None);
    assert_eq!(parts(&s), (true, "schema'", "components", 5, "indexes", "memory", "text", "vector"));
    let (context, s) = failure(2);
    assert_eq!(context, None);
    assert_eq!(
        parts(&s),
        (true, "schema'", "components'", 5, "indexes", "memory", "text", "vector")
    );
    let (context, s) = failure(3);
    assert_eq!(context, Some("Index update failed"));
    assert_eq!(
        parts(&s),
        (true, "schema'", "components'", 6, "indexes'", "memory", "text", "vector")
    );
    let (context, s) = failure(5);
    assert_eq!(context, Some("Search index update failed"));
    assert_eq!(
        parts(&s),
        (true, "schema'", "components'", 6, "indexes'", "memory'", "text'", "vector")
    );
    let (context, s) = failure(6);
    assert_eq!(context, Some("Vector index update failed"));
    assert_eq!(
        parts(&s),
        (true, "schema'", "components'", 6, "indexes'", "memory'", "text'", "vector'")
    );
}

#[test]
fn update_fails_where_the_summaries_refuse_it() {
    let mut s = snapshot();
    match run(&mut s, 999, 100) {
        Err(e) => {
            assert_eq!(e.context(), Some("Table summaries update failed"));
            assert!(matches!(
                e,
                UpdateError::TableSummaries(SummariesError::NonexistentTable { tablet_id: 999 })
            ));
        }
        Ok(_) => panic!("succeeded"),
    }
    assert_eq!(
        parts(&s),
        (true, "schema'", "components'", 5, "indexes", "memory", "text", "vector")
    );
}

#[test]
fn update_is_resumed_by_the_awaited_event_only() {
    let s = snapshot();
    let update = document_update(TABLES, None, Some(6));
    match s.begin_update(update, Timestamp::from_nanos(8)) {
        UpdateStep::Call(pending, _) => {
            let event = UpdateEvent::SchemaRegistry {
                schema_registry: Arc::new("schema'"),
                result: Ok(()),
            };
            assert!(!s.can_resume_update(&pending, &event));
            let event = UpdateEvent::TableRegistry {
                table_registry: s.table_registry.clone(),
                result: Ok(None),
            };
            assert!(s.can_resume_update(&pending, &event));
        }
        UpdateStep::Finished(_) => panic!("finished"),
    }
}

#[test]
fn update_is_not_resumed_where_a_created_table_has_a_summary() {
    let mut s = snapshot();
    let update = document_update(TABLES, None, Some(6));
    let mut step = s.begin_update(update, Timestamp::from_nanos(8));
    for n in 0..3 {
        let (pending, call) = match step {
            UpdateStep::Call(pending, call) => (pending, call),
            UpdateStep::Finished(_) => panic!("finished"),
        };
        let event = match answer(&s, call, 100) {
            UpdateEvent::TableRegistry { table_registry, result: Ok(Some(mut update)) } => {
                update.table_id_and_number.tablet_id = USERS;
                UpdateEvent::TableRegistry { table_registry, result: Ok(Some(update)) }
            }
            event => event,
        };
        assert_eq!(s.can_resume_update(&pending, &event), n < 2);
        if n == 2 {
            return;
        }
        step = s.resume_update(pending, event);
    }
}

#[test]
fn snapshot_clone_is_independent() {
    let mut s = snapshot();
    let copy = s.clone();
    assert!(run(&mut s, TABLES, 100).is_ok());
    assert_eq!(
        parts(&copy),
        (false, "schema", "components", 5, "indexes", "memory", "text", "vector")
    );
}
