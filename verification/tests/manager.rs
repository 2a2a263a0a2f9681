use snapshot_manager::snapshot::{IndexRegistry, Snapshot};
use snapshot_manager::snapshot_manager::{
    SnapshotError, SnapshotManager, MAX_TRANSACTION_WINDOW,
};
use snapshot_manager::table_mapping::{TableMapping, TableRegistry};
use snapshot_manager::table_summaries::{TableSummaries, TableSummarySnapshot};
use snapshot_manager::types::{RepeatableReason, RepeatableTimestamp, Runtime, Timestamp};
use std::collections::BTreeMap;
use std::sync::Arc;

struct Rt;

impl Runtime for Rt {
    type Document = ();
    type SchemaRegistry = u64;
    type ComponentRegistry = ();
    type IndexMetadata = ();
    type InMemoryIndexes = u64;
    type TextIndexes = u64;
    type VectorIndexes = u64;
    type DatabaseIndexUpdate = ();
    type DocInVectorIndex = ();
    type Error = ();
}

const SECOND: u64 = 1_000_000_000;

fn at(nanos: u64) -> Timestamp {
    Timestamp::from_nanos(nanos)
}

/// A snapshot that can be told from others by its number.
fn numbered(n: u64) -> Snapshot<Rt> {
    let mapping = TableMapping::new();
    let summaries = TableSummaries::new(
        TableSummarySnapshot { tables: BTreeMap::new(), ts: at(0) },
        &mapping,
    );
    Snapshot {
        table_registry: Arc::new(TableRegistry {
            table_mapping: Arc::new(mapping),
            tablet_states: BTreeMap::new(),
        }),
        schema_registry: Arc::new(n),
        component_registry: Arc::new(()),
        table_summaries: summaries,
        index_registry: Arc::new(IndexRegistry { metadata: Arc::new(()), enabled: vec![] }),
        in_memory_indexes: Arc::new(0),
        text_indexes: Arc::new(0),
        vector_indexes: Arc::new(0),
    }
}

fn read(manager: &SnapshotManager<Rt>, nanos: u64) -> Result<u64, SnapshotError> {
    manager.snapshot(at(nanos)).map(|s| *s.schema_registry)
}

fn manager(timestamps: &[u64]) -> SnapshotManager<Rt> {
    let mut m = SnapshotManager::new(at(timestamps[0]), numbered(timestamps[0]));
    for ts in &timestamps[1..] {
        m.push(at(*ts), numbered(*ts));
    }
    m
}

#[test]
fn new_manager_has_one_version() {
    let m = manager(&[100]);
    assert_eq!(
        m.latest_ts(),
        RepeatableTimestamp {
            ts: at(100),
            reason: RepeatableReason::SnapshotManagerLatest,
        }
    );
    assert_eq!(
        m.persisted_max_repeatable_ts(),
        RepeatableTimestamp {
            ts: at(100),
            reason: RepeatableReason::InductiveRepeatableTimestamp,
        }
    );
    assert_eq!(*m.latest_snapshot().schema_registry, 100);
    let (ts, snapshot) = m.latest();
    assert_eq!((ts, *snapshot.schema_registry), (m.latest_ts(), 100));
    assert_eq!(read(&m, 100), Ok(100));
}

#[test]
fn reads_give_the_last_version_that_is_not_later() {
    let m = manager(&[10, 20, 30, 40, 50]);
    for ts in 10..=50 {
        assert_eq!(read(&m, ts), Ok(ts / 10 * 10));
    }
    assert_eq!(read(&m, 9), Err(SnapshotError::TooEarly { ts: at(9) }));
    assert_eq!(
        read(&m, 51),
        Err(SnapshotError::TooRecent { ts: at(51), latest_ts: at(50) })
    );
}

#[test]
fn push_keeps_reads() {
    let mut m = manager(&[10, 20, 30]);
    m.push(at(45), numbered(45));
    for ts in 10..=30 {
        assert_eq!(read(&m, ts), Ok(ts / 10 * 10));
    }
    assert_eq!(read(&m, 44), Ok(30));
    assert_eq!(read(&m, 45), Ok(45));
    assert_eq!(m.latest_ts().ts, at(45));
    assert_eq!(m.persisted_max_repeatable_ts().ts, at(10));
}

#[test]
fn window_is_ten_seconds() {
    assert_eq!(MAX_TRANSACTION_WINDOW, 10 * SECOND);
}

#[test]
fn push_keeps_a_version_at_the_edge_of_the_window() {
    let mut m = manager(&[5, 6, 7]);
    m.push(at(5 + 10 * SECOND), numbered(1));
    assert_eq!(read(&m, 5), Ok(5));
}

#[test]
fn push_drops_versions_outside_the_window() {
    let mut m = manager(&[5, 6, 7]);
    m.push(at(7 + 10 * SECOND), numbered(1));
    assert_eq!(read(&m, 5), Err(SnapshotError::TooEarly { ts: at(5) }));
    assert_eq!(read(&m, 6), Err(SnapshotError::TooEarly { ts: at(6) }));
    assert_eq!(read(&m, 7), Ok(7));
    assert_eq!(read(&m, 8), Ok(7));
}

#[test]
fn push_keeps_the_latest_version_however_old() {
    let mut m = manager(&[5, 6, 7]);
    m.push(at(100 * SECOND), numbered(1));
    assert_eq!(read(&m, 6), Err(SnapshotError::TooEarly { ts: at(6) }));
    assert_eq!(read(&m, 7), Ok(7));
    assert_eq!(read(&m, 50 * SECOND), Ok(7));
    assert_eq!(read(&m, 100 * SECOND), Ok(1));
}

#[test]
fn timestamps_before_the_oldest_version_in_the_window_are_lost() {
    let mut m = manager(&[SECOND, 11 * SECOND]);
    m.push(at(12 * SECOND), numbered(1));
    assert_eq!(
        read(&m, 5 * SECOND),
        Err(SnapshotError::TooEarly { ts: at(5 * SECOND) })
    );
    assert_eq!(read(&m, 11 * SECOND), Ok(11 * SECOND));
}

#[test]
fn bump_repeats_the_latest_version() {
    let mut m = manager(&[10, 20]);
    assert!(m.bump_persisted_max_repeatable_ts(at(25)));
    assert_eq!(m.latest_ts().ts, at(25));
    assert_eq!(m.persisted_max_repeatable_ts().ts, at(25));
    assert_eq!(read(&m, 25), Ok(20));
    assert_eq!(read(&m, 15), Ok(10));
    assert_eq!(*m.latest_snapshot().schema_registry, 20);
}

#[test]
fn bump_to_the_latest_timestamp_or_earlier_does_nothing() {
    let mut m = manager(&[10, 20]);
    assert!(!m.bump_persisted_max_repeatable_ts(at(20)));
    assert!(!m.bump_persisted_max_repeatable_ts(at(15)));
    assert_eq!(m.latest_ts().ts, at(20));
    assert_eq!(m.persisted_max_repeatable_ts().ts, at(10));
}

#[test]
fn overwriting_indexes_changes_the_latest_version_alone() {
    let mut m = manager(&[10, 20]);
    m.overwrite_last_snapshot_text_and_vector_indexes(Arc::new(3), Arc::new(4));
    m.overwrite_last_snapshot_in_memory_indexes(Arc::new(5));
    let latest = m.latest_snapshot();
    assert_eq!(*latest.text_indexes, 3);
    assert_eq!(*latest.vector_indexes, 4);
    assert_eq!(*latest.in_memory_indexes, 5);
    assert_eq!(*latest.schema_registry, 20);
    assert_eq!(m.latest_ts().ts, at(20));
    let earlier = match m.snapshot(at(19)) {
        Ok(earlier) => earlier,
        Err(_) => panic!("not readable"),
    };
    assert_eq!(*earlier.text_indexes, 0);
    assert_eq!(*earlier.vector_indexes, 0);
    assert_eq!(*earlier.in_memory_indexes, 0);
}

#[test]
fn prior_timestamps_are_repeatable() {
    let repeatable =
        RepeatableTimestamp::new_validated(at(10), RepeatableReason::SnapshotManagerLatest);
    assert_eq!(repeatable.prior_ts(at(10)).map(|prior| prior.ts), Some(at(10)));
    assert_eq!(repeatable.prior_ts(at(9)).map(|prior| prior.ts), Some(at(9)));
    assert_eq!(repeatable.prior_ts(at(11)), None);
}
