//! The plain values that the rest of the crate is written in.

use std::sync::Arc;
use vstd::prelude::*;

verus! {

/// Identifies one table, for as long as the database exists. Tablets are
/// ordered by this number.
pub type TabletId = u128;

/// The number by which a table is known inside its namespace.
pub type TableNumber = u32;

/// The name of a table inside its namespace.
pub type TableName = String;

/// A point in the history of the database, in nanoseconds.
#[derive(Clone, Copy, Debug, PartialEq, Eq, Structural)]
pub struct Timestamp {
    pub nanos: u64,
}

impl Timestamp {
    pub fn from_nanos(nanos: u64) -> (ts: Timestamp)
        ensures
            ts.nanos == nanos,
    {
        Timestamp { nanos }
    }
}

/// Why a timestamp is known to be safe to read at.
#[derive(Clone, Copy, Debug, PartialEq, Eq, Structural)]
pub enum RepeatableReason {
    /// It is the latest timestamp of the snapshot manager.
    SnapshotManagerLatest,
    /// It is no later than another repeatable timestamp.
    InductiveRepeatableTimestamp,
}

/// A timestamp at which every read gives the same answer, now and later.
#[derive(Clone, Copy, Debug, PartialEq, Eq, Structural)]
pub struct RepeatableTimestamp {
    pub ts: Timestamp,
    pub reason: RepeatableReason,
}

impl RepeatableTimestamp {
    /// Takes the caller's word that `ts` is repeatable, for the given reason.
    pub fn new_validated(ts: Timestamp, reason: RepeatableReason) -> (repeatable: Self)
        ensures
            repeatable.ts == ts,
            repeatable.reason == reason,
    {
        RepeatableTimestamp { ts, reason }
    }

    /// What is no later than a repeatable timestamp is repeatable too: gives
    /// `ts` back as such, or nothing where it is later than `self`.
    pub fn prior_ts(&self, ts: Timestamp) -> (prior: Option<RepeatableTimestamp>)
        ensures
            prior == (if ts.nanos <= self.ts.nanos {
                Some(
                    RepeatableTimestamp {
                        ts,
                        reason: RepeatableReason::InductiveRepeatableTimestamp,
                    },
                )
            } else {
                None::<RepeatableTimestamp>
            }),
    {
        if ts.nanos <= self.ts.nanos {
            Some(
                RepeatableTimestamp::new_validated(
                    ts,
                    RepeatableReason::InductiveRepeatableTimestamp,
                ),
            )
        } else {
            None
        }
    }
}

/// The timestamp of a write, as the indexes are told of it.
#[derive(Clone, Copy, Debug, PartialEq, Eq, Structural)]
pub enum WriteTimestamp {
    Committed(Timestamp),
    Pending,
}

/// The space in which a table's name is unique.
#[derive(Clone, Copy, Debug, PartialEq, Eq, Structural)]
pub enum TableNamespace {
    Global,
    /// The tables of one component, by the component's identifier.
    ByComponent(u128),
}

/// A document's identifier together with the tablet that holds it.
#[derive(Clone, Copy, Debug, PartialEq, Eq, Structural)]
pub struct ResolvedDocumentId {
    pub tablet_id: TabletId,
    pub internal_id: u128,
}

/// The parts of a snapshot that this crate carries without looking inside.
pub trait Runtime: Sized {
    /// The fields and values of a document.
    type Document;

    /// The schemas of all namespaces.
    type SchemaRegistry;

    /// The tree of components.
    type ComponentRegistry;

    /// The metadata of all indexes.
    type IndexMetadata;

    /// The indexes that are held in memory.
    type InMemoryIndexes;

    /// The text search indexes.
    type TextIndexes;

    /// The vector search indexes.
    type VectorIndexes;

    /// One change to a database index.
    type DatabaseIndexUpdate;

    /// Whether a document is in a vector index.
    type DocInVectorIndex;

    /// What goes wrong when one of these parts is updated.
    type Error;
}

/// A document as it is stored: its size, which the table summaries count, and
/// its content, which they do not look at.
pub struct ResolvedDocument<RT: Runtime> {
    pub size: usize,
    pub content: Arc<RT::Document>,
}

impl<RT: Runtime> Clone for ResolvedDocument<RT> {
    fn clone(&self) -> (copy: Self)
        ensures
            copy == *self,
    {
        ResolvedDocument { size: self.size, content: self.content.clone() }
    }
}

/// The size of a document that may be absent.
pub open spec fn document_size<RT: Runtime>(document: Option<&ResolvedDocument<RT>>) -> Option<
    usize,
> {
    match document {
        Some(d) => Some(d.size),
        None => None,
    }
}

/// One document before and after a write. A document that is written for the
/// first time has no old version, one that is deleted has no new one.
pub struct DocumentUpdate<RT: Runtime> {
    pub id: ResolvedDocumentId,
    pub old_document: Option<ResolvedDocument<RT>>,
    pub new_document: Option<ResolvedDocument<RT>>,
}

impl<RT: Runtime> DocumentUpdate<RT> {
    /// The size of the old version, if there is one.
    pub open spec fn old_size(self) -> Option<usize> {
        match self.old_document {
            Some(d) => Some(d.size),
            None => None,
        }
    }

    /// The size of the new version, if there is one.
    pub open spec fn new_size(self) -> Option<usize> {
        match self.new_document {
            Some(d) => Some(d.size),
            None => None,
        }
    }
}

} // verus!
