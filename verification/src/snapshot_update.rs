//! The order in which a document write is taken in by the parts of a snapshot.
//!
//! Most parts are updated outside this crate. The update therefore runs in
//! steps: each step says which part to update next and with what, and goes on
//! when it is told what came of it.

use crate::snapshot::{IndexRegistry, Snapshot, SnapshotView};
use crate::table_mapping::{TableMapping, TableRegistry, TableUpdate};
use crate::table_summaries::SummariesError;
use crate::types::{
    DocumentUpdate, ResolvedDocument, ResolvedDocumentId, Runtime, Timestamp, WriteTimestamp,
};
use std::sync::Arc;
use vstd::prelude::*;

verus! {

/// Which part of the snapshot could not be updated, and why.
pub enum UpdateError<RT: Runtime> {
    TableRegistry(RT::Error),
    SchemaRegistry(RT::Error),
    ComponentRegistry(RT::Error),
    TableSummaries(SummariesError),
    IndexRegistry(RT::Error),
    TextIndexes(RT::Error),
    VectorIndexes(RT::Error),
}

/// What is said of an error besides its cause.
pub open spec fn error_context<RT: Runtime>(error: UpdateError<RT>) -> Option<&'static str> {
    match error {
        UpdateError::TableRegistry(_) => Some("Table registry update failed"),
        UpdateError::SchemaRegistry(_) => None,
        UpdateError::ComponentRegistry(_) => None,
        UpdateError::TableSummaries(_) => Some("Table summaries update failed"),
        UpdateError::IndexRegistry(_) => Some("Index update failed"),
        UpdateError::TextIndexes(_) => Some("Search index update failed"),
        UpdateError::VectorIndexes(_) => Some("Vector index update failed"),
    }
}

impl<RT: Runtime> UpdateError<RT> {
    /// What to say of the error besides its cause.
    pub fn context(&self) -> (context: Option<&'static str>)
        ensures
            context == error_context(*self),
    {
        match self {
            UpdateError::TableRegistry(_) => Some("Table registry update failed"),
            UpdateError::SchemaRegistry(_) => None,
            UpdateError::ComponentRegistry(_) => None,
            UpdateError::TableSummaries(_) => Some("Table summaries update failed"),
            UpdateError::IndexRegistry(_) => Some("Index update failed"),
            UpdateError::TextIndexes(_) => Some("Search index update failed"),
            UpdateError::VectorIndexes(_) => Some("Vector index update failed"),
        }
    }
}

/// What a finished update tells: the changes to the in-memory indexes, and
/// whether the document is in a vector index.
pub type UpdateOutcome<RT> = (
    Vec<<RT as Runtime>::DatabaseIndexUpdate>,
    <RT as Runtime>::DocInVectorIndex,
);

/// A part of the snapshot that is to be updated, with all that the update is
/// given. `removal` and `insertion` are the document before and after the
/// write.
pub enum UpdateCall<RT: Runtime> {
    TableRegistry {
        table_registry: Arc<TableRegistry>,
        index_registry: Arc<IndexRegistry<RT>>,
        document_id: ResolvedDocumentId,
        removal: Option<ResolvedDocument<RT>>,
        insertion: Option<ResolvedDocument<RT>>,
    },
    SchemaRegistry {
        schema_registry: Arc<RT::SchemaRegistry>,
        table_mapping: Arc<TableMapping>,
        document_id: ResolvedDocumentId,
        removal: Option<ResolvedDocument<RT>>,
        insertion: Option<ResolvedDocument<RT>>,
    },
    ComponentRegistry {
        component_registry: Arc<RT::ComponentRegistry>,
        table_mapping: Arc<TableMapping>,
        document_id: ResolvedDocumentId,
        removal: Option<ResolvedDocument<RT>>,
        insertion: Option<ResolvedDocument<RT>>,
    },
    IndexRegistry {
        index_registry: Arc<IndexRegistry<RT>>,
        removal: Option<ResolvedDocument<RT>>,
        insertion: Option<ResolvedDocument<RT>>,
    },
    InMemoryIndexes {
        in_memory_indexes: Arc<RT::InMemoryIndexes>,
        index_registry: Arc<IndexRegistry<RT>>,
        commit_ts: Timestamp,
        removal: Option<ResolvedDocument<RT>>,
        insertion: Option<ResolvedDocument<RT>>,
    },
    TextIndexes {
        text_indexes: Arc<RT::TextIndexes>,
        index_registry: Arc<IndexRegistry<RT>>,
        removal: Option<ResolvedDocument<RT>>,
        insertion: Option<ResolvedDocument<RT>>,
        write_ts: WriteTimestamp,
    },
    VectorIndexes {
        vector_indexes: Arc<RT::VectorIndexes>,
        index_registry: Arc<IndexRegistry<RT>>,
        removal: Option<ResolvedDocument<RT>>,
        insertion: Option<ResolvedDocument<RT>>,
        write_ts: WriteTimestamp,
    },
}

/// What came of a call: the part as it is now, whether or not the update
/// failed, and what the update returned.
#[allow(inconsistent_fields)]
pub enum UpdateEvent<RT: Runtime> {
    TableRegistry {
        table_registry: Arc<TableRegistry>,
        result: Result<Option<TableUpdate>, RT::Error>,
    },
    SchemaRegistry { schema_registry: Arc<RT::SchemaRegistry>, result: Result<(), RT::Error> },
    ComponentRegistry {
        component_registry: Arc<RT::ComponentRegistry>,
        result: Result<(), RT::Error>,
    },
    IndexRegistry { index_registry: Arc<IndexRegistry<RT>>, result: Result<(), RT::Error> },
    InMemoryIndexes {
        in_memory_indexes: Arc<RT::InMemoryIndexes>,
        updates: Vec<RT::DatabaseIndexUpdate>,
    },
    TextIndexes { text_indexes: Arc<RT::TextIndexes>, result: Result<(), RT::Error> },
    VectorIndexes {
        vector_indexes: Arc<RT::VectorIndexes>,
        result: Result<RT::DocInVectorIndex, RT::Error>,
    },
}

/// Which call the update waits for, with what later steps need of earlier
/// results.
pub enum UpdateStage<RT: Runtime> {
    TableRegistry,
    SchemaRegistry { table_update: Option<TableUpdate> },
    ComponentRegistry { table_update: Option<TableUpdate> },
    IndexRegistry,
    InMemoryIndexes,
    TextIndexes { updates: Vec<RT::DatabaseIndexUpdate> },
    VectorIndexes { updates: Vec<RT::DatabaseIndexUpdate> },
}

/// An update that waits for a call.
pub struct PendingUpdate<RT: Runtime> {
    pub document_update: DocumentUpdate<RT>,
    pub commit_ts: Timestamp,
    pub stage: UpdateStage<RT>,
}

/// What to do next.
pub enum UpdateStep<RT: Runtime> {
    /// Make the call, then resume the update with what came of it.
    Call(PendingUpdate<RT>, UpdateCall<RT>),
    /// The update is over.
    Finished(Result<UpdateOutcome<RT>, UpdateError<RT>>),
}

impl<RT: Runtime> PendingUpdate<RT> {
    /// The event tells of the call that the update waits for.
    pub open spec fn awaits(self, event: UpdateEvent<RT>) -> bool {
        match (self.stage, event) {
            (UpdateStage::TableRegistry, UpdateEvent::TableRegistry { .. }) => true,
            (UpdateStage::SchemaRegistry { .. }, UpdateEvent::SchemaRegistry { .. }) => true,
            (UpdateStage::ComponentRegistry { .. }, UpdateEvent::ComponentRegistry { .. }) => true,
            (UpdateStage::IndexRegistry, UpdateEvent::IndexRegistry { .. }) => true,
            (UpdateStage::InMemoryIndexes, UpdateEvent::InMemoryIndexes { .. }) => true,
            (UpdateStage::TextIndexes { .. }, UpdateEvent::TextIndexes { .. }) => true,
            (UpdateStage::VectorIndexes { .. }, UpdateEvent::VectorIndexes { .. }) => true,
            _ => false,
        }
    }

    /// The same update at another stage.
    pub open spec fn at(self, stage: UpdateStage<RT>) -> PendingUpdate<RT> {
        PendingUpdate { stage, ..self }
    }

    /// The call that the update makes at its stage on a given snapshot.
    pub open spec fn call(self, snapshot: SnapshotView<RT>) -> UpdateCall<RT> {
        let document_id = self.document_update.id;
        let removal = self.document_update.old_document;
        let insertion = self.document_update.new_document;
        let index_registry = snapshot.index_registry;
        let write_ts = WriteTimestamp::Committed(self.commit_ts);
        match self.stage {
            UpdateStage::TableRegistry => UpdateCall::TableRegistry {
                table_registry: snapshot.table_registry,
                index_registry,
                document_id,
                removal,
                insertion,
            },
            UpdateStage::SchemaRegistry { .. } => UpdateCall::SchemaRegistry {
                schema_registry: snapshot.schema_registry,
                table_mapping: snapshot.table_registry.table_mapping,
                document_id,
                removal,
                insertion,
            },
            UpdateStage::ComponentRegistry { .. } => UpdateCall::ComponentRegistry {
                component_registry: snapshot.component_registry,
                table_mapping: snapshot.table_registry.table_mapping,
                document_id,
                removal,
                insertion,
            },
            UpdateStage::IndexRegistry => UpdateCall::IndexRegistry {
                index_registry,
                removal,
                insertion,
            },
            UpdateStage::InMemoryIndexes => UpdateCall::InMemoryIndexes {
                in_memory_indexes: snapshot.in_memory_indexes,
                index_registry,
                commit_ts: self.commit_ts,
                removal,
                insertion,
            },
            UpdateStage::TextIndexes { .. } => UpdateCall::TextIndexes {
                text_indexes: snapshot.text_indexes,
                index_registry,
                removal,
                insertion,
                write_ts,
            },
            UpdateStage::VectorIndexes { .. } => UpdateCall::VectorIndexes {
                vector_indexes: snapshot.vector_indexes,
                index_registry,
                removal,
                insertion,
                write_ts,
            },
        }
    }
}

/// The update goes on to a stage, on the snapshot as it is by then.
pub open spec fn go_on<RT: Runtime>(
    snapshot: SnapshotView<RT>,
    pending: PendingUpdate<RT>,
    stage: UpdateStage<RT>,
) -> (SnapshotView<RT>, UpdateStep<RT>) {
    (snapshot, UpdateStep::Call(pending.at(stage), pending.at(stage).call(snapshot)))
}

/// The update ends with an error. What has been updated by then stays so.
pub open spec fn fail<RT: Runtime>(
    snapshot: SnapshotView<RT>,
    error: UpdateError<RT>,
) -> (SnapshotView<RT>, UpdateStep<RT>) {
    (snapshot, UpdateStep::Finished(Err(error)))
}

impl<RT: Runtime> SnapshotView<RT> {
    /// The table summaries after the write, or why they refuse it.
    pub open spec fn with_summaries_updated(
        self,
        document_update: DocumentUpdate<RT>,
        table_update: Option<TableUpdate>,
    ) -> Result<SnapshotView<RT>, SummariesError> {
        match self.table_summaries.updated(
            document_update.id.tablet_id,
            document_update.old_size(),
            document_update.new_size(),
            table_update,
            self.mapping(),
        ) {
            Ok(table_summaries) => Ok(SnapshotView { table_summaries, ..self }),
            Err(e) => Err(e),
        }
    }

    /// The table summaries can take in the write, where it comes to that.
    pub open spec fn summaries_accept(
        self,
        pending: PendingUpdate<RT>,
        event: UpdateEvent<RT>,
    ) -> bool {
        match (pending.stage, event) {
            (
                UpdateStage::ComponentRegistry { table_update },
                UpdateEvent::ComponentRegistry { result: Ok(_), .. },
            ) => self.table_summaries.accepts(
                pending.document_update.id.tablet_id,
                pending.document_update.old_size(),
                pending.document_update.new_size(),
                table_update,
                self.mapping(),
            ),
            _ => true,
        }
    }

    /// The snapshot after an event, and what to do next. A part that was
    /// updated replaces the old one. Where its update failed, the whole update
    /// ends. Otherwise the next part follows; the table summaries, which need
    /// no call, are updated between the component and the index registry.
    pub open spec fn resumed(
        self,
        pending: PendingUpdate<RT>,
        event: UpdateEvent<RT>,
    ) -> (SnapshotView<RT>, UpdateStep<RT>) {
        match event {
            UpdateEvent::TableRegistry { table_registry, result } => {
                let next = SnapshotView { table_registry, ..self };
                match result {
                    Ok(table_update) => go_on(
                        next,
                        pending,
                        UpdateStage::SchemaRegistry { table_update },
                    ),
                    Err(e) => fail(next, UpdateError::TableRegistry(e)),
                }
            },
            UpdateEvent::SchemaRegistry { schema_registry, result } => {
                let next = SnapshotView { schema_registry, ..self };
                match result {
                    Ok(_) => go_on(
                        next,
                        pending,
                        UpdateStage::ComponentRegistry {
                            table_update: pending.stage->SchemaRegistry_table_update,
                        },
                    ),
                    Err(e) => fail(next, UpdateError::SchemaRegistry(e)),
                }
            },
            UpdateEvent::ComponentRegistry { component_registry, result } => {
                let next = SnapshotView { component_registry, ..self };
                match result {
                    Ok(_) => match next.with_summaries_updated(
                        pending.document_update,
                        pending.stage->ComponentRegistry_table_update,
                    ) {
                        Ok(summarised) => go_on(summarised, pending, UpdateStage::IndexRegistry),
                        Err(e) => fail(next, UpdateError::TableSummaries(e)),
                    },
                    Err(e) => fail(next, UpdateError::ComponentRegistry(e)),
                }
            },
            UpdateEvent::IndexRegistry { index_registry, result } => {
                let next = SnapshotView { index_registry, ..self };
                match result {
                    Ok(_) => go_on(next, pending, UpdateStage::InMemoryIndexes),
                    Err(e) => fail(next, UpdateError::IndexRegistry(e)),
                }
            },
            UpdateEvent::InMemoryIndexes { in_memory_indexes, updates } => go_on(
                SnapshotView { in_memory_indexes, ..self },
                pending,
                UpdateStage::TextIndexes { updates },
            ),
            UpdateEvent::TextIndexes { text_indexes, result } => {
                let next = SnapshotView { text_indexes, ..self };
                match result {
                    Ok(_) => go_on(
                        next,
                        pending,
                        UpdateStage::VectorIndexes {
                            updates: pending.stage->TextIndexes_updates,
                        },
                    ),
                    Err(e) => fail(next, UpdateError::TextIndexes(e)),
                }
            },
            UpdateEvent::VectorIndexes { vector_indexes, result } => {
                let next = SnapshotView { vector_indexes, ..self };
                match result {
                    Ok(doc_in_vector_index) => (
                        next,
                        UpdateStep::Finished(
                            Ok((pending.stage->VectorIndexes_updates, doc_in_vector_index)),
                        ),
                    ),
                    Err(e) => fail(next, UpdateError::VectorIndexes(e)),
                }
            },
        }
    }
}

impl<RT: Runtime> Snapshot<RT> {
    /// The call that an update makes at its stage.
    fn next_call(&self, pending: &PendingUpdate<RT>) -> (call: UpdateCall<RT>)
        ensures
            call == pending.call(self@),
            match call {
                UpdateCall::TableRegistry { document_id, removal, insertion, .. } => {
                    &&& document_id == pending.document_update.id
                    &&& removal == pending.document_update.old_document
                    &&& insertion == pending.document_update.new_document
                },
                UpdateCall::SchemaRegistry { document_id, removal, insertion, .. } => {
                    &&& document_id == pending.document_update.id
                    &&& removal == pending.document_update.old_document
                    &&& insertion == pending.document_update.new_document
                },
                UpdateCall::ComponentRegistry { document_id, removal, insertion, .. } => {
                    &&& document_id == pending.document_update.id
                    &&& removal == pending.document_update.old_document
                    &&& insertion == pending.document_update.new_document
                },
                UpdateCall::IndexRegistry { removal, insertion, .. } => {
                    &&& removal == pending.document_update.old_document
                    &&& insertion == pending.document_update.new_document
                },
                UpdateCall::InMemoryIndexes { removal, insertion, .. } => {
                    &&& removal == pending.document_update.old_document
                    &&& insertion == pending.document_update.new_document
                },
                UpdateCall::TextIndexes { removal, insertion, .. } => {
                    &&& removal == pending.document_update.old_document
                    &&& insertion == pending.document_update.new_document
                },
                UpdateCall::VectorIndexes { removal, insertion, .. } => {
                    &&& removal == pending.document_update.old_document
                    &&& insertion == pending.document_update.new_document
                },
            },
    {
        let document_id: ResolvedDocumentId = pending.document_update.id;
        let removal: Option<ResolvedDocument<RT>> = clone_document(
            &pending.document_update.old_document,
        );
        let insertion: Option<ResolvedDocument<RT>> = clone_document(
            &pending.document_update.new_document,
        );
        let index_registry: Arc<IndexRegistry<RT>> = self.index_registry.clone();
        let write_ts: WriteTimestamp = WriteTimestamp::Committed(pending.commit_ts);
        match &pending.stage {
            UpdateStage::TableRegistry => UpdateCall::TableRegistry {
                table_registry: self.table_registry.clone(),
                index_registry,
                document_id,
                removal,
                insertion,
            },
            UpdateStage::SchemaRegistry { .. } => UpdateCall::SchemaRegistry {
                schema_registry: self.schema_registry.clone(),
                table_mapping: self.table_registry.table_mapping.clone(),
                document_id,
                removal,
                insertion,
            },
            UpdateStage::ComponentRegistry { .. } => UpdateCall::ComponentRegistry {
                component_registry: self.component_registry.clone(),
                table_mapping: self.table_registry.table_mapping.clone(),
                document_id,
                removal,
                insertion,
            },
            UpdateStage::IndexRegistry => UpdateCall::IndexRegistry {
                index_registry,
                removal,
                insertion,
            },
            UpdateStage::InMemoryIndexes => UpdateCall::InMemoryIndexes {
                in_memory_indexes: self.in_memory_indexes.clone(),
                index_registry,
                commit_ts: pending.commit_ts,
                removal,
                insertion,
            },
            UpdateStage::TextIndexes { .. } => UpdateCall::TextIndexes {
                text_indexes: self.text_indexes.clone(),
                index_registry,
                removal,
                insertion,
                write_ts,
            },
            UpdateStage::VectorIndexes { .. } => UpdateCall::VectorIndexes {
                vector_indexes: self.vector_indexes.clone(),
                index_registry,
                removal,
                insertion,
                write_ts,
            },
        }
    }

    /// Goes on to a stage of the update.
    fn go_on(
        &self,
        document_update: DocumentUpdate<RT>,
        commit_ts: Timestamp,
        stage: UpdateStage<RT>,
    ) -> (step: UpdateStep<RT>)
        ensures
            ({
                let pending = PendingUpdate { document_update, commit_ts, stage };
                step == UpdateStep::Call(pending, pending.call(self@))
            }),
    {
        let pending: PendingUpdate<RT> = PendingUpdate { document_update, commit_ts, stage };
        let call: UpdateCall<RT> = self.next_call(&pending);
        UpdateStep::Call(pending, call)
    }

    /// Begins to take in the write of a document, committed at `commit_ts`.
    /// The table registry comes first.
    pub fn begin_update(
        &self,
        document_update: DocumentUpdate<RT>,
        commit_ts: Timestamp,
    ) -> (step: UpdateStep<RT>)
        ensures
            ({
                let pending = PendingUpdate {
                    document_update,
                    commit_ts,
                    stage: UpdateStage::TableRegistry,
                };
                step == UpdateStep::Call(pending, pending.call(self@))
            }),
            match step {
                UpdateStep::Call(
                    _,
                    UpdateCall::TableRegistry {
                        table_registry,
                        index_registry,
                        document_id,
                        removal,
                        insertion,
                    },
                ) => {
                    &&& table_registry == self.table_registry
                    &&& index_registry == self.index_registry
                    &&& document_id == document_update.id
                    &&& removal == document_update.old_document
                    &&& insertion == document_update.new_document
                },
                _ => false,
            },
    {
        self.go_on(document_update, commit_ts, UpdateStage::TableRegistry)
    }

    /// Whether [`Snapshot::resume_update`] can be called: the event is the one
    /// that the update waits for, and the table summaries can take in the
    /// write where they come next.
    pub fn can_resume_update(
        &self,
        pending: &PendingUpdate<RT>,
        event: &UpdateEvent<RT>,
    ) -> (possible: bool)
        ensures
            possible == (pending.awaits(*event) && self@.summaries_accept(*pending, *event)),
    {
        match (&pending.stage, event) {
            (UpdateStage::TableRegistry, UpdateEvent::TableRegistry { .. }) => true,
            (UpdateStage::SchemaRegistry { .. }, UpdateEvent::SchemaRegistry { .. }) => true,
            (
                UpdateStage::ComponentRegistry { table_update },
                UpdateEvent::ComponentRegistry { result, .. },
            ) => match result {
                Ok(_) => self.table_summaries.accepts_update(
                    pending.document_update.id,
                    pending.document_update.old_document.as_ref(),
                    pending.document_update.new_document.as_ref(),
                    table_update.as_ref(),
                    &self.table_registry.table_mapping,
                ),
                Err(_) => true,
            },
            (UpdateStage::IndexRegistry, UpdateEvent::IndexRegistry { .. }) => true,
            (UpdateStage::InMemoryIndexes, UpdateEvent::InMemoryIndexes { .. }) => true,
            (UpdateStage::TextIndexes { .. }, UpdateEvent::TextIndexes { .. }) => true,
            (UpdateStage::VectorIndexes { .. }, UpdateEvent::VectorIndexes { .. }) => true,
            _ => false,
        }
    }

    /// Takes up what came of the call that the update waits for, and says what
    /// to do next.
    pub fn resume_update(
        &mut self,
        pending: PendingUpdate<RT>,
        event: UpdateEvent<RT>,
    ) -> (step: UpdateStep<RT>)
        requires
            pending.awaits(event),
            old(self)@.summaries_accept(pending, event),
        ensures
            (final(self)@, step) == old(self)@.resumed(pending, event),
            step matches UpdateStep::Call(_, call) ==> match call {
                UpdateCall::TableRegistry { document_id, removal, insertion, .. } => {
                    &&& document_id == pending.document_update.id
                    &&& removal == pending.document_update.old_document
                    &&& insertion == pending.document_update.new_document
                },
                UpdateCall::SchemaRegistry { document_id, removal, insertion, .. } => {
                    &&& document_id == pending.document_update.id
                    &&& removal == pending.document_update.old_document
                    &&& insertion == pending.document_update.new_document
                },
                UpdateCall::ComponentRegistry { document_id, removal, insertion, .. } => {
                    &&& document_id == pending.document_update.id
                    &&& removal == pending.document_update.old_document
                    &&& insertion == pending.document_update.new_document
                },
                UpdateCall::IndexRegistry { removal, insertion, .. } => {
                    &&& removal == pending.document_update.old_document
                    &&& insertion == pending.document_update.new_document
                },
                UpdateCall::InMemoryIndexes { removal, insertion, .. } => {
                    &&& removal == pending.document_update.old_document
                    &&& insertion == pending.document_update.new_document
                },
                UpdateCall::TextIndexes { removal, insertion, .. } => {
                    &&& removal == pending.document_update.old_document
                    &&& insertion == pending.document_update.new_document
                },
                UpdateCall::VectorIndexes { removal, insertion, .. } => {
                    &&& removal == pending.document_update.old_document
                    &&& insertion == pending.document_update.new_document
                },
            },
    {
        let PendingUpdate { document_update, commit_ts, stage } = pending;
        match event {
            UpdateEvent::TableRegistry { table_registry, result } => {
                self.table_registry = table_registry;
                match result {
                    Ok(table_update) => self.go_on(
                        document_update,
                        commit_ts,
                        UpdateStage::SchemaRegistry { table_update },
                    ),
                    Err(e) => UpdateStep::Finished(Err(UpdateError::TableRegistry(e))),
                }
            },
            UpdateEvent::SchemaRegistry { schema_registry, result } => {
                self.schema_registry = schema_registry;
                let table_update: Option<TableUpdate> = match stage {
                    UpdateStage::SchemaRegistry { table_update } => table_update,
                    _ => None,
                };
                match result {
                    Ok(_) => self.go_on(
                        document_update,
                        commit_ts,
                        UpdateStage::ComponentRegistry { table_update },
                    ),
                    Err(e) => UpdateStep::Finished(Err(UpdateError::SchemaRegistry(e))),
                }
            },
            UpdateEvent::ComponentRegistry { component_registry, result } => {
                self.component_registry = component_registry;
                let table_update: Option<TableUpdate> = match stage {
                    UpdateStage::ComponentRegistry { table_update } => table_update,
                    _ => None,
                };
                match result {
                    Ok(_) => {
                        let summarised: Result<(), SummariesError> = self.table_summaries.update(
                            document_update.id,
                            document_update.old_document.as_ref(),
                            document_update.new_document.as_ref(),
                            table_update.as_ref(),
                            &self.table_registry.table_mapping,
                        );
                        match summarised {
                            Ok(_) => self.go_on(
                                document_update,
                                commit_ts,
                                UpdateStage::IndexRegistry,
                            ),
                            Err(e) => UpdateStep::Finished(Err(UpdateError::TableSummaries(e))),
                        }
                    },
                    Err(e) => UpdateStep::Finished(Err(UpdateError::ComponentRegistry(e))),
                }
            },
            UpdateEvent::IndexRegistry { index_registry, result } => {
                self.index_registry = index_registry;
                match result {
                    Ok(_) => self.go_on(
                        document_update,
                        commit_ts,
                        UpdateStage::InMemoryIndexes,
                    ),
                    Err(e) => UpdateStep::Finished(Err(UpdateError::IndexRegistry(e))),
                }
            },
            UpdateEvent::InMemoryIndexes { in_memory_indexes, updates } => {
                self.in_memory_indexes = in_memory_indexes;
                self.go_on(document_update, commit_ts, UpdateStage::TextIndexes { updates })
            },
            UpdateEvent::TextIndexes { text_indexes, result } => {
                self.text_indexes = text_indexes;
                let updates: Vec<RT::DatabaseIndexUpdate> = match stage {
                    UpdateStage::TextIndexes { updates } => updates,
                    _ => Vec::new(),
                };
                match result {
                    Ok(_) => self.go_on(
                        document_update,
                        commit_ts,
                        UpdateStage::VectorIndexes { updates },
                    ),
                    Err(e) => UpdateStep::Finished(Err(UpdateError::TextIndexes(e))),
                }
            },
            UpdateEvent::VectorIndexes { vector_indexes, result } => {
                self.vector_indexes = vector_indexes;
                let updates: Vec<RT::DatabaseIndexUpdate> = match stage {
                    UpdateStage::VectorIndexes { updates } => updates,
                    _ => Vec::new(),
                };
                match result {
                    Ok(doc_in_vector_index) => UpdateStep::Finished(
                        Ok((updates, doc_in_vector_index)),
                    ),
                    Err(e) => UpdateStep::Finished(Err(UpdateError::VectorIndexes(e))),
                }
            },
        }
    }
}

/// A copy of a document that may be absent.
fn clone_document<RT: Runtime>(document: &Option<ResolvedDocument<RT>>) -> (copy: Option<
    ResolvedDocument<RT>,
>)
    ensures
        copy == *document,
{
    match document {
        Some(d) => Some(d.clone()),
        None => None,
    }
}

} // verus!
