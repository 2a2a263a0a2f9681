//! What an update hands to the parts of a snapshot, and what it makes of their
//! answers.

use crate::snapshot::{Snapshot, SnapshotView};
use crate::snapshot_update;
use crate::snapshot_update::{
    PendingUpdate, UpdateCall, UpdateError, UpdateEvent, UpdateStage, UpdateStep,
};
use crate::types::{Runtime, WriteTimestamp};
use vstd::prelude::*;

verus! {

/// A snapshot is seen with all of its parts.
pub proof fn law_a_snapshot_is_seen_as_it_is<RT: Runtime>(snapshot: Snapshot<RT>)
    ensures
        snapshot@.table_registry == snapshot.table_registry,
        snapshot@.schema_registry == snapshot.schema_registry,
        snapshot@.component_registry == snapshot.component_registry,
        snapshot@.table_summaries == snapshot.table_summaries@,
        snapshot@.index_registry == snapshot.index_registry,
        snapshot@.in_memory_indexes == snapshot.in_memory_indexes,
        snapshot@.text_indexes == snapshot.text_indexes,
        snapshot@.vector_indexes == snapshot.vector_indexes,
        snapshot@.mapping() == snapshot.table_registry.table_mapping@,
{
}

/// Every call that follows an event takes out the document as it was before the
/// write and puts in the document as it is after it, under its identifier and
/// at the timestamp of the commit. It is made on the part, the table mapping
/// and the index registry that the snapshot then holds.
pub proof fn law_every_call_carries_the_write<RT: Runtime>(
    view: SnapshotView<RT>,
    pending: PendingUpdate<RT>,
    event: UpdateEvent<RT>,
)
    ensures
        ({
            let update = pending.document_update;
            let after = view.resumed(pending, event).0;
            match view.resumed(pending, event).1 {
                UpdateStep::Finished(_) => true,
                UpdateStep::Call(next, call) => {
                    &&& next.document_update == update
                    &&& next.commit_ts == pending.commit_ts
                    &&& match call {
                        UpdateCall::TableRegistry { .. } => false,
                        UpdateCall::SchemaRegistry {
                            schema_registry,
                            table_mapping,
                            document_id,
                            removal,
                            insertion,
                        } => {
                            &&& next.stage is SchemaRegistry
                            &&& schema_registry == after.schema_registry
                            &&& table_mapping == after.table_registry.table_mapping
                            &&& document_id == update.id
                            &&& removal == update.old_document
                            &&& insertion == update.new_document
                        },
                        UpdateCall::ComponentRegistry {
                            component_registry,
                            table_mapping,
                            document_id,
                            removal,
                            insertion,
                        } => {
                            &&& next.stage is ComponentRegistry
                            &&& component_registry == after.component_registry
                            &&& table_mapping == after.table_registry.table_mapping
                            &&& document_id == update.id
                            &&& removal == update.old_document
                            &&& insertion == update.new_document
                        },
                        UpdateCall::IndexRegistry { index_registry, removal, insertion } => {
                            &&& next.stage is IndexRegistry
                            &&& index_registry == after.index_registry
                            &&& removal == update.old_document
                            &&& insertion == update.new_document
                        },
                        UpdateCall::InMemoryIndexes {
                            in_memory_indexes,
                            index_registry,
                            commit_ts,
                            removal,
                            insertion,
                        } => {
                            &&& next.stage is InMemoryIndexes
                            &&& in_memory_indexes == after.in_memory_indexes
                            &&& index_registry == after.index_registry
                            &&& commit_ts == pending.commit_ts
                            &&& removal == update.old_document
                            &&& insertion == update.new_document
                        },
                        UpdateCall::TextIndexes {
                            text_indexes,
                            index_registry,
                            removal,
                            insertion,
                            write_ts,
                        } => {
                            &&& next.stage is TextIndexes
                            &&& text_indexes == after.text_indexes
                            &&& index_registry == after.index_registry
                            &&& removal == update.old_document
                            &&& insertion == update.new_document
                            &&& write_ts == WriteTimestamp::Committed(pending.commit_ts)
                        },
                        UpdateCall::VectorIndexes {
                            vector_indexes,
                            index_registry,
                            removal,
                            insertion,
                            write_ts,
                        } => {
                            &&& next.stage is VectorIndexes
                            &&& vector_indexes == after.vector_indexes
                            &&& index_registry == after.index_registry
                            &&& removal == update.old_document
                            &&& insertion == update.new_document
                            &&& write_ts == WriteTimestamp::Committed(pending.commit_ts)
                        },
                    }
                },
            }
        }),
{
}

/// The call with which an update begins is to the table registry. It takes out
/// the document as it was before the write and puts in the document as it is
/// after it.
pub proof fn law_the_first_call_carries_the_write<RT: Runtime>(
    view: SnapshotView<RT>,
    pending: PendingUpdate<RT>,
)
    requires
        pending.stage is TableRegistry,
    ensures
        match pending.call(view) {
            UpdateCall::TableRegistry {
                table_registry,
                index_registry,
                document_id,
                removal,
                insertion,
            } => {
                &&& table_registry == view.table_registry
                &&& index_registry == view.index_registry
                &&& document_id == pending.document_update.id
                &&& removal == pending.document_update.old_document
                &&& insertion == pending.document_update.new_document
            },
            _ => false,
        },
{
}

/// The parts are updated in a fixed order: table registry, schema registry,
/// component registry and table summaries, index registry, in-memory indexes,
/// text indexes, vector indexes. A part that fails ends the update with its
/// error. What the table registry said of the tables, and the in-memory
/// indexes of their changes, is kept until it is needed.
pub proof fn law_the_next_part_follows_a_success<RT: Runtime>(
    view: SnapshotView<RT>,
    pending: PendingUpdate<RT>,
    event: UpdateEvent<RT>,
)
    ensures
        ({
            let step = view.resumed(pending, event).1;
            match event {
                UpdateEvent::TableRegistry { result: Ok(table_update), .. } => {
                    &&& step is Call
                    &&& step->Call_0.stage == (UpdateStage::<RT>::SchemaRegistry { table_update })
                    &&& step->Call_1 is SchemaRegistry
                },
                UpdateEvent::TableRegistry { result: Err(e), .. } => step
                    == UpdateStep::<RT>::Finished(Err(UpdateError::TableRegistry(e))),
                UpdateEvent::SchemaRegistry { result: Ok(_), .. } => {
                    &&& step is Call
                    &&& step->Call_0.stage is ComponentRegistry
                    &&& pending.stage matches UpdateStage::SchemaRegistry { table_update }
                        ==> step->Call_0.stage == (UpdateStage::<RT>::ComponentRegistry {
                        table_update,
                    })
                    &&& step->Call_1 is ComponentRegistry
                },
                UpdateEvent::SchemaRegistry { result: Err(e), .. } => step
                    == UpdateStep::<RT>::Finished(Err(UpdateError::SchemaRegistry(e))),
                UpdateEvent::ComponentRegistry { result: Ok(_), .. } => match step {
                    UpdateStep::Call(next, call) => next.stage is IndexRegistry && call
                        is IndexRegistry,
                    UpdateStep::Finished(result) => result is Err && result->Err_0
                        is TableSummaries,
                },
                UpdateEvent::ComponentRegistry { result: Err(e), .. } => step
                    == UpdateStep::<RT>::Finished(Err(UpdateError::ComponentRegistry(e))),
                UpdateEvent::IndexRegistry { result: Ok(_), .. } => {
                    &&& step is Call
                    &&& step->Call_0.stage is InMemoryIndexes
                    &&& step->Call_1 is InMemoryIndexes
                },
                UpdateEvent::IndexRegistry { result: Err(e), .. } => step
                    == UpdateStep::<RT>::Finished(Err(UpdateError::IndexRegistry(e))),
                UpdateEvent::InMemoryIndexes { updates, .. } => {
                    &&& step is Call
                    &&& step->Call_0.stage == (UpdateStage::<RT>::TextIndexes { updates })
                    &&& step->Call_1 is TextIndexes
                },
                UpdateEvent::TextIndexes { result: Ok(_), .. } => {
                    &&& step is Call
                    &&& step->Call_0.stage is VectorIndexes
                    &&& pending.stage matches UpdateStage::TextIndexes { updates }
                        ==> step->Call_0.stage == (UpdateStage::<RT>::VectorIndexes { updates })
                    &&& step->Call_1 is VectorIndexes
                },
                UpdateEvent::TextIndexes { result: Err(e), .. } => step
                    == UpdateStep::<RT>::Finished(Err(UpdateError::TextIndexes(e))),
                UpdateEvent::VectorIndexes { result: Ok(doc_in_vector_index), .. } => {
                    &&& step is Finished
                    &&& pending.stage matches UpdateStage::VectorIndexes { updates } ==> step
                        == UpdateStep::<RT>::Finished(Ok((updates, doc_in_vector_index)))
                },
                UpdateEvent::VectorIndexes { result: Err(e), .. } => step
                    == UpdateStep::<RT>::Finished(Err(UpdateError::VectorIndexes(e))),
            }
        }),
{
}

/// The part that an event tells of takes the place of the old one, whether its
/// update failed or not, and no other part changes. The table summaries take in
/// the sizes of the documents, under the table mapping that the snapshot holds,
/// once the component registry was updated; where they refuse, they stay, and
/// the update ends with their error.
pub proof fn law_a_part_takes_its_place<RT: Runtime>(
    view: SnapshotView<RT>,
    pending: PendingUpdate<RT>,
    event: UpdateEvent<RT>,
)
    ensures
        ({
            let (after, step) = view.resumed(pending, event);
            match event {
                UpdateEvent::TableRegistry { table_registry, .. } => after == (SnapshotView {
                    table_registry,
                    ..view
                }),
                UpdateEvent::SchemaRegistry { schema_registry, .. } => after == (SnapshotView {
                    schema_registry,
                    ..view
                }),
                UpdateEvent::ComponentRegistry { component_registry, result: Err(_) } => after == (
                SnapshotView { component_registry, ..view }),
                UpdateEvent::ComponentRegistry { component_registry, result: Ok(_) } => {
                    let update = pending.document_update;
                    let taken_in = view.table_summaries.updated(
                        update.id.tablet_id,
                        if update.old_document is Some {
                            Some(update.old_document->0.size)
                        } else {
                            None
                        },
                        if update.new_document is Some {
                            Some(update.new_document->0.size)
                        } else {
                            None
                        },
                        pending.stage->ComponentRegistry_table_update,
                        view.table_registry.table_mapping@,
                    );
                    match taken_in {
                        Ok(table_summaries) => after == (SnapshotView {
                            component_registry,
                            table_summaries,
                            ..view
                        }) && step is Call,
                        Err(e) => after == (SnapshotView { component_registry, ..view }) && step
                            == UpdateStep::<RT>::Finished(Err(UpdateError::TableSummaries(e))),
                    }
                },
                UpdateEvent::IndexRegistry { index_registry, .. } => after == (SnapshotView {
                    index_registry,
                    ..view
                }),
                UpdateEvent::InMemoryIndexes { in_memory_indexes, .. } => after == (SnapshotView {
                    in_memory_indexes,
                    ..view
                }),
                UpdateEvent::TextIndexes { text_indexes, .. } => after == (SnapshotView {
                    text_indexes,
                    ..view
                }),
                UpdateEvent::VectorIndexes { vector_indexes, .. } => after == (SnapshotView {
                    vector_indexes,
                    ..view
                }),
            }
        }),
{
}

/// An update is resumed by what came of the call that it waits for, and by
/// nothing else. Only the table summaries can stand in its way, and only when
/// the component registry was updated.
pub proof fn law_an_update_is_resumed_by_its_answer<RT: Runtime>(
    view: SnapshotView<RT>,
    pending: PendingUpdate<RT>,
    event: UpdateEvent<RT>,
)
    ensures
        pending.awaits(event) <==> {
            ||| pending.stage is TableRegistry && event is TableRegistry
            ||| pending.stage is SchemaRegistry && event is SchemaRegistry
            ||| pending.stage is ComponentRegistry && event is ComponentRegistry
            ||| pending.stage is IndexRegistry && event is IndexRegistry
            ||| pending.stage is InMemoryIndexes && event is InMemoryIndexes
            ||| pending.stage is TextIndexes && event is TextIndexes
            ||| pending.stage is VectorIndexes && event is VectorIndexes
        },
        event !is ComponentRegistry ==> view.summaries_accept(pending, event),
        event is ComponentRegistry && event->ComponentRegistry_result is Err
            ==> view.summaries_accept(pending, event),
        event is ComponentRegistry && event->ComponentRegistry_result is Ok && pending.stage
            is ComponentRegistry ==> view.summaries_accept(pending, event)
            == view.table_summaries.accepts(
            pending.document_update.id.tablet_id,
            if pending.document_update.old_document is Some {
                Some(pending.document_update.old_document->0.size)
            } else {
                None
            },
            if pending.document_update.new_document is Some {
                Some(pending.document_update.new_document->0.size)
            } else {
                None
            },
            pending.stage->ComponentRegistry_table_update,
            view.table_registry.table_mapping@,
        ),
{
}

/// An error says which part failed, but for the registries of schemas and of
/// components, whose errors speak for themselves.
pub proof fn law_an_error_says_which_part_failed<RT: Runtime>(error: UpdateError<RT>)
    ensures
        error is TableRegistry ==> snapshot_update::error_context(error) == Some(
            "Table registry update failed",
        ),
        error is SchemaRegistry || error is ComponentRegistry ==> snapshot_update::error_context(
            error,
        ) is None,
        error is TableSummaries ==> snapshot_update::error_context(error) == Some(
            "Table summaries update failed",
        ),
        error is IndexRegistry ==> snapshot_update::error_context(error) == Some(
            "Index update failed",
        ),
        error is TextIndexes ==> snapshot_update::error_context(error) == Some(
            "Search index update failed",
        ),
        error is VectorIndexes ==> snapshot_update::error_context(error) == Some(
            "Vector index update failed",
        ),
{
}

} // verus!
