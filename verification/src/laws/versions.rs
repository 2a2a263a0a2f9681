//! Which version a read gives, and which versions are kept.

use crate::laws;
use crate::snapshot::SnapshotView;
use crate::snapshot_manager;
use crate::snapshot_manager::{SnapshotError, SnapshotManagerView, MAX_TRANSACTION_WINDOW};
use crate::types::{Runtime, Timestamp};
use vstd::prelude::*;

verus! {

/// The window is ten seconds of a thousand million nanoseconds.
pub proof fn law_the_window_is_ten_seconds()
    ensures
        MAX_TRANSACTION_WINDOW == 10 * 1_000_000_000,
{
}

/// The earliest version is the first and the latest the last.
pub proof fn law_first_and_last_version<RT: Runtime>(manager: SnapshotManagerView<RT>)
    requires
        manager.versions.len() > 0,
    ensures
        manager.earliest_ts() == manager.versions[0].0,
        (manager.latest_ts(), manager.latest_snapshot()) == manager.versions[manager.versions.len()
            - 1],
{
}

/// A read gives the last version that is not later than its timestamp. Before
/// the first version it is too early, and after the last one too recent.
pub proof fn law_a_read_gives_the_version_in_force<RT: Runtime>(
    manager: SnapshotManagerView<RT>,
    i: int,
    ts: Timestamp,
)
    requires
        manager.versions.len() > 0,
        forall|x: int, y: int|
            0 <= x < y < manager.versions.len() ==> manager.versions[x].0.nanos
                < manager.versions[y].0.nanos,
        0 <= i < manager.versions.len(),
    ensures
        ({
            let versions = manager.versions;
            let last = versions[versions.len() - 1].0;
            &&& versions[i].0.nanos <= ts.nanos <= last.nanos && (i + 1 == versions.len()
                || ts.nanos < versions[i + 1].0.nanos) ==> manager.read(ts) == Ok::<
                SnapshotView<RT>,
                SnapshotError,
            >(versions[i].1)
            &&& ts.nanos < versions[0].0.nanos ==> manager.read(ts) == Err::<
                SnapshotView<RT>,
                SnapshotError,
            >(SnapshotError::TooEarly { ts })
            &&& ts.nanos > last.nanos ==> manager.read(ts) == Err::<
                SnapshotView<RT>,
                SnapshotError,
            >(SnapshotError::TooRecent { ts, latest_ts: last })
            &&& versions[0].0.nanos <= ts.nanos <= last.nanos ==> manager.read(ts) is Ok
        }),
{
    let versions = manager.versions;
    let last = versions[versions.len() - 1].0;
    assert(versions[0].0.nanos <= versions[i].0.nanos);
    assert(versions[0].0.nanos <= last.nanos);
    if versions[i].0.nanos <= ts.nanos <= last.nanos && (i + 1 == versions.len() || ts.nanos
        < versions[i + 1].0.nanos) {
        assert forall|j: int| i < j < versions.len() implies ts.nanos < (
        #[trigger] versions[j]).0.nanos by {
            assert(versions[i + 1].0.nanos <= versions[j].0.nanos);
        }
        snapshot_manager::lemma_as_of(versions, ts, i);
    }
}

/// After a push the new version is the last. Of the others, exactly those are
/// kept that are no further back from it than the window, and the one that was
/// the latest before. Their order stays, and so does what is persisted as
/// repeatable.
pub proof fn law_a_push_keeps_the_versions_in_the_window<RT: Runtime>(
    manager: SnapshotManagerView<RT>,
    ts: Timestamp,
    snapshot: SnapshotView<RT>,
)
    requires
        manager.versions.len() > 0,
        forall|x: int, y: int|
            0 <= x < y < manager.versions.len() ==> manager.versions[x].0.nanos
                < manager.versions[y].0.nanos,
        manager.versions[manager.versions.len() - 1].0.nanos < ts.nanos,
    ensures
        ({
            let before = manager.versions;
            let after = manager.pushed(ts, snapshot).versions;
            &&& manager.pushed(ts, snapshot).persisted_max_repeatable_ts
                == manager.persisted_max_repeatable_ts
            &&& after.len() > 0
            &&& after[after.len() - 1] == (ts, snapshot)
            &&& forall|x: int, y: int|
                0 <= x < y < after.len() ==> after[x].0.nanos < after[y].0.nanos
            &&& forall|i: int|
                #![trigger before[i]]
                0 <= i < before.len() ==> (after.contains(before[i]) <==> i == before.len() - 1
                    || ts.nanos - before[i].0.nanos <= MAX_TRANSACTION_WINDOW)
            &&& forall|j: int| 0 <= j < after.len() - 1 ==> before.contains(#[trigger] after[j])
        }),
{
    let before = manager.versions;
    let after = manager.pushed(ts, snapshot).versions;
    let k = laws::lemma_retained_is_a_suffix(before, ts);
    assert(after =~= before.skip(k).push((ts, snapshot)));
    assert forall|x: int, y: int| 0 <= x < y < after.len() implies after[x].0.nanos
        < after[y].0.nanos by {
        if y < after.len() - 1 {
            assert(before[k + x].0.nanos < before[k + y].0.nanos);
        } else {
            assert(before[k + x].0.nanos <= before[before.len() - 1].0.nanos);
        }
    }
    assert forall|i: int|
        #![trigger before[i]]
        0 <= i < before.len() implies (after.contains(before[i]) <==> i == before.len() - 1
        || ts.nanos - before[i].0.nanos <= MAX_TRANSACTION_WINDOW) by {
        if i >= k {
            assert(after[i - k] == before[i]);
            if k < i {
                assert(before[k].0.nanos < before[i].0.nanos);
            }
        } else {
            assert(!snapshot_manager::in_window(before[i], ts));
            if after.contains(before[i]) {
                let j = choose|j: int| 0 <= j < after.len() && after[j] == before[i];
                assert(before[i].0.nanos < before[before.len() - 1].0.nanos);
                if j < after.len() - 1 {
                    assert(after[j] == before[k + j]);
                    assert(before[i].0.nanos < before[k + j].0.nanos);
                }
            }
        }
    }
    assert forall|j: int| 0 <= j < after.len() - 1 implies before.contains(
        #[trigger] after[j],
    ) by {
        assert(after[j] == before[k + j]);
    }
}

/// After a push, every read from a version in the window up to the new version
/// succeeds. It gives what it gave before, as far as it was possible before,
/// and from then on the version that was the latest, until the new one.
pub proof fn law_a_push_keeps_the_reads_in_the_window<RT: Runtime>(
    manager: SnapshotManagerView<RT>,
    ts: Timestamp,
    snapshot: SnapshotView<RT>,
    i: int,
    t: Timestamp,
)
    requires
        manager.versions.len() > 0,
        forall|x: int, y: int|
            0 <= x < y < manager.versions.len() ==> manager.versions[x].0.nanos
                < manager.versions[y].0.nanos,
        manager.versions[manager.versions.len() - 1].0.nanos < ts.nanos,
        0 <= i < manager.versions.len(),
        ts.nanos - manager.versions[i].0.nanos <= MAX_TRANSACTION_WINDOW,
        manager.versions[i].0.nanos <= t.nanos <= ts.nanos,
    ensures
        ({
            let last = manager.versions[manager.versions.len() - 1];
            let after = manager.pushed(ts, snapshot);
            &&& after.read(t) is Ok
            &&& t.nanos <= last.0.nanos ==> after.read(t) == manager.read(t)
            &&& last.0.nanos <= t.nanos < ts.nanos ==> after.read(t) == Ok::<
                SnapshotView<RT>,
                SnapshotError,
            >(last.1)
            &&& t.nanos == ts.nanos ==> after.read(t) == Ok::<SnapshotView<RT>, SnapshotError>(
                snapshot,
            )
        }),
{
    let before = manager.versions;
    let after = manager.pushed(ts, snapshot);
    let k = laws::lemma_retained_is_a_suffix(before, ts);
    law_a_push_keeps_the_versions_in_the_window(manager, ts, snapshot);
    assert(after.versions =~= before.skip(k).push((ts, snapshot)));
    assert(k <= i);
    if t.nanos == ts.nanos {
        law_a_read_gives_the_version_in_force(after, after.versions.len() - 1, t);
    } else {
        let j = laws::lemma_version_of(before, i, t);
        assert(after.versions[j - k] == before[j]);
        if j + 1 < before.len() {
            assert(after.versions[j + 1 - k] == before[j + 1]);
            assert(before[j + 1].0.nanos <= before[before.len() - 1].0.nanos);
        }
        law_a_read_gives_the_version_in_force(after, j - k, t);
        if t.nanos <= before[before.len() - 1].0.nanos {
            law_a_read_gives_the_version_in_force(manager, j, t);
        }
    }
}

/// A bump to a later timestamp pushes the latest version once more and marks
/// the timestamp as persisted. Any other bump changes nothing.
pub proof fn law_a_bump_repeats_the_latest_version<RT: Runtime>(
    manager: SnapshotManagerView<RT>,
    ts: Timestamp,
)
    requires
        manager.versions.len() > 0,
        forall|x: int, y: int|
            0 <= x < y < manager.versions.len() ==> manager.versions[x].0.nanos
                < manager.versions[y].0.nanos,
    ensures
        ({
            let before = manager.versions;
            let last = before[before.len() - 1];
            let after = manager.bumped(ts);
            if last.0.nanos < ts.nanos {
                &&& after.persisted_max_repeatable_ts == ts
                &&& after.versions.len() > 0
                &&& after.versions[after.versions.len() - 1] == (ts, last.1)
                &&& after.versions == manager.pushed(ts, last.1).versions
            } else {
                after == manager
            }
        }),
{
    if manager.versions[manager.versions.len() - 1].0.nanos < ts.nanos {
        law_a_push_keeps_the_versions_in_the_window(
            manager,
            ts,
            manager.versions[manager.versions.len() - 1].1,
        );
    }
}

/// Overwriting the latest snapshot leaves its timestamp, every other version
/// and what is persisted as repeatable.
pub proof fn law_an_overwrite_replaces_the_latest_snapshot<RT: Runtime>(
    manager: SnapshotManagerView<RT>,
    snapshot: SnapshotView<RT>,
    i: int,
)
    requires
        0 <= i < manager.versions.len(),
    ensures
        ({
            let before = manager.versions;
            let after = manager.with_latest(snapshot);
            &&& after.persisted_max_repeatable_ts == manager.persisted_max_repeatable_ts
            &&& after.versions.len() == before.len()
            &&& after.versions[i].0 == before[i].0
            &&& i < before.len() - 1 ==> after.versions[i].1 == before[i].1
            &&& i == before.len() - 1 ==> after.versions[i].1 == snapshot
        }),
{
}

} // verus!
