//! The recent versions of the database.

use crate::snapshot::{Snapshot, SnapshotView};
use crate::types::{RepeatableReason, RepeatableTimestamp, Runtime, Timestamp};
use std::collections::VecDeque;
use std::sync::Arc;
use vstd::prelude::*;

verus! {

/// How far the versions that are kept reach back from the one that is pushed:
/// ten seconds, in nanoseconds.
pub const MAX_TRANSACTION_WINDOW: u64 = 10_000_000_000;

/// Why there is no snapshot at a timestamp.
#[derive(Clone, Copy, Debug, PartialEq, Eq, Structural)]
pub enum SnapshotError {
    /// The version is no longer kept. A higher timestamp may succeed.
    TooEarly { ts: Timestamp },
    /// There is no such version yet.
    TooRecent { ts: Timestamp, latest_ts: Timestamp },
}

/// Snapshots, each at the timestamp from which it holds.
pub type Versions<RT> = Seq<(Timestamp, SnapshotView<RT>)>;

/// The timestamps of the versions ascend.
pub open spec fn timestamps_ascend<RT: Runtime>(versions: Versions<RT>) -> bool {
    forall|i: int, j: int|
        0 <= i < j < versions.len() ==> versions[i].0.nanos < versions[j].0.nanos
}

/// The snapshot as of a timestamp: that of the last version which is not
/// later.
pub open spec fn as_of<RT: Runtime>(versions: Versions<RT>, ts: Timestamp) -> SnapshotView<RT>
    recommends
        versions.len() > 0,
        versions[0].0.nanos <= ts.nanos,
    decreases versions.len(),
{
    if versions.len() <= 1 || versions.last().0.nanos <= ts.nanos {
        versions.last().1
    } else {
        as_of(versions.drop_last(), ts)
    }
}

/// Whether a version is no further back from `ts` than the window reaches.
pub open spec fn in_window<RT: Runtime>(
    version: (Timestamp, SnapshotView<RT>),
    ts: Timestamp,
) -> bool {
    ts.nanos - version.0.nanos <= MAX_TRANSACTION_WINDOW
}

/// The versions that are kept when one is pushed at `ts`: those in the window,
/// or the last one where none is.
pub open spec fn retained<RT: Runtime>(versions: Versions<RT>, ts: Timestamp) -> Versions<RT> {
    let recent = versions.filter(|v: (Timestamp, SnapshotView<RT>)| in_window(v, ts));
    if recent.len() == 0 {
        seq![versions.last()]
    } else {
        recent
    }
}

/// What a [`SnapshotManager`] holds.
#[verifier::ext_equal]
pub struct SnapshotManagerView<RT: Runtime> {
    pub persisted_max_repeatable_ts: Timestamp,
    pub versions: Versions<RT>,
}

impl<RT: Runtime> SnapshotManagerView<RT> {
    pub open spec fn earliest_ts(self) -> Timestamp {
        self.versions[0].0
    }

    pub open spec fn latest_ts(self) -> Timestamp {
        self.versions.last().0
    }

    pub open spec fn latest_snapshot(self) -> SnapshotView<RT> {
        self.versions.last().1
    }

    /// There is a version; the timestamps ascend; what is persisted as
    /// repeatable is not later than the latest version; and the versions reach
    /// back no further than the window, unless there are only two.
    pub open spec fn wf(self) -> bool {
        &&& self.versions.len() > 0
        &&& timestamps_ascend(self.versions)
        &&& self.persisted_max_repeatable_ts.nanos <= self.latest_ts().nanos
        &&& self.versions.len() > 2 ==> self.latest_ts().nanos - self.earliest_ts().nanos
            <= MAX_TRANSACTION_WINDOW
    }

    /// What a read at `ts` gives.
    pub open spec fn read(self, ts: Timestamp) -> Result<SnapshotView<RT>, SnapshotError> {
        if ts.nanos < self.earliest_ts().nanos {
            Err(SnapshotError::TooEarly { ts })
        } else if ts.nanos > self.latest_ts().nanos {
            Err(SnapshotError::TooRecent { ts, latest_ts: self.latest_ts() })
        } else {
            Ok(as_of(self.versions, ts))
        }
    }

    /// With one more version, and without those that have left the window.
    pub open spec fn pushed(self, ts: Timestamp, snapshot: SnapshotView<RT>) -> Self {
        SnapshotManagerView {
            versions: retained(self.versions, ts).push((ts, snapshot)),
            ..self
        }
    }

    /// With the latest version once more at `ts`, which is persisted as
    /// repeatable. Nothing happens unless `ts` is later than the latest
    /// version.
    pub open spec fn bumped(self, ts: Timestamp) -> Self {
        if ts.nanos > self.latest_ts().nanos {
            SnapshotManagerView {
                persisted_max_repeatable_ts: ts,
                ..self.pushed(ts, self.latest_snapshot())
            }
        } else {
            self
        }
    }

    /// With another snapshot in place of the latest.
    pub open spec fn with_latest(self, snapshot: SnapshotView<RT>) -> Self {
        SnapshotManagerView {
            versions: self.versions.update(
                self.versions.len() - 1,
                (self.latest_ts(), snapshot),
            ),
            ..self
        }
    }
}

/// Keeps the versions of the database that a transaction may still begin at:
/// the latest one, and those before it in the order of their timestamps.
pub struct SnapshotManager<RT: Runtime> {
    persisted_max_repeatable_ts: Timestamp,
    earlier: VecDeque<(Timestamp, Snapshot<RT>)>,
    latest: (Timestamp, Snapshot<RT>),
}

/// A list of snapshots by view.
spec fn versions_view<RT: Runtime>(versions: Seq<(Timestamp, Snapshot<RT>)>) -> Versions<RT> {
    versions.map_values(|v: (Timestamp, Snapshot<RT>)| (v.0, v.1@))
}

impl<RT: Runtime> View for SnapshotManager<RT> {
    type V = SnapshotManagerView<RT>;

    closed spec fn view(&self) -> SnapshotManagerView<RT> {
        SnapshotManagerView {
            persisted_max_repeatable_ts: self.persisted_max_repeatable_ts,
            versions: versions_view(self.earlier@).push((self.latest.0, self.latest.1@)),
        }
    }
}

impl<RT: Runtime> SnapshotManager<RT> {
    /// Every manager is well formed.
    #[verifier::type_invariant]
    pub open spec fn inv(self) -> bool {
        self@.wf()
    }

    /// A manager with one version.
    pub fn new(initial_ts: Timestamp, initial_snapshot: Snapshot<RT>) -> (manager: Self)
        ensures
            manager@.wf(),
            manager@.versions == seq![(initial_ts, initial_snapshot@)],
            manager@.persisted_max_repeatable_ts == initial_ts,
    {
        let manager = SnapshotManager {
            earlier: VecDeque::new(),
            latest: (initial_ts, initial_snapshot),
            persisted_max_repeatable_ts: initial_ts,
        };
        assert(manager@.versions =~= seq![(initial_ts, initial_snapshot@)]);
        manager
    }

    /// The latest version with its timestamp.
    pub fn latest(&self) -> (latest: (RepeatableTimestamp, Snapshot<RT>))
        ensures
            latest.0.ts == self@.latest_ts(),
            latest.0.reason == RepeatableReason::SnapshotManagerLatest,
            latest.1@ == self@.latest_snapshot(),
            (latest.0.ts, latest.1@) == self@.versions.last(),
    {
        let (ts, snapshot) = &self.latest;
        (
            RepeatableTimestamp::new_validated(*ts, RepeatableReason::SnapshotManagerLatest),
            snapshot.clone(),
        )
    }

    /// The latest version.
    pub fn latest_snapshot(&self) -> (snapshot: Snapshot<RT>)
        ensures
            snapshot@ == self@.latest_snapshot(),
            snapshot@ == self@.versions.last().1,
    {
        let (_, snapshot) = self.latest();
        snapshot
    }

    fn earliest_ts(&self) -> (ts: Timestamp)
        ensures
            ts == self@.earliest_ts(),
    {
        if self.earlier.len() > 0 {
            self.earlier[0].0
        } else {
            self.latest.0
        }
    }

    /// The timestamp of the latest version. It has been committed to
    /// persistence and no earlier timestamp will be used for a later commit,
    /// so it is safe to read from this snapshot.
    pub fn latest_ts(&self) -> (latest_ts: RepeatableTimestamp)
        ensures
            latest_ts.ts == self@.latest_ts(),
            latest_ts.ts == self@.versions.last().0,
            latest_ts.reason == RepeatableReason::SnapshotManagerLatest,
    {
        RepeatableTimestamp::new_validated(self.latest.0, RepeatableReason::SnapshotManagerLatest)
    }

    /// The highest timestamp that has been written to persistence as
    /// repeatable, so that every process knows that it is safe to read from.
    /// Other processes may not know this yet of [`SnapshotManager::latest_ts`],
    /// which is never lower.
    pub fn persisted_max_repeatable_ts(&self) -> (ts: RepeatableTimestamp)
        ensures
            ts.ts == self@.persisted_max_repeatable_ts,
            ts.reason == RepeatableReason::InductiveRepeatableTimestamp,
            ts.ts.nanos <= self@.latest_ts().nanos,
    {
        proof {
            use_type_invariant(self);
        }
        let latest_ts: RepeatableTimestamp = self.latest_ts();
        match latest_ts.prior_ts(self.persisted_max_repeatable_ts) {
            Some(ts) => ts,
            None => {
                assert(false);
                latest_ts
            },
        }
    }

    /// The snapshot as of a timestamp, which must lie between the earliest and
    /// the latest version.
    pub fn snapshot(&self, ts: Timestamp) -> (result: Result<Snapshot<RT>, SnapshotError>)
        ensures
            match self@.read(ts) {
                Ok(view) => result matches Ok(snapshot) && snapshot@ == view,
                Err(e) => result == Err::<Snapshot<RT>, SnapshotError>(e),
            },
            result is Ok <==> self@.versions[0].0.nanos <= ts.nanos
                <= self@.versions.last().0.nanos,
            forall|i: int|
                0 <= i < self@.versions.len() && result is Ok && (
                #[trigger] self@.versions[i]).0.nanos <= ts.nanos && (i + 1 < self@.versions.len()
                    ==> ts.nanos < self@.versions[i + 1].0.nanos) ==> result->Ok_0@
                    == self@.versions[i].1,
    {
        proof {
            use_type_invariant(self);
        }
        if ts.nanos < self.earliest_ts().nanos {
            return Err(SnapshotError::TooEarly { ts });
        }
        let latest_ts: Timestamp = self.latest_ts().ts;
        if ts.nanos > latest_ts.nanos {
            return Err(SnapshotError::TooRecent { ts, latest_ts });
        }
        let ghost versions = self@.versions;
        if ts.nanos == latest_ts.nanos {
            proof {
                lemma_as_of(versions, ts, versions.len() - 1);
            }
            return Ok(self.latest.1.clone());
        }
        // The version at `low` is not later than `ts`; those from `high` on are.
        let mut low: usize = 0;
        let mut high: usize = self.earlier.len();
        proof {
            assert(versions[high as int].0 == latest_ts);
        }
        while high - low > 1
            invariant
                0 <= low < high <= self.earlier@.len(),
                versions == self@.versions,
                timestamps_ascend(versions),
                versions[low as int].0.nanos <= ts.nanos,
                versions[high as int].0.nanos > ts.nanos,
            decreases high - low,
        {
            let middle: usize = low + (high - low) / 2;
            assert(versions[middle as int].0 == self.earlier@[middle as int].0);
            if self.earlier[middle].0.nanos <= ts.nanos {
                low = middle;
            } else {
                high = middle;
            }
        }
        proof {
            assert forall|j: int| low < j < versions.len() implies ts.nanos < (
            #[trigger] versions[j]).0.nanos by {
                assert(versions[high as int].0.nanos > ts.nanos);
            }
            lemma_as_of(versions, ts, low as int);
        }
        let (_, snapshot) = &self.earlier[low];
        Ok(snapshot.clone())
    }

    /// Replaces the text and vector indexes of the latest version, whose
    /// timestamp stays.
    ///
    /// These indexes are loaded while the database is already running. Loading
    /// them changes no data, so it makes no new version: a transaction that
    /// needs them may fail at first and succeed later at the same timestamp,
    /// and has to treat the failure as one that passes.
    pub fn overwrite_last_snapshot_text_and_vector_indexes(
        &mut self,
        text_indexes: Arc<RT::TextIndexes>,
        vector_indexes: Arc<RT::VectorIndexes>,
    )
        ensures
            final(self)@.wf(),
            final(self)@ == old(self)@.with_latest(
                SnapshotView { text_indexes, vector_indexes, ..old(self)@.latest_snapshot() },
            ),
    {
        proof {
            use_type_invariant(&*self);
            lemma_earlier(*self);
        }
        self.latest.1.text_indexes = text_indexes;
        self.latest.1.vector_indexes = vector_indexes;
        assert(self@.versions =~= old(self)@.with_latest(
            SnapshotView { text_indexes, vector_indexes, ..old(self)@.latest_snapshot() },
        ).versions);
    }

    /// Replaces the in-memory indexes of the latest version, whose timestamp
    /// stays.
    ///
    /// They are loaded while the database is already running. A transaction
    /// reads from the database where they are missing, so they have no effect
    /// but on speed.
    pub fn overwrite_last_snapshot_in_memory_indexes(
        &mut self,
        in_memory_indexes: Arc<RT::InMemoryIndexes>,
    )
        ensures
            final(self)@.wf(),
            final(self)@ == old(self)@.with_latest(
                SnapshotView { in_memory_indexes, ..old(self)@.latest_snapshot() },
            ),
    {
        proof {
            use_type_invariant(&*self);
            lemma_earlier(*self);
        }
        self.latest.1.in_memory_indexes = in_memory_indexes;
        assert(self@.versions =~= old(self)@.with_latest(
            SnapshotView { in_memory_indexes, ..old(self)@.latest_snapshot() },
        ).versions);
    }

    /// Adds a version, which must be later than all others, and lets go of
    /// those that have left the window. At least one of them stays.
    pub fn push(&mut self, ts: Timestamp, snapshot: Snapshot<RT>)
        requires
            old(self)@.latest_ts().nanos < ts.nanos,
        ensures
            final(self)@.wf(),
            final(self)@ == old(self)@.pushed(ts, snapshot@),
    {
        proof {
            use_type_invariant(&*self);
        }
        let ghost before = self@.versions;
        let mut earlier: VecDeque<(Timestamp, Snapshot<RT>)> = VecDeque::new();
        let mut version: (Timestamp, Snapshot<RT>) = (ts, snapshot);
        std::mem::swap(&mut earlier, &mut self.earlier);
        std::mem::swap(&mut version, &mut self.latest);
        earlier.push_back(version);
        let ghost mut dropped: int = 0;
        proof {
            assert(versions_view(earlier@) =~= before);
            assert(before.skip(0) =~= before);
            assert(versions_view(earlier@)[0] == before[0]);
            assert(before[0].0.nanos <= before[before.len() - 1].0.nanos);
        }
        while earlier.len() > 1 && ts.nanos - earlier[0].0.nanos > MAX_TRANSACTION_WINDOW
            invariant
                timestamps_ascend(before),
                before.last().0.nanos < ts.nanos,
                0 <= dropped < before.len(),
                versions_view(earlier@) == before.skip(dropped),
                earlier@.len() > 0,
                earlier@[0].0.nanos < ts.nanos,
                earlier@[0].0 == before[dropped].0,
                forall|i: int| 0 <= i < dropped ==> !in_window(#[trigger] before[i], ts),
            decreases earlier@.len(),
        {
            let ghost kept = earlier@;
            earlier.pop_front();
            proof {
                assert(versions_view(kept.subrange(1, kept.len() as int)) =~= versions_view(
                    kept,
                ).skip(1));
                assert(before.skip(dropped).skip(1) =~= before.skip(dropped + 1));
                dropped = dropped + 1;
                assert(versions_view(earlier@)[0] == before[dropped]);
                assert(before[dropped].0.nanos <= before[before.len() - 1].0.nanos);
            }
        }
        proof {
            lemma_retained(before, ts, dropped);
        }
        self.earlier = earlier;
        assert(self@.versions =~= before.skip(dropped).push((ts, snapshot@)));
    }

    /// Marks `ts` as persisted and repeatable, by a version at `ts` that is
    /// the same as the latest. Does nothing, and says so, unless `ts` is later
    /// than the latest version.
    pub fn bump_persisted_max_repeatable_ts(&mut self, ts: Timestamp) -> (bumped: bool)
        ensures
            final(self)@.wf(),
            bumped == (ts.nanos > old(self)@.latest_ts().nanos),
            bumped == (ts.nanos > old(self)@.versions.last().0.nanos),
            final(self)@.persisted_max_repeatable_ts == (if bumped {
                ts
            } else {
                old(self)@.persisted_max_repeatable_ts
            }),
            final(self)@ == old(self)@.bumped(ts),
    {
        proof {
            use_type_invariant(&*self);
        }
        let (latest_ts, snapshot) = self.latest();
        if ts.nanos > latest_ts.ts.nanos {
            self.push(ts, snapshot);
            self.persisted_max_repeatable_ts = ts;
            true
        } else {
            false
        }
    }
}

/// The versions before the latest ascend too, and are all earlier than it.
proof fn lemma_earlier<RT: Runtime>(manager: SnapshotManager<RT>)
    requires
        manager.inv(),
    ensures
        timestamps_ascend(versions_view(manager.earlier@)),
        forall|i: int|
            0 <= i < manager.earlier@.len() ==> (#[trigger] versions_view(
                manager.earlier@,
            )[i]).0.nanos < manager.latest.0.nanos,
{
    let earlier = versions_view(manager.earlier@);
    let versions = manager@.versions;
    assert forall|i: int, j: int| 0 <= i < j < earlier.len() implies earlier[i].0.nanos
        < earlier[j].0.nanos by {
        assert(versions[i].0.nanos < versions[j].0.nanos);
    }
    assert forall|i: int| 0 <= i < earlier.len() implies (#[trigger] earlier[i]).0.nanos
        < manager.latest.0.nanos by {
        assert(versions[i].0.nanos < versions[versions.len() - 1].0.nanos);
    }
}

/// The snapshot as of `ts` is that of the version after which all are later.
pub proof fn lemma_as_of<RT: Runtime>(versions: Versions<RT>, ts: Timestamp, i: int)
    requires
        0 <= i < versions.len(),
        versions[i].0.nanos <= ts.nanos,
        forall|j: int| i < j < versions.len() ==> ts.nanos < (#[trigger] versions[j]).0.nanos,
    ensures
        as_of(versions, ts) == versions[i].1,
    decreases versions.len(),
{
    if i < versions.len() - 1 {
        assert(ts.nanos < versions[versions.len() - 1].0.nanos);
        lemma_as_of(versions.drop_last(), ts, i);
    }
}

/// Where the elements that pass a test are those from `k` on, they are what a
/// filter leaves.
proof fn lemma_filter_suffix<A>(s: Seq<A>, pass: spec_fn(A) -> bool, k: int)
    requires
        0 <= k <= s.len(),
        forall|i: int| 0 <= i < k ==> !pass(#[trigger] s[i]),
        forall|i: int| k <= i < s.len() ==> pass(#[trigger] s[i]),
    ensures
        s.filter(pass) == s.skip(k),
    decreases s.len(),
{
    reveal(Seq::filter);
    if s.len() == 0 {
        assert(s.skip(k) =~= s);
    } else if k == s.len() {
        lemma_filter_suffix(s.drop_last(), pass, k - 1);
        assert(!pass(s[s.len() - 1]));
        assert(s.skip(k) =~= s.drop_last().skip(k - 1));
    } else {
        lemma_filter_suffix(s.drop_last(), pass, k);
        assert(pass(s[s.len() - 1]));
        assert(s.skip(k) =~= s.drop_last().skip(k).push(s.last()));
    }
}

/// Dropping versions from the front, until one is in the window or only one is
/// left, leaves the versions that are kept.
pub proof fn lemma_retained<RT: Runtime>(versions: Versions<RT>, ts: Timestamp, dropped: int)
    requires
        timestamps_ascend(versions),
        0 <= dropped < versions.len(),
        forall|i: int| 0 <= i < dropped ==> !in_window(#[trigger] versions[i], ts),
        dropped == versions.len() - 1 || in_window(versions[dropped], ts),
    ensures
        retained(versions, ts) == versions.skip(dropped),
{
    let recent = |v: (Timestamp, SnapshotView<RT>)| in_window(v, ts);
    if in_window(versions[dropped], ts) {
        lemma_filter_suffix(versions, recent, dropped);
    } else {
        lemma_filter_suffix(versions, recent, versions.len() as int);
        assert(versions.skip(dropped) =~= seq![versions.last()]);
    }
}

} // verus!
