//! Runs of a packaging job, and what holds of every run: that no source is
//! removed before the container is written out, that a run which succeeds
//! has removed every source, and that a run which ends on a duplicate name
//! has touched nothing.
//!
//! A run is written down as the sequence of its turns. Every call of
//! `ArchiveJob::step` is a turn that `step_allowed` admits, so what is proved
//! here of all runs holds of whatever a caller does with a job.

use crate::archive_job::consistent;
use crate::archive_job::fresh;
use crate::archive_job::step_allowed;
use crate::archive_job::ActionView;
use crate::archive_job::EventView;
use crate::archive_job::JobPhase;
use crate::archive_job::JobView;
use crate::error::ArchiveError;
use vstd::prelude::*;

verus! {

/// One turn of a run: what the caller reported, the job as it stood after
/// that, and what the job answered.
pub struct Turn {
    pub event: EventView,
    pub after: JobView,
    pub action: ActionView,
}

/// The job as it stood before turn `k` of a run over these paths.
pub open spec fn state_before(paths: Seq<Seq<char>>, turns: Seq<Turn>, k: int) -> JobView {
    if k <= 0 {
        fresh(paths)
    } else {
        turns[k - 1].after
    }
}

/// Whether turn `k` is one that the job may take from where it stood.
pub open spec fn turn_allowed(paths: Seq<Seq<char>>, turns: Seq<Turn>, k: int) -> bool {
    step_allowed(state_before(paths, turns, k), turns[k].event, turns[k].after, turns[k].action)
}

/// Whether the turns are a run of a job over these paths: the first turn
/// starts from the fresh job, and every turn is one that the job may take.
pub open spec fn is_run(paths: Seq<Seq<char>>, turns: Seq<Turn>) -> bool {
    forall|k: int| 0 <= k < turns.len() ==> #[trigger] turn_allowed(paths, turns, k)
}

/// In turn `j` the job asked for source `i` to be removed, and in the next
/// turn the caller reported that it is gone.
pub open spec fn removal_reported(turns: Seq<Turn>, i: int, j: int) -> bool {
    &&& 0 <= j
    &&& j + 1 < turns.len()
    &&& turns[j].action == ActionView::RemoveSource(i)
    &&& turns[j + 1].event == EventView::SourceRemoved(true)
}

/// Before turn `k` was over, source `i` was asked to be removed and
/// reported gone.
pub open spec fn removed_by(turns: Seq<Turn>, i: int, k: int) -> bool {
    exists|j: int| j < k && #[trigger] removal_reported(turns, i, j)
}

/// In turn `j` the caller reported the container written, in answer to the
/// job's handing it out.
pub open spec fn write_reported(turns: Seq<Turn>, j: int) -> bool {
    &&& 0 < j < turns.len()
    &&& turns[j - 1].action is WriteContainer
    &&& turns[j].event == EventView::ContainerWritten(true)
}

/// A step from a consistent job leads to a consistent job over the same
/// paths.
pub proof fn lemma_step_keeps_consistent(v: JobView, e: EventView, w: JobView, a: ActionView)
    requires
        consistent(v),
        step_allowed(v, e, w, a),
    ensures
        consistent(w),
        w.paths == v.paths,
{
    if v.phase == JobPhase::Fresh || v.phase == JobPhase::Reading {
        if w.phase == JobPhase::Reading {
            let name = w.names.last();
            assert(w.names == v.names.push(name));
            assert forall|i: int, j: int| 0 <= i < j < w.names.len() implies w.names[i]
                != w.names[j] by {
                if j == v.names.len() {
                    assert(v.names[i] == w.names[i]);
                    assert(v.names.contains(v.names[i]));
                } else {
                    assert(v.names[i] == w.names[i] && v.names[j] == w.names[j]);
                }
            }
        }
    }
}

/// Every state of a run is consistent and has the run's paths.
pub proof fn lemma_run_is_consistent(paths: Seq<Seq<char>>, turns: Seq<Turn>, k: int)
    requires
        is_run(paths, turns),
        0 <= k <= turns.len(),
    ensures
        consistent(state_before(paths, turns, k)),
        state_before(paths, turns, k).paths == paths,
    decreases k,
{
    if k > 0 {
        lemma_run_is_consistent(paths, turns, k - 1);
        let turn = turns[k - 1];
        assert(turn_allowed(paths, turns, k - 1));
        lemma_step_keeps_consistent(
            state_before(paths, turns, k - 1),
            turn.event,
            turn.after,
            turn.action,
        );
    }
}

/// A job is removing only after the caller reported the container written.
proof fn lemma_removing_follows_writing(paths: Seq<Seq<char>>, turns: Seq<Turn>, k: int)
    requires
        is_run(paths, turns),
        0 <= k < turns.len(),
        turns[k].after.phase == JobPhase::Removing,
    ensures
        exists|j: int| j <= k && #[trigger] write_reported(turns, j),
    decreases k,
{
    let v = state_before(paths, turns, k);
    assert(turn_allowed(paths, turns, k));
    if v.phase == JobPhase::Removing {
        lemma_removing_follows_writing(paths, turns, k - 1);
    } else {
        assert(v.phase == JobPhase::Writing);
        assert(k > 0);
        assert(turn_allowed(paths, turns, k - 1));
        assert(write_reported(turns, k));
    }
}

/// No source is handed out for removal before the container is written
/// out: where a run asks for a source to be removed, the caller has before
/// that reported the container written, in answer to the job's handing the
/// container out.
pub proof fn lemma_removal_follows_writing(paths: Seq<Seq<char>>, turns: Seq<Turn>, k: int)
    requires
        is_run(paths, turns),
        0 <= k < turns.len(),
        turns[k].action is RemoveSource,
    ensures
        exists|j: int| j <= k && #[trigger] write_reported(turns, j),
{
    assert(turn_allowed(paths, turns, k));
    lemma_removing_follows_writing(paths, turns, k);
}

/// A job that is removing has just asked for the next source to be removed.
proof fn lemma_removing_asks(paths: Seq<Seq<char>>, turns: Seq<Turn>, k: int)
    requires
        is_run(paths, turns),
        0 <= k < turns.len(),
        turns[k].after.phase == JobPhase::Removing,
    ensures
        turns[k].action == ActionView::RemoveSource(turns[k].after.removed as int),
{
    assert(turn_allowed(paths, turns, k));
}

/// As long as no removal has failed, every source that a removing job has
/// counted was asked to be removed and reported gone; for a job that has
/// succeeded this holds of every source.
proof fn lemma_removed_so_far(paths: Seq<Seq<char>>, turns: Seq<Turn>, k: int, i: int)
    requires
        is_run(paths, turns),
        0 <= k < turns.len(),
        0 <= i,
        ({
            let w = turns[k].after;
            ||| w.phase == JobPhase::Removing && !w.removal_failed && i < w.removed
            ||| w.phase == JobPhase::Succeeded && i < paths.len()
        }),
    ensures
        removed_by(turns, i, k),
    decreases k,
{
    let v = state_before(paths, turns, k);
    assert(turn_allowed(paths, turns, k));
    lemma_run_is_consistent(paths, turns, k);
    if v.phase == JobPhase::Succeeded {
        lemma_removed_so_far(paths, turns, k - 1, i);
        let j = choose|j: int| j < k - 1 && #[trigger] removal_reported(turns, i, j);
        assert(removal_reported(turns, i, j));
    } else if v.phase == JobPhase::Removing {
        assert(k > 0);
        if i < v.removed {
            lemma_removed_so_far(paths, turns, k - 1, i);
            let j = choose|j: int| j < k - 1 && #[trigger] removal_reported(turns, i, j);
            assert(removal_reported(turns, i, j));
        } else {
            lemma_removing_asks(paths, turns, k - 1);
            assert(removal_reported(turns, i, k - 1));
        }
    }
}

/// After a run that succeeded no source is left: of every source the job
/// asked that it be removed, and the caller reported it gone.
pub proof fn lemma_success_removes_every_source(
    paths: Seq<Seq<char>>,
    turns: Seq<Turn>,
    k: int,
    i: int,
)
    requires
        is_run(paths, turns),
        0 <= k < turns.len(),
        turns[k].action == ActionView::Done(Ok(())),
        0 <= i < paths.len(),
    ensures
        removed_by(turns, i, k),
{
    assert(turn_allowed(paths, turns, k));
    lemma_removed_so_far(paths, turns, k, i);
}

/// Whether a job has handed the container out, or has ended with `Io`.
pub open spec fn past_packing(v: JobView) -> bool {
    v.phase == JobPhase::Writing || v.phase == JobPhase::Removing || v.phase
        == JobPhase::Succeeded || v.phase == JobPhase::Failed(ArchiveError::Io)
}

/// A job that is past packing stays so.
proof fn lemma_stays_past_packing(paths: Seq<Seq<char>>, turns: Seq<Turn>, j: int, k: int)
    requires
        is_run(paths, turns),
        0 <= j <= k < turns.len(),
        past_packing(turns[j].after),
    ensures
        past_packing(turns[k].after),
    decreases k - j,
{
    if j < k {
        lemma_stays_past_packing(paths, turns, j, k - 1);
        assert(turn_allowed(paths, turns, k));
    }
}

/// A run that ends because two sources have the same name has touched
/// nothing: up to there the job has neither handed out a container nor
/// asked for a source to be removed.
pub proof fn lemma_duplicate_touches_nothing(
    paths: Seq<Seq<char>>,
    turns: Seq<Turn>,
    k: int,
    j: int,
)
    requires
        is_run(paths, turns),
        0 <= j <= k < turns.len(),
        turns[k].action == ActionView::Done(Err(ArchiveError::DuplicateEntryName)),
    ensures
        !(turns[j].action is WriteContainer),
        !(turns[j].action is RemoveSource),
{
    assert(turn_allowed(paths, turns, k));
    assert(turn_allowed(paths, turns, j));
    if turns[j].action is WriteContainer || turns[j].action is RemoveSource {
        lemma_stays_past_packing(paths, turns, j, k);
    }
}

} // verus!
