//! What comes of a copy that is made again.
#![allow(unused_imports)]

use vstd::prelude::*;

use crate::exchange::{ActionModel, ReplyModel};
use crate::notes::note_of;
use crate::paths::parent;
use crate::plan::TaskModel;
use crate::request::{ConflictMode, TransferMethod};
use crate::steps::{first_step, Leg, Outcome, Plan, Route, Step};
use crate::transfer::{
    action_of, after, enter_step, is_taken, learned, recorded, settle, StageModel,
    TransferModel,
};

verus! {

// ---------------------------------------------------------------------------
// A machine that does what it is asked to
// ---------------------------------------------------------------------------

/// The files on this machine and what they hold.
pub type Files = Map<Seq<u8>, Seq<u8>>;

/// What is on the machine once it has done what it was asked to, and what it
/// replies.
pub open spec fn answered(files: Files, a: ActionModel) -> (Files, ReplyModel) {
    match a {
        ActionModel::Exists(p) => (files, ReplyModel::Told(files.contains_key(p))),
        ActionModel::SameContents(p, q) => (files, ReplyModel::Told(files[p] == files[q])),
        ActionModel::CopyFile(p, q) => (files.insert(q, files[p]), ReplyModel::Did),
        ActionModel::Poll => (files, ReplyModel::Told(false)),
        _ => (files, ReplyModel::Did),
    }
}

/// Where a transfer and the machine stand after the action that the transfer
/// asks for.
#[verifier::opaque]
pub open spec fn acted(m: TransferModel, files: Files) -> (TransferModel, Files) {
    let (next, reply) = answered(files, action_of(m));
    (after(m, reply)->0, next)
}

/// Where a transfer and the machine stand after a number of actions.
pub open spec fn worked(m: TransferModel, files: Files, n: nat) -> (TransferModel, Files)
    decreases n,
{
    if n == 0 {
        (m, files)
    } else {
        let (x, there) = worked(m, files, (n - 1) as nat);
        acted(x, there)
    }
}

/// Whether a transfer copies on this machine without `rsync`, over what is
/// there.
pub open spec fn overwrites_here(m: TransferModel) -> bool {
    let job = m.setting.job;
    &&& job.route == Route::Local
    &&& job.method == TransferMethod::Standard
    &&& job.conflict == ConflictMode::Overwrite
    &&& !job.moving
}

/// Whether every file that is set out with is on the machine, and goes to none
/// of the places where another of them is or goes.
pub open spec fn keep_apart(tasks: Seq<TaskModel>, files: Files) -> bool {
    &&& forall|i: int|
        0 <= i < tasks.len() && (#[trigger] tasks[i]).plan == Plan::Go ==> files.contains_key(
            tasks[i].source.here(),
        )
    &&& forall|i: int, j: int|
        0 <= i < tasks.len() && 0 <= j < tasks.len() && (#[trigger] tasks[i]).plan == Plan::Go && (
        #[trigger] tasks[j]).plan == Plan::Go && i != j ==> tasks[i].target.here()
            != tasks[j].source.here() && tasks[i].target.here() != tasks[j].target.here()
}

/// Whether every file before `n` that was set out with has its target.
pub open spec fn arrived(tasks: Seq<TaskModel>, files: Files, n: nat) -> bool {
    forall|i: int|
        0 <= i < n && i < tasks.len() && (#[trigger] tasks[i]).plan == Plan::Go
            ==> files.contains_key(tasks[i].target.here()) && files[tasks[i].target.here()]
            == files[tasks[i].source.here()]
}

proof fn working_goes_on(m: TransferModel, files: Files, a: nat, b: nat)
    ensures
        worked(m, files, a + b) == worked(worked(m, files, a).0, worked(m, files, a).1, b),
    decreases b,
{
    if b > 0 {
        working_goes_on(m, files, a, (b - 1) as nat);
        assert((a + b - 1) as nat == a + (b - 1) as nat);
    }
}

/// How a file ends for which nothing is done.
pub open spec fn idle_outcome(plan: Plan) -> Outcome {
    match plan {
        Plan::OutsideSource => Outcome::OutsideSource,
        Plan::NoName => Outcome::NoName,
        _ => Outcome::Identical,
    }
}

/// The transfer behind the file that it is at, once that has ended.
pub open spec fn behind(m: TransferModel, outcome: Outcome) -> TransferModel {
    settle(TransferModel { at: m.at + 1, tally: recorded(m, outcome), ..m })
}

/// Whether this is where the transfer stands behind its file; what is known of
/// that file alone is left aside.
pub open spec fn stands_behind(x: TransferModel, m: TransferModel, outcome: Outcome) -> bool {
    x == (TransferModel { goal: x.goal, detail: x.detail, digest: x.digest, ..behind(m, outcome) })
}

// ---------------------------------------------------------------------------
// One file
// ---------------------------------------------------------------------------

proof fn an_end_is_reported(m: TransferModel, begun: TransferModel, files: Files, outcome: Outcome)
    requires
        begun.at < begun.tasks.len(),
        m == (TransferModel { goal: m.goal, detail: Seq::empty(), digest: m.digest, stage: m.stage,
            ..begun
        }),
        outcome == Outcome::Copied || outcome == Outcome::Identical || outcome
            == Outcome::OutsideSource || outcome == Outcome::NoName,
    ensures
        ({
            let ended = enter_step(m, Step::End(outcome));
            let n: nat = if ended.stage is Report {
                1
            } else {
                0
            };
            let (x, there) = worked(ended, files, n);
            let bare = TransferModel { detail: Seq::empty(), ..begun };
            there == files && stands_behind(x, bare, outcome)
        }),
{
    reveal(acted);
    reveal_with_fuel(worked, 2);
}

/// How a copy deals with the file that it is at, on a machine that does what
/// it is asked to: in so many actions.
proof fn a_file_is_dealt_with(m: TransferModel, files: Files) -> (n: nat)
    requires
        m.wf(),
        overwrites_here(m),
        m.stage is Poll,
        m.task().plan == Plan::Go ==> files.contains_key(m.task().source.here()),
    ensures
        ({
            let s = m.task().source.here();
            let t = m.task().target.here();
            let same = files.contains_key(t) && files[t] == files[s];
            let (x, there) = worked(m, files, n);
            let bare = TransferModel { detail: Seq::empty(), ..m };
            if m.task().plan != Plan::Go {
                there == files && stands_behind(x, bare, idle_outcome(m.task().plan))
            } else if same {
                there == files && stands_behind(x, bare, Outcome::Identical)
            } else {
                there == files.insert(t, files[s]) && stands_behind(x, bare, Outcome::Copied)
            }
        }),
{
    reveal(acted);
    reveal_with_fuel(worked, 2);
    let job = m.setting.job;
    let s = m.task().source.here();
    let t = m.task().target.here();
    let same = files.contains_key(t) && files[t] == files[s];
    let at_it = TransferModel {
        goal: m.task().target,
        detail: Seq::empty(),
        digest: Seq::empty(),
        ..m
    };
    let has_parent = parent(at_it.written()) is Some;
    let first = first_step(job, m.task().plan, false, has_parent);
    assert(!is_taken(m));
    assert(m.file_job() == job);
    let one = worked(m, files, 1);
    assert(one == (enter_step(at_it, first), files));
    if m.task().plan != Plan::Go {
        let outcome = idle_outcome(m.task().plan);
        assert(first == Step::End(outcome));
        an_end_is_reported(at_it, m, files, outcome);
        let n: nat = if one.0.stage is Report {
            1
        } else {
            0
        };
        working_goes_on(m, files, 1, n);
        1 + n
    } else {
        let probing = TransferModel { stage: StageModel::Work(Step::Probe), ..at_it };
        let a: nat = if has_parent {
            2
        } else {
            1
        };
        if has_parent {
            let making = TransferModel { stage: StageModel::Work(Step::MakeParent), ..at_it };
            assert(one.0 == making);
            assert(action_of(making) is MakeDirs);
            assert(learned(making, Step::MakeParent, ReplyModel::Did) == making);
            assert(worked(making, files, 1) == (probing, files));
            working_goes_on(m, files, 1, 1);
        }
        assert(worked(m, files, a) == (probing, files));
        let there = files.contains_key(t);
        let comparing = TransferModel { stage: StageModel::Work(Step::Compare), ..at_it };
        let carrying = TransferModel { stage: StageModel::Work(Step::Carry(Leg::Send)), ..at_it };
        assert(action_of(probing) == ActionModel::Exists(t));
        assert(learned(probing, Step::Probe, ReplyModel::Told(there)) == probing);
        assert(worked(probing, files, 1) == (if there {
            comparing
        } else {
            carrying
        }, files));
        working_goes_on(m, files, a, 1);
        let b: nat = if there {
            a + 2
        } else {
            a + 1
        };
        if there {
            assert(action_of(comparing) == ActionModel::SameContents(s, t));
            assert(learned(comparing, Step::Compare, ReplyModel::Told(same)) == comparing);
            assert(worked(comparing, files, 1) == (if same {
                enter_step(comparing, Step::End(Outcome::Identical))
            } else {
                carrying
            }, files));
            working_goes_on(m, files, a + 1, 1);
        }
        if same {
            let ended = enter_step(comparing, Step::End(Outcome::Identical));
            an_end_is_reported(comparing, m, files, Outcome::Identical);
            let n: nat = if ended.stage is Report {
                1
            } else {
                0
            };
            working_goes_on(m, files, b, n);
            b + n
        } else {
            assert(worked(m, files, b) == (carrying, files));
            let after_it = files.insert(t, files[s]);
            let checking = TransferModel { stage: StageModel::Work(Step::Check), ..at_it };
            assert(action_of(carrying) == ActionModel::CopyFile(s, t));
            assert(learned(carrying, Step::Carry(Leg::Send), ReplyModel::Did) == carrying);
            assert(worked(carrying, files, 1) == (checking, after_it));
            working_goes_on(m, files, b, 1);
            assert(action_of(checking) == ActionModel::SameContents(s, t));
            assert(after_it[s] == after_it[t]);
            assert(learned(checking, Step::Check, ReplyModel::Told(true)) == checking);
            let ended = enter_step(checking, Step::End(Outcome::Copied));
            assert(worked(checking, after_it, 1) == (ended, after_it));
            working_goes_on(m, files, b + 1, 1);
            an_end_is_reported(checking, m, after_it, Outcome::Copied);
            let n: nat = if ended.stage is Report {
                1
            } else {
                0
            };
            working_goes_on(m, files, b + 2, n);
            b + 2 + n
        }
    }
}

// ---------------------------------------------------------------------------
// All the files
// ---------------------------------------------------------------------------

proof fn behind_a_file_all_is_well(m: TransferModel, x: TransferModel, outcome: Outcome)
    requires
        m.wf(),
        overwrites_here(m),
        m.stage is Poll,
        stands_behind(x, TransferModel { detail: Seq::empty(), ..m }, outcome),
        outcome == Outcome::Copied || outcome == Outcome::Identical || outcome
            == Outcome::OutsideSource || outcome == Outcome::NoName,
    ensures
        x.wf(),
        x.setting == m.setting,
        x.tasks == m.tasks,
        x.at == m.at + 1,
        x.stage is Poll || (x.stage is Close && x.at == x.tasks.len()),
{
    assert(x.files_wf());
}

/// A copy over what is there brings every file that it sets out with to its
/// target, and leaves the files themselves alone, on a machine that does what
/// it is asked to. Gives the number of actions that it takes.
pub proof fn every_file_arrives(m: TransferModel, files: Files) -> (n: nat)
    requires
        m.wf(),
        overwrites_here(m),
        m.stage is Poll || m.stage is Close,
        keep_apart(m.tasks, files),
        arrived(m.tasks, files, m.at),
    ensures
        ({
            let (x, there) = worked(m, files, n);
            &&& x.stage is Close
            &&& x.setting == m.setting
            &&& x.tasks == m.tasks
            &&& arrived(m.tasks, there, m.tasks.len())
            &&& keep_apart(m.tasks, there)
            &&& forall|i: int|
                0 <= i < m.tasks.len() && (#[trigger] m.tasks[i]).plan == Plan::Go
                    ==> there[m.tasks[i].source.here()] == files[m.tasks[i].source.here()]
        }),
    decreases m.tasks.len() - m.at,
{
    if m.stage is Close {
        0
    } else {
        let task = m.tasks[m.at as int];
        assert(task == m.task());
        let first = a_file_is_dealt_with(m, files);
        let (x, there) = worked(m, files, first);
        let same = files.contains_key(task.target.here()) && files[task.target.here()]
            == files[task.source.here()];
        let outcome = if task.plan != Plan::Go {
            idle_outcome(task.plan)
        } else if same {
            Outcome::Identical
        } else {
            Outcome::Copied
        };
        behind_a_file_all_is_well(m, x, outcome);
        assert(keep_apart(m.tasks, there));
        assert(arrived(m.tasks, there, x.at)) by {
            assert forall|i: int|
                0 <= i < x.at && i < m.tasks.len() && (#[trigger] m.tasks[i]).plan
                    == Plan::Go implies there.contains_key(m.tasks[i].target.here())
                && there[m.tasks[i].target.here()] == there[m.tasks[i].source.here()] by {
                if i < m.at {
                    assert(files.contains_key(m.tasks[i].target.here()));
                }
            }
        }
        let later = every_file_arrives(x, there);
        working_goes_on(m, files, first, later);
        first + later
    }
}

/// What the files from the one that a transfer is at are noted as, where
/// nothing is left to do for them.
pub open spec fn idle_notes(m: TransferModel) -> Seq<Seq<char>> {
    Seq::new(
        (m.tasks.len() - m.at) as nat,
        |i: int|
            note_of(
                m.setting.job,
                idle_outcome(m.tasks[m.at + i].plan),
                m.tasks[m.at + i].source.shown(),
                Seq::empty(),
            ),
    )
}

/// A copy over what is there finds every file that has its target identical:
/// it copies none, notes each, and changes nothing. Gives the number of
/// actions that it takes.
pub proof fn what_arrived_is_identical(m: TransferModel, files: Files) -> (n: nat)
    requires
        m.wf(),
        overwrites_here(m),
        m.stage is Poll || m.stage is Close,
        keep_apart(m.tasks, files),
        arrived(m.tasks, files, m.tasks.len()),
    ensures
        ({
            let (x, there) = worked(m, files, n);
            &&& x.stage is Close
            &&& there == files
            &&& x.tally.copied == m.tally.copied
            &&& x.tally.errors == m.tally.errors
            &&& x.tally.skipped == m.tally.skipped + idle_notes(m)
        }),
    decreases m.tasks.len() - m.at,
{
    if m.stage is Close {
        assert(m.tally.skipped + idle_notes(m) == m.tally.skipped);
        0
    } else {
        let task = m.tasks[m.at as int];
        assert(task == m.task());
        let first = a_file_is_dealt_with(m, files);
        let (x, there) = worked(m, files, first);
        let outcome = idle_outcome(task.plan);
        behind_a_file_all_is_well(m, x, outcome);
        let later = what_arrived_is_identical(x, there);
        working_goes_on(m, files, first, later);
        let note = note_of(m.setting.job, outcome, task.source.shown(), Seq::empty());
        assert(x.tally.skipped == m.tally.skipped.push(note));
        assert(idle_notes(m) == seq![note] + idle_notes(x)) by {
            assert forall|i: int| 0 < i < idle_notes(m).len() implies (#[trigger] idle_notes(m)[i])
                == idle_notes(x)[i - 1] by {
                assert(m.tasks[m.at + i] == x.tasks[x.at + (i - 1)]);
            }
        }
        assert(m.tally.skipped.push(note) + idle_notes(x) == m.tally.skipped + idle_notes(m));
        first + later
    }
}

/// A copy over what is there that is made a second time finds every file
/// identical: nothing is copied, nothing changes, and each file is noted.
/// `again` is the second copy before its first file.
pub proof fn a_second_copy_finds_every_file_identical(
    m: TransferModel,
    again: TransferModel,
    files: Files,
) -> (n: (nat, nat))
    requires
        m.wf(),
        overwrites_here(m),
        m.stage is Poll,
        m.at == 0,
        again.wf(),
        again.stage is Poll,
        again.at == 0,
        again.setting == m.setting,
        again.tasks == m.tasks,
        keep_apart(m.tasks, files),
    ensures
        ({
            let (x, once) = worked(m, files, n.0);
            let (y, twice) = worked(again, once, n.1);
            &&& x.stage is Close
            &&& y.stage is Close
            &&& twice == once
            &&& y.tally.copied == again.tally.copied
            &&& y.tally.errors == again.tally.errors
            &&& y.tally.skipped == again.tally.skipped + idle_notes(again)
        }),
{
    let first = every_file_arrives(m, files);
    let once = worked(m, files, first).1;
    let second = what_arrived_is_identical(again, once);
    (first, second)
}

} // verus!
