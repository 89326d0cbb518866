//! What a transfer promises, whatever the world replies.
#![allow(unused_imports)]

use vstd::prelude::*;
use vstd::utf8::*;

use crate::exchange::{ActionModel, MessageModel, ReplyModel};
use crate::names::{a_short_list_leaves_a_name, free_from_is_the_first, local_candidate};
use crate::notes::{counts, is_reported, mark_of, note_of, Mark};
use crate::paths::{join_path, joined_below_the_base, parent};
use crate::collect::local_files;
use crate::plan::{same_path, upload_notes};
use crate::request::{ConflictMode, TransferMethod, TransferMode};
use crate::setting::{gathered, listed, local_tasks, remote_tasks, walked, SettingModel};
use crate::setup::{fits_route, setup_distance, the_setup_ends, SetupStep};
use crate::shell::{
    endpoint, hash_line, local_rsync_command, remove_line, rsync_command, rsync_version_command, scp_command, sharing_args, sharing_shell, ssh_command, CommandModel, Program,
};
use crate::step_laws::{
    copying_keeps_the_source, distance, every_answer_brings_the_end_nearer, is_first, nothing_counts_unverified, reached,
    removes_source, source_was_renamed, source_was_taken, target_was_identical, target_was_verified,
    the_source_goes_only_when_the_target_holds_it, the_source_is_gone_exactly_when_it_is_counted,
    verifies_target,
};
use crate::steps::{
    first_step, has_next, next_step, Job, Leg, Outcome, Plan, Route, Signal, Step,
};
use crate::transfer::{
    action_of, after, after_gather, after_work, begun, carried_from, carried_to, enter_step, goal_of,
    hashed_here, hashed_there, heard_in, is_taken, learned, open_file, recorded, setup_action, setup_host,
    stays_in_place, step_action, told_by, StageModel, TransferModel,
};

verus! {

// ---------------------------------------------------------------------------
// The source is safe
// ---------------------------------------------------------------------------

/// A copy never asks for the source to be renamed, and the only files that it
/// asks to be removed on this machine are the one that it has written at the
/// target and the one that it has staged.
pub proof fn a_copy_asks_for_no_removal_of_the_source(m: TransferModel)
    requires
        m.wf(),
        !m.setting.job.moving,
    ensures
        !(action_of(m) is Rename),
        m.stage is Work ==> !removes_source(m.stage->Work_0),
        match action_of(m) {
            ActionModel::RemoveFile(p) => p == m.goal.here() || p == m.staged(),
            _ => true,
        },
{
}

/// No removal of a source names the goal: a source that is renamed or removed
/// on this machine is not where the file goes, and neither is one that is
/// removed on a host.
pub proof fn no_removal_of_a_source_names_the_goal(m: TransferModel)
    requires
        m.wf(),
    ensures
        match m.stage {
            StageModel::Work(step) => removes_source(step) ==> !m.is_in_place(),
            _ => true,
        },
        m.setting.job.route == Route::Local ==> match action_of(m) {
            ActionModel::Rename(from, to) => !same_path(from, to),
            ActionModel::RemoveFile(p) => (p == m.goal.here() || p == m.task().source.here())
                && !same_path(m.task().source.here(), m.goal.here()),
            _ => true,
        },
{
}

/// Nothing is renamed or removed on this machine while a file is to go to
/// where it is, and on a host its source is not removed.
pub proof fn a_file_in_place_is_left_alone(m: TransferModel)
    requires
        m.wf(),
        m.stage is Work,
    ensures
        m.setting.job.route == Route::Local && m.is_its_own_goal() ==> !(action_of(m) is Rename)
            && !(action_of(m) is RemoveFile),
        m.setting.job.route == Route::Local && m.is_in_place() ==> !(action_of(m) is Rename) && (
        action_of(m) matches ActionModel::RemoveFile(p) ==> p == m.goal.here() && !same_path(
            p,
            m.task().source.here(),
        )),
        m.setting.job.route == Route::Relay && m.is_in_place() ==> m.stage != StageModel::Work(
            Step::DropSource,
        ),
{
}

/// A file that is where it goes is looked at like any other, and where it is
/// there and can be read, it is skipped as identical, be it copied or moved.
pub proof fn a_file_in_place_is_identical(
    m: TransferModel,
    found: ReplyModel,
    compared: ReplyModel,
)
    requires
        m.wf(),
        m.setting.job.route == Route::Local,
        m.is_in_place(),
        m.stage == StageModel::Work(Step::Probe),
        found == ReplyModel::Told(true),
        compared == ReplyModel::Told(true),
    ensures
        after(m, found) is Some,
        action_of(m) == ActionModel::Exists(m.goal.here()),
        ({
            let there = after(m, found)->0;
            let next = after(there, compared)->0;
            &&& action_of(there) == ActionModel::SameContents(m.task().source.here(), m.goal.here())
            &&& after(there, compared) is Some
            &&& next.tally.copied == m.tally.copied
            &&& next.tally.errors == m.tally.errors
            &&& next.tally.skipped == m.tally.skipped.push(
                note_of(m.setting.job, Outcome::Identical, m.task().source.shown(), m.detail),
            )
        }),
{
    let there = after(m, found)->0;
    stays_in_place(m, learned(m, Step::Probe, found));
    assert(there == TransferModel { stage: StageModel::Work(Step::Compare), ..m });
    stays_in_place(m, there);
    assert(there.file_job() == m.file_job());
    assert(learned(there, Step::Compare, compared) == there);
}

/// Each file of a relay is staged below the directory for that.
pub proof fn staged_files_lie_below_the_directory(m: TransferModel, i: int)
    requires
        m.wf(),
        m.setting.job.route == Route::Relay,
        0 <= i < m.tasks.len(),
    ensures
        m.staging.is_prefix_of(join_path(m.staging, m.tasks[i].staged)),
        i == m.at ==> m.staging.is_prefix_of(m.staged()),
{
    joined_below_the_base(m.staging, m.tasks[i].staged);
}

/// Before the first file, nothing is asked for that writes, renames or removes
/// a file: only directories are made.
pub proof fn the_setup_touches_no_file(m: TransferModel)
    requires
        m.stage is Setup,
    ensures
        match action_of(m) {
            ActionModel::Pass
            | ActionModel::Capture(_)
            | ActionModel::Exists(_)
            | ActionModel::MakeDirs(_)
            | ActionModel::Walk(_, _)
            | ActionModel::MakeStaging => true,
            _ => false,
        },
{
}

/// A transfer that reports an error has dealt with no file.
pub proof fn an_error_comes_before_the_first_file(m: TransferModel)
    requires
        m.wf(),
        action_of(m) is Send,
        action_of(m)->Send_0 is Error,
    ensures
        m.at == 0,
        m.tally.copied == 0,
{
    match m.stage {
        StageModel::Setup(step) => {
            assert(!(setup_action(m, step) is Send));
        },
        StageModel::Work(step) => {
            assert(!(step_action(m, step) is Send));
        },
        _ => {},
    }
}

// ---------------------------------------------------------------------------
// A file goes by its steps
// ---------------------------------------------------------------------------

/// Where a transfer stands after these replies.
pub open spec fn run(m: TransferModel, replies: Seq<ReplyModel>) -> Option<TransferModel>
    decreases replies.len(),
{
    if replies.len() == 0 {
        Some(m)
    } else {
        match run(m, replies.drop_last()) {
            Some(x) => after(x, replies.last()),
            None => None,
        }
    }
}

/// Whether the transfer is at the same file all the while.
pub open spec fn stays_at_work(m: TransferModel, replies: Seq<ReplyModel>) -> bool
    decreases replies.len(),
{
    if replies.len() == 0 {
        m.stage is Work
    } else {
        stays_at_work(m, replies.drop_last()) && run(m, replies) is Some && (run(
            m,
            replies,
        )->0).stage is Work
    }
}

/// The step that a transfer is at.
pub open spec fn current(m: TransferModel) -> Step {
    match m.stage {
        StageModel::Work(step) => step,
        _ => Step::End(Outcome::Copied),
    }
}

/// What the replies mean for the file, one after the other.
pub open spec fn signals_of(m: TransferModel, replies: Seq<ReplyModel>) -> Seq<Signal>
    decreases replies.len(),
{
    if replies.len() == 0 {
        Seq::empty()
    } else {
        let x = run(m, replies.drop_last())->0;
        signals_of(m, replies.drop_last()).push(
            heard_in(x, current(x), replies.last()).0,
        )
    }
}

/// While a transfer is at a file, it goes from step to step as the answers to
/// the steps say, and the setting, the files and the tally stay as they are.
pub proof fn a_file_goes_by_its_steps(m: TransferModel, replies: Seq<ReplyModel>)
    requires
        stays_at_work(m, replies),
    ensures
        ({
            let x = run(m, replies)->0;
            &&& run(m, replies) is Some
            &&& x.stage == StageModel::Work(
                reached(m.file_job(), current(m), signals_of(m, replies)),
            )
            &&& x.setting == m.setting
            &&& x.tasks == m.tasks
            &&& x.existing == m.existing
            &&& x.at == m.at
            &&& x.tally == m.tally
            &&& x.file_job() == m.file_job()
        }),
    decreases replies.len(),
{
    if replies.len() > 0 {
        let before = replies.drop_last();
        a_file_goes_by_its_steps(m, before);
        let x = run(m, before)->0;
        let signals = signals_of(m, replies);
        assert(signals.drop_last() == signals_of(m, before));
        assert(after(x, replies.last()) == after_work(x, current(x), replies.last()));
        stays_in_place(m, x);
        let next = next_step(m.file_job(), current(x), signals.last());
        assert(run(m, replies) == Some(
            enter_step(learned(x, current(x), replies.last()), next),
        ));
        if next is End {
            let outcome = next->End_0;
            assert(is_reported(outcome) || !is_reported(outcome));
        }
        stays_in_place(m, run(m, replies)->0);
    }
}

/// A file is counted only when, among the answers to its steps, one told that
/// the target was verified to hold the file, that the target was identical to
/// it from the start, or that the file itself was renamed to the target.
pub proof fn only_what_arrived_is_counted(
    m: TransferModel,
    poll: ReplyModel,
    replies: Seq<ReplyModel>,
    last: ReplyModel,
)
    requires
        m.wf(),
        m.stage is Poll,
        after(m, poll) is Some,
        stays_at_work(after(m, poll)->0, replies),
        after(run(after(m, poll)->0, replies)->0, last) is Some,
        (after(run(after(m, poll)->0, replies)->0, last)->0).tally.copied > m.tally.copied,
    ensures
        ({
            let begun = after(m, poll)->0;
            let from = current(begun);
            let x = run(begun, replies)->0;
            let signals = signals_of(begun, replies).push(heard_in(x, current(x), last).0);
            let job = begun.file_job();
            &&& is_first(job, from)
            &&& target_was_verified(job, from, signals) || target_was_identical(job, from, signals)
                || source_was_renamed(job, from, signals)
        }),
{
    let begun = after(m, poll)->0;
    let from = current(begun);
    begins_at_work(begun, replies);
    begins_with_a_first_step(m, poll);
    a_file_goes_by_its_steps(begun, replies);
    let x = run(begun, replies)->0;
    let signals = signals_of(begun, replies);
    counting_ends_a_file(x, last);
    let signal = heard_in(x, current(x), last).0;
    assert(signals.push(signal).drop_last() == signals);
    let job = begun.file_job();
    assert(reached(job, from, signals.push(signal)) == next_step(job, current(x), signal));
    nothing_counts_unverified(job, from, signals.push(signal));
}

proof fn begins_at_work(m: TransferModel, replies: Seq<ReplyModel>)
    requires
        stays_at_work(m, replies),
    ensures
        m.stage is Work,
    decreases replies.len(),
{
    if replies.len() > 0 {
        begins_at_work(m, replies.drop_last());
    }
}

proof fn counting_ends_a_file(m: TransferModel, reply: ReplyModel)
    requires
        m.stage is Work,
        after(m, reply) is Some,
        (after(m, reply)->0).tally.copied > m.tally.copied,
    ensures
        ({
            let step = next_step(m.file_job(), current(m), heard_in(m, current(m), reply).0);
            step == Step::End(Outcome::Copied) || step == Step::End(Outcome::SourceKept)
        }),
{
    let step = next_step(m.file_job(), current(m), heard_in(m, current(m), reply).0);
    let there = learned(m, current(m), reply);
    assert(after(m, reply) == Some(enter_step(there, step)));
    match step {
        Step::End(outcome) => {
            assert(enter_step(there, step).tally == recorded(there, outcome));
            assert(counts(m.setting.job, outcome));
        },
        _ => {},
    }
}

proof fn begins_with_a_first_step(m: TransferModel, poll: ReplyModel)
    requires
        m.wf(),
        m.stage is Poll,
        after(m, poll) is Some,
        (after(m, poll)->0).stage is Work,
    ensures
        is_first((after(m, poll)->0).file_job(), current(after(m, poll)->0)),
        (after(m, poll)->0).file_job() == m.file_job(),
        (after(m, poll)->0).setting == m.setting,
        (after(m, poll)->0).tally == m.tally,
{
    assert(after(m, poll) == open_file(m));
    let goal = goal_of(m)->0;
    let at_it = TransferModel { goal, detail: Seq::empty(), digest: Seq::empty(), ..m };
    let step = first_step(
        m.file_job(),
        m.task().plan,
        is_taken(m),
        parent(at_it.written()) is Some,
    );
    assert(after(m, poll) == Some(enter_step(at_it, step)));
    assert(!(step is End));
    stays_in_place(m, after(m, poll)->0);
}

/// A file that is moved on this machine without `rsync` is counted exactly
/// when its source is gone: when, among the answers to its steps, one told
/// that the source was renamed or removed. The source of a file that is to go
/// to where it is stays.
pub proof fn a_moved_file_is_counted_exactly_when_its_source_is_gone(
    m: TransferModel,
    poll: ReplyModel,
    replies: Seq<ReplyModel>,
    last: ReplyModel,
)
    requires
        m.wf(),
        m.stage is Poll,
        m.setting.job.route == Route::Local,
        m.setting.job.method == TransferMethod::Standard,
        m.setting.job.moving,
        after(m, poll) is Some,
        stays_at_work(after(m, poll)->0, replies),
        after(run(after(m, poll)->0, replies)->0, last) is Some,
        !((after(run(after(m, poll)->0, replies)->0, last)->0).stage is Work),
    ensures
        ({
            let begun = after(m, poll)->0;
            let x = run(begun, replies)->0;
            let signals = signals_of(begun, replies).push(heard_in(x, current(x), last).0);
            let gone = source_was_taken(m.file_job(), current(begun), signals);
            if m.is_in_place() {
                !gone
            } else {
                (after(x, last)->0).tally.copied == m.tally.copied + (if gone {
                    1nat
                } else {
                    0nat
                })
            }
        }),
{
    let job = m.file_job();
    let begun = after(m, poll)->0;
    let from = current(begun);
    begins_at_work(begun, replies);
    begins_with_a_first_step(m, poll);
    a_file_goes_by_its_steps(begun, replies);
    let x = run(begun, replies)->0;
    let signal = heard_in(x, current(x), last).0;
    let signals = signals_of(begun, replies).push(signal);
    assert(signals.drop_last() == signals_of(begun, replies));
    let step = next_step(job, current(x), signal);
    assert(reached(job, from, signals) == step);
    if m.is_in_place() {
        assert forall|k: int| 0 <= k < signals.len() implies !removes_source(
            #[trigger] reached(job, from, signals.take(k)),
        ) by {
            copying_keeps_the_source(job, from, signals.take(k));
        }
    } else {
        the_source_is_gone_exactly_when_it_is_counted(job, from, signals);
    }
    let there = learned(x, current(x), last);
    assert(after(x, last) == Some(enter_step(there, step)));
    match step {
        Step::End(outcome) => {
            assert(enter_step(there, step).tally == recorded(there, outcome));
        },
        _ => {},
    }
}

/// A move takes the source away only after, among the answers to the steps of
/// the file, one told that the target was verified to hold it or was identical
/// to it from the start; or it renames the source to the target itself.
pub proof fn a_source_goes_only_when_the_target_holds_it(
    m: TransferModel,
    poll: ReplyModel,
    replies: Seq<ReplyModel>,
)
    requires
        m.wf(),
        m.stage is Poll,
        after(m, poll) is Some,
        stays_at_work(after(m, poll)->0, replies),
        removes_source(current(run(after(m, poll)->0, replies)->0)),
    ensures
        ({
            let begun = after(m, poll)->0;
            let from = current(begun);
            let step = current(run(begun, replies)->0);
            let signals = signals_of(begun, replies);
            let job = begun.file_job();
            &&& is_first(job, from)
            &&& step == Step::Shift || target_was_verified(job, from, signals)
                || target_was_identical(job, from, signals)
        }),
{
    let begun = after(m, poll)->0;
    begins_at_work(begun, replies);
    begins_with_a_first_step(m, poll);
    a_file_goes_by_its_steps(begun, replies);
    the_source_goes_only_when_the_target_holds_it(
        begun.file_job(),
        current(begun),
        signals_of(begun, replies),
    );
}

// ---------------------------------------------------------------------------
// What is verified
// ---------------------------------------------------------------------------

/// On this machine, what is compared once the bytes have been moved are the
/// file that they came from and the file that they went to.
pub proof fn both_files_are_compared(m: TransferModel, leg: Leg, reply: ReplyModel)
    requires
        m.wf(),
        m.stage == StageModel::Work(Step::Carry(leg)),
        m.setting.job.route == Route::Local,
        heard_in(m, Step::Carry(leg), reply).0 == Signal::Yes,
    ensures
        after(m, reply) is Some,
        action_of(after(m, reply)->0) == ActionModel::SameContents(
            carried_from(m, leg),
            carried_to(m, leg),
        ),
{
    let there = learned(m, Step::Carry(leg), reply);
    assert(after(m, reply) == Some(enter_step(there, Step::Check)));
}

/// Where a host is involved, the two files that are hashed once the bytes have
/// been moved are the one that they came from and the one that they went to,
/// and the hash of the one on this machine is held against that of the other.
pub proof fn both_ends_are_hashed(m: TransferModel, leg: Leg, moved: ReplyModel, hash: Seq<char>)
    requires
        m.wf(),
        m.stage == StageModel::Work(Step::Carry(leg)),
        m.setting.job.route != Route::Local,
        heard_in(m, Step::Carry(leg), moved).0 == Signal::Yes,
    ensures
        ({
            let first = after(m, moved)->0;
            let second = after(first, ReplyModel::Hashed(hash))->0;
            let far = endpoint(hashed_there(m, leg).0, hashed_there(m, leg).1);
            &&& after(m, moved) is Some
            &&& action_of(first) == ActionModel::HashFile(hashed_here(m))
            &&& after(first, ReplyModel::Hashed(hash)) is Some
            &&& second.digest == hash
            &&& second.stage == StageModel::Work(Step::HashThere(leg))
            &&& action_of(second) == ActionModel::Capture(
                ssh_command(hashed_there(m, leg).0, hash_line(hashed_there(m, leg).1)),
            )
            &&& (carried_from(m, leg) == hashed_here(m) && carried_to(m, leg)
                == far) || (carried_from(m, leg) == far && carried_to(m, leg) == hashed_here(m))
        }),
{
    let there = learned(m, Step::Carry(leg), moved);
    assert(after(m, moved) == Some(enter_step(there, Step::HashHere(leg))));
    let first = after(m, moved)->0;
    let known = learned(first, Step::HashHere(leg), ReplyModel::Hashed(hash));
    assert(after(first, ReplyModel::Hashed(hash)) == Some(
        enter_step(known, Step::HashThere(leg)),
    ));
}

/// Whether an action removes what was written at the target.
pub open spec fn removes_the_target(m: TransferModel, a: ActionModel) -> bool {
    if m.setting.job.route == Route::Upload || m.setting.job.route == Route::Relay {
        a == ActionModel::Run(ssh_command(m.setting.target_host, remove_line(m.goal.there())))
    } else {
        a == ActionModel::RemoveFile(m.goal.here())
    }
}

/// When what was written turns out not to be the source, the next thing that
/// is asked for is its removal; a file that was staged is removed before that.
pub proof fn a_bad_copy_is_removed(
    m: TransferModel,
    step: Step,
    verdict: ReplyModel,
    next: ReplyModel,
)
    requires
        m.wf(),
        m.stage == StageModel::Work(step),
        verifies_target(m.file_job(), step),
        heard_in(m, step, verdict).0 == Signal::No,
    ensures
        ({
            let first = after(m, verdict)->0;
            let second = after(first, next)->0;
            &&& after(m, verdict) is Some
            &&& removes_the_target(m, action_of(first)) || (action_of(first)
                == ActionModel::RemoveFile(m.staged()) && after(first, next) is Some
                && removes_the_target(m, action_of(second)))
        }),
{
    let job = m.file_job();
    let there = learned(m, step, verdict);
    let bad = next_step(job, step, Signal::No);
    assert(after(m, verdict) == Some(enter_step(there, bad)));
    let first = after(m, verdict)->0;
    stays_in_place(m, first);
    if bad == Step::DropStaged(Outcome::Mismatch) {
        let signal = heard_in(first, bad, next).0;
        assert(next_step(job, bad, signal) == Step::DropTarget(Outcome::Mismatch));
        assert(after(first, next) == Some(
            enter_step(learned(first, bad, next), Step::DropTarget(Outcome::Mismatch)),
        ));
    }
}

/// Whether a command copies a file on this machine with `rsync`.
pub open spec fn is_local_copy(c: CommandModel) -> bool {
    exists|from: Seq<u8>, to: Seq<u8>| c == #[trigger] local_rsync_command(from, to)
}

/// Whether a command is told to reach hosts over the shared connection.
pub open spec fn reaches_over_shared(c: CommandModel) -> bool {
    exists|i: int|
        0 <= i < c.args.len() - 1 && #[trigger] c.args[i] == encode_utf8("-e"@) && c.args[i + 1]
            == encode_utf8(sharing_shell())
}

/// Every command that reaches a host does so over the shared connection.
pub proof fn every_command_shares_the_connection(m: TransferModel)
    ensures
        match action_of(m) {
            ActionModel::Capture(c) | ActionModel::Run(c) => if c.program == Program::Rsync {
                c == rsync_version_command() || is_local_copy(c) || reaches_over_shared(c)
            } else {
                sharing_args().is_prefix_of(c.args)
            },
            _ => true,
        },
{
    assert forall|host: Seq<char>, line: Seq<char>| #[trigger]
        sharing_args().is_prefix_of(ssh_command(host, line).args) by {
        let args = ssh_command(host, line).args;
        assert(args.take(6) == sharing_args());
    }
    assert forall|from: Seq<u8>, to: Seq<u8>| #[trigger]
        sharing_args().is_prefix_of(scp_command(from, to).args) by {
        let args = scp_command(from, to).args;
        assert(args.take(6) == sharing_args());
    }
    assert forall|from: Seq<u8>, to: Seq<u8>| reaches_over_shared(
        #[trigger] rsync_command(from, to),
    ) by {
        let args = rsync_command(from, to).args;
        assert(args[2] == encode_utf8("-e"@) && args[3] == encode_utf8(sharing_shell()));
    }
    assert forall|from: Seq<u8>, to: Seq<u8>| is_local_copy(
        #[trigger] local_rsync_command(from, to),
    ) by {}
}

// ---------------------------------------------------------------------------
// Names that are taken
// ---------------------------------------------------------------------------

/// A stand-in for a name on this machine is taken once it was asked for and
/// nothing was there.
pub proof fn a_stand_in_was_asked_for(m: TransferModel, n: u32, reply: ReplyModel)
    requires
        m.wf(),
        m.stage == StageModel::Work(Step::PickName(n)),
        heard_in(m, Step::PickName(n), reply).0 != Signal::Yes,
    ensures
        after(m, reply) is Some,
        action_of(m) == ActionModel::Exists((after(m, reply)->0).goal.here()),
        (after(m, reply)->0).goal.here() == local_candidate(m.goal.here(), n as nat),
{
    let there = learned(m, Step::PickName(n), reply);
    let step = next_step(
        m.file_job(),
        Step::PickName(n),
        heard_in(m, Step::PickName(n), reply).0,
    );
    assert(after(m, reply) == Some(enter_step(there, step)));
}

/// Where a name is taken on the host and a file is to be renamed, it goes to a
/// name that was not on the host before; and where fewer files are there than
/// a `u32` can number, there is such a name.
pub proof fn a_renamed_file_takes_a_free_name(m: TransferModel)
    requires
        is_taken(m),
        m.setting.job.conflict == ConflictMode::Rename,
    ensures
        match goal_of(m) {
            Some(goal) => !m.existing.contains(goal.there()),
            None => m.existing.len() >= u32::MAX,
        },
{
    let original = m.task().target.there();
    free_from_is_the_first(original, m.existing, 1);
    if m.existing.len() < u32::MAX {
        a_short_list_leaves_a_name(original, m.existing);
    }
}

/// Where a name is taken on the host and such files are to be skipped, nothing
/// is asked for the file: it is noted, and the progress is reported.
pub proof fn a_taken_name_is_skipped(m: TransferModel, poll: ReplyModel)
    requires
        m.wf(),
        m.stage is Poll,
        poll != ReplyModel::Told(true),
        m.task().plan == Plan::Go,
        is_taken(m),
        m.setting.job.conflict == ConflictMode::Skip,
    ensures
        after(m, poll) is Some,
        (after(m, poll)->0).stage is Report,
        (after(m, poll)->0).tally.skipped == m.tally.skipped.push(
            m.task().source.shown() + ": already exists at destination"@,
        ),
        (after(m, poll)->0).tally.copied == m.tally.copied,
        (after(m, poll)->0).tally.errors == m.tally.errors,
{
    let at_it = TransferModel {
        goal: m.task().target,
        detail: Seq::empty(),
        digest: Seq::empty(),
        ..m
    };
    assert(after(m, poll) == Some(enter_step(at_it, Step::End(Outcome::AlreadyThere))));
    assert(note_of(m.setting.job, Outcome::AlreadyThere, m.task().source.shown(), Seq::empty())
        == m.task().source.shown() + ": already exists at destination"@);
}

// ---------------------------------------------------------------------------
// The method
// ---------------------------------------------------------------------------

/// The same transfer by another method.
pub open spec fn by_method(m: TransferModel, method: TransferMethod) -> TransferModel {
    TransferModel {
        setting: SettingModel { job: Job { method, ..m.setting.job }, ..m.setting },
        ..m
    }
}

/// Where nothing fails, the method makes no difference to how a transfer goes
/// on behind its setup, nor to what it reports.
pub proof fn the_method_makes_no_difference(
    m: TransferModel,
    method: TransferMethod,
    reply: ReplyModel,
)
    requires
        !(m.stage is Setup),
        after(m, reply) is Some,
        (after(m, reply)->0).tally.errors == m.tally.errors,
    ensures
        after(by_method(m, method), reply) == Some(by_method(after(m, reply)->0, method)),
        action_of(m) is Send ==> action_of(by_method(m, method)) == action_of(m),
{
    match m.stage {
        StageModel::Poll => opening_by_method(m, method, reply),
        StageModel::Work(step) => working_by_method(m, method, step, reply),
        _ => {},
    }
}

proof fn in_place_by_method(m: TransferModel, method: TransferMethod)
    ensures
        by_method(m, method).is_in_place() == m.is_in_place(),
        by_method(m, method).file_job() == (Job { method, ..m.file_job() }),
{
    assert(by_method(m, method).task() == m.task());
    assert(goal_of(by_method(m, method)) == goal_of(m));
}

proof fn opening_by_method(m: TransferModel, method: TransferMethod, reply: ReplyModel)
    requires
        m.stage is Poll,
        after(m, reply) is Some,
        (after(m, reply)->0).tally.errors == m.tally.errors,
    ensures
        after(by_method(m, method), reply) == Some(by_method(after(m, reply)->0, method)),
{
    if reply != ReplyModel::Told(true) {
        let goal = goal_of(m)->0;
        let at_it = TransferModel { goal, detail: Seq::empty(), digest: Seq::empty(), ..m };
        let step = first_step(
            m.file_job(),
            m.task().plan,
            is_taken(m),
            parent(at_it.written()) is Some,
        );
        assert(after(m, reply) == Some(enter_step(at_it, step)));
        in_place_by_method(m, method);
        assert(by_method(at_it, method).written() == at_it.written());
        entering_by_method(at_it, method, step);
        assert(after(by_method(m, method), reply) == Some(
            enter_step(by_method(at_it, method), step),
        ));
    }
}

proof fn working_by_method(
    m: TransferModel,
    method: TransferMethod,
    step: Step,
    reply: ReplyModel,
)
    requires
        m.stage == StageModel::Work(step),
        after(m, reply) is Some,
        (after(m, reply)->0).tally.errors == m.tally.errors,
    ensures
        after(by_method(m, method), reply) == Some(by_method(after(m, reply)->0, method)),
        !(action_of(m) is Send),
{
    let other = by_method(m, method);
    let there = learned(m, step, reply);
    let signal = heard_in(m, step, reply).0;
    let next = next_step(m.file_job(), step, signal);
    in_place_by_method(m, method);
    assert(heard_in(other, step, reply) == heard_in(m, step, reply));
    assert(learned(other, step, reply) == by_method(there, method));
    assert(next_step(other.file_job(), step, signal) == next);
    assert(after(m, reply) == Some(enter_step(there, next)));
    entering_by_method(there, method, next);
    assert(!(step_action(m, step) is Send));
}

proof fn entering_by_method(m: TransferModel, method: TransferMethod, step: Step)
    requires
        enter_step(m, step).tally.errors == m.tally.errors,
    ensures
        enter_step(by_method(m, method), step) == by_method(enter_step(m, step), method),
{
    match step {
        Step::End(outcome) => {
            if mark_of(outcome) == Mark::Error {
                assert(recorded(m, outcome).errors.len() == m.tally.errors.len() + 1);
            } else {
                assert(recorded(by_method(m, method), outcome) == recorded(m, outcome));
            }
        },
        _ => {},
    }
}

proof fn errors_stay(m: TransferModel, reply: ReplyModel)
    requires
        !(m.stage is Setup),
        after(m, reply) is Some,
    ensures
        !((after(m, reply)->0).stage is Setup),
        m.tally.errors.is_prefix_of((after(m, reply)->0).tally.errors),
{
    match m.stage {
        StageModel::Poll => {
            if reply != ReplyModel::Told(true) {
                let goal = goal_of(m)->0;
                let at_it = TransferModel { goal, detail: Seq::empty(), digest: Seq::empty(), ..m };
                let step = first_step(
                    m.file_job(),
                    m.task().plan,
                    is_taken(m),
                    parent(at_it.written()) is Some,
                );
                assert(after(m, reply) == Some(enter_step(at_it, step)));
            }
        },
        _ => {},
    }
}

proof fn errors_stay_all_the_while(m: TransferModel, replies: Seq<ReplyModel>)
    requires
        !(m.stage is Setup),
        run(m, replies) is Some,
    ensures
        !((run(m, replies)->0).stage is Setup),
        m.tally.errors.is_prefix_of((run(m, replies)->0).tally.errors),
    decreases replies.len(),
{
    if replies.len() > 0 {
        errors_stay_all_the_while(m, replies.drop_last());
        errors_stay(run(m, replies.drop_last())->0, replies.last());
    }
}

/// Both methods send the same messages where nothing fails: after the same
/// replies, which brought no error, both stand at the same place, and what the
/// one reports the other does.
pub proof fn both_methods_send_the_same_messages(
    m: TransferModel,
    method: TransferMethod,
    replies: Seq<ReplyModel>,
)
    requires
        !(m.stage is Setup),
        run(m, replies) is Some,
        (run(m, replies)->0).tally.errors == m.tally.errors,
    ensures
        run(by_method(m, method), replies) == Some(by_method(run(m, replies)->0, method)),
        action_of(run(m, replies)->0) is Send ==> action_of(run(by_method(m, method), replies)->0)
            == action_of(run(m, replies)->0),
    decreases replies.len(),
{
    errors_stay_all_the_while(m, replies);
    let x = run(m, replies)->0;
    match x.stage {
        StageModel::Work(step) => {
            assert(!(step_action(x, step) is Send));
        },
        _ => {},
    }
    if replies.len() > 0 {
        let before = replies.drop_last();
        errors_stay_all_the_while(m, before);
        let y = run(m, before)->0;
        errors_stay(y, replies.last());
        assert(y.tally.errors == m.tally.errors);
        both_methods_send_the_same_messages(m, method, before);
        the_method_makes_no_difference(y, method, replies.last());
    }
}

/// How many replies a transfer takes before it sees whether `rsync` is there.
pub open spec fn before_the_check(route: Route) -> nat {
    match route {
        Route::Local => 0,
        Route::Upload => 1,
        Route::Relay => 2,
        Route::Download => 0,
    }
}

/// The replies with the one about `rsync` among them; a download does not ask
/// for it.
pub open spec fn with_check(route: Route, replies: Seq<ReplyModel>, check: ReplyModel) -> Seq<
    ReplyModel,
> {
    let k = before_the_check(route) as int;
    if route == Route::Download {
        replies
    } else {
        replies.take(k).push(check) + replies.skip(k)
    }
}

/// Whether the setup is behind what the method makes a difference to.
pub open spec fn is_behind_the_check(m: TransferModel) -> bool {
    match m.stage {
        StageModel::Setup(step) => step != SetupStep::CheckTarget && step != SetupStep::CheckRsync
            && (step == SetupStep::CheckSource ==> m.setting.job.route == Route::Download)
            && fits_route(m.setting.job, step),
        _ => true,
    }
}

proof fn notes_by_method(
    job: Job,
    method: TransferMethod,
    dir: Option<Seq<u8>>,
    mode: TransferMode,
    files: Seq<Seq<u8>>,
)
    ensures
        upload_notes(Job { method, ..job }, dir, mode, files) == upload_notes(job, dir, mode, files),
    decreases files.len(),
{
    if files.len() > 0 {
        notes_by_method(job, method, dir, mode, files.drop_last());
    }
}

proof fn setting_up_by_method(m: TransferModel, method: TransferMethod, reply: ReplyModel)
    requires
        m.stage is Setup,
        is_behind_the_check(m),
    ensures
        after(by_method(m, method), reply) == Some(by_method(after(m, reply)->0, method)),
        is_behind_the_check(after(m, reply)->0),
{
    let step = m.stage->Setup_0;
    let other = by_method(m, method);
    let next = after(m, reply)->0;
    assert(other.setting.source_dir() == m.setting.source_dir());
    assert(other.setting.target_base() == m.setting.target_base());
    if step == SetupStep::Gather {
        if let Ok(f) = local_files(m.setting.source, m.setting.patterns, walked(reply)) {
            notes_by_method(
                m.setting.job,
                method,
                m.setting.source_dir(),
                m.setting.mode,
                f.files,
            );
            assert(local_tasks(other.setting, f.files) == local_tasks(m.setting, f.files));
        }
        if let Ok(l) = listed(m.setting, reply) {
            assert(remote_tasks(other.setting, l.files) == remote_tasks(m.setting, l.files));
        }
        assert(listed(other.setting, reply) == listed(m.setting, reply));
        assert(gathered(other.setting, reply) == gathered(m.setting, reply));
    } else {
        assert(setup_host(other.setting, step) == setup_host(m.setting, step));
        assert(told_by(other, step, reply) == by_method(told_by(m, step, reply), method));
    }
}

proof fn no_error_in_the_setup(m: TransferModel, replies: Seq<ReplyModel>)
    requires
        m.stage is Setup ==> m.tally.errors.len() == 0,
        run(m, replies) is Some,
    ensures
        (run(m, replies)->0).stage is Setup ==> (run(m, replies)->0).tally.errors.len() == 0,
    decreases replies.len(),
{
    if replies.len() > 0 {
        no_error_in_the_setup(m, replies.drop_last());
        let x = run(m, replies.drop_last())->0;
        if !(x.stage is Setup) {
            errors_stay(x, replies.last());
        }
    }
}

proof fn both_methods_from_here(m: TransferModel, method: TransferMethod, replies: Seq<ReplyModel>)
    requires
        is_behind_the_check(m),
        m.tally.errors.len() == 0,
        run(m, replies) is Some,
        (run(m, replies)->0).tally.errors.len() == 0,
    ensures
        run(by_method(m, method), replies) == Some(by_method(run(m, replies)->0, method)),
        is_behind_the_check(run(m, replies)->0),
    decreases replies.len(),
{
    if replies.len() > 0 {
        let before = replies.drop_last();
        let u = run(m, before)->0;
        no_error_in_the_setup(m, before);
        no_error_before(u, replies.last());
        both_methods_from_here(m, method, before);
        going_on_by_method(u, method, replies.last());
    }
}

proof fn runs_go_on(m: TransferModel, a: Seq<ReplyModel>, b: Seq<ReplyModel>)
    requires
        run(m, a) is Some,
    ensures
        run(m, a + b) == run(run(m, a)->0, b),
    decreases b.len(),
{
    if b.len() > 0 {
        runs_go_on(m, a, b.drop_last());
        assert((a + b).drop_last() == a + b.drop_last());
    } else {
        assert(a + b == a);
    }
}

/// Both methods send the same messages where nothing fails, from the first
/// reply on: after the same replies, but for the one that tells that `rsync`
/// is there, both stand at the same place, and what the one reports the other
/// does.
pub proof fn both_methods_go_the_same_way(
    s: SettingModel,
    replies: Seq<ReplyModel>,
    check: ReplyModel,
)
    requires
        s.job.method == TransferMethod::Standard,
        check matches ReplyModel::Printed { success, .. } && success,
        before_the_check(s.job.route) <= replies.len(),
        // The hosts could be reached.
        run(begun(s), replies.take(before_the_check(s.job.route) as int)) is Some,
        (run(
            begun(s),
            replies.take(before_the_check(s.job.route) as int),
        )->0).stage is Setup,
        run(begun(s), replies) is Some,
        (run(begun(s), replies)->0).tally.errors.len() == 0,
    ensures
        ({
            let rsync = SettingModel { job: Job { method: TransferMethod::Rsync, ..s.job }, ..s };
            let x = run(begun(s), replies)->0;
            let y = run(begun(rsync), with_check(s.job.route, replies, check))->0;
            &&& run(begun(rsync), with_check(s.job.route, replies, check)) is Some
            &&& y == by_method(x, TransferMethod::Rsync)
            &&& action_of(x) is Send ==> action_of(y) == action_of(x)
        }),
{
    let method = TransferMethod::Rsync;
    let rsync = SettingModel { job: Job { method, ..s.job }, ..s };
    let k = before_the_check(s.job.route) as int;
    let (front, rest) = (replies.take(k), replies.skip(k));
    let checked = with_check(s.job.route, front, check);
    let a = run(begun(s), front)->0;
    the_check_is_passed(s, front, check);
    no_error_in_the_setup(begun(s), front);
    runs_go_on(begun(s), front, rest);
    runs_go_on(begun(rsync), checked, rest);
    assert(front + rest == replies);
    assert(checked + rest == with_check(s.job.route, replies, check)) by {
        assert(front.take(k) == front);
        if s.job.route == Route::Download {
            assert(front.len() == 0);
        }
    }
    both_methods_from_here(a, method, rest);
    messages_by_method(run(a, rest)->0, method);
}

proof fn no_error_before(m: TransferModel, reply: ReplyModel)
    requires
        after(m, reply) is Some,
        (after(m, reply)->0).tally.errors.len() == 0,
        m.stage is Setup ==> m.tally.errors.len() == 0,
    ensures
        m.tally.errors.len() == 0,
{
    if !(m.stage is Setup) {
        errors_stay(m, reply);
    }
}

proof fn going_on_by_method(m: TransferModel, method: TransferMethod, reply: ReplyModel)
    requires
        is_behind_the_check(m),
        after(m, reply) is Some,
        m.tally.errors.len() == 0,
        (after(m, reply)->0).tally.errors.len() == 0,
    ensures
        after(by_method(m, method), reply) == Some(by_method(after(m, reply)->0, method)),
        is_behind_the_check(after(m, reply)->0),
{
    if m.stage is Setup {
        setting_up_by_method(m, method, reply);
    } else {
        assert((after(m, reply)->0).tally.errors == m.tally.errors);
        the_method_makes_no_difference(m, method, reply);
        errors_stay(m, reply);
    }
}

proof fn messages_by_method(m: TransferModel, method: TransferMethod)
    ensures
        action_of(m) is Send ==> action_of(by_method(m, method)) == action_of(m),
{
    match m.stage {
        StageModel::Setup(step) => {
            assert(!(setup_action(m, step) is Send));
        },
        StageModel::Work(step) => {
            assert(!(step_action(m, step) is Send));
        },
        _ => {},
    }
}

proof fn the_check_is_passed(s: SettingModel, replies: Seq<ReplyModel>, check: ReplyModel)
    requires
        s.job.method == TransferMethod::Standard,
        check matches ReplyModel::Printed { success, .. } && success,
        replies.len() == before_the_check(s.job.route),
        run(begun(s), replies) is Some,
        (run(begun(s), replies)->0).stage is Setup,
    ensures
        ({
            let rsync = SettingModel { job: Job { method: TransferMethod::Rsync, ..s.job }, ..s };
            let x = run(begun(s), replies)->0;
            &&& run(begun(rsync), with_check(s.job.route, replies, check)) == Some(
                by_method(x, TransferMethod::Rsync),
            )
            &&& is_behind_the_check(x)
        }),
{
    reveal_with_fuel(run, 4);
    let rsync = SettingModel { job: Job { method: TransferMethod::Rsync, ..s.job }, ..s };
    let all = with_check(s.job.route, replies, check);
    if s.job.route == Route::Download {
        assert(begun(rsync) == by_method(begun(s), TransferMethod::Rsync));
    } else {
        assert(replies.take(replies.len() as int) == replies);
        assert(all == replies.push(check));
        assert(all.drop_last() == replies);
        if s.job.route == Route::Relay {
            let first = replies.drop_last();
            assert(first.drop_last() == Seq::<ReplyModel>::empty());
            let a = run(begun(s), first)->0;
            assert(run(begun(s), first) == after(begun(s), first.last()));
        }
    }
}

// ---------------------------------------------------------------------------
// Nothing is left out
// ---------------------------------------------------------------------------

/// A transfer that reports to be finished has dealt with every file: none is
/// counted twice, and each is counted or has a note. Copying on this machine
/// or from a host, and moving on this machine without `rsync`, none is both.
pub proof fn a_finished_transfer_accounts_for_every_file(m: TransferModel)
    requires
        m.wf(),
        action_of(m) is Send,
        action_of(m)->Send_0 is Finished,
    ensures
        ({
            let t = action_of(m)->Send_0->Finished_0;
            &&& t.copied <= m.tasks.len()
            &&& m.tasks.len() <= t.copied + t.skipped.len() + t.errors.len()
            &&& m.is_exact() ==> m.tasks.len() == t.copied + t.skipped.len() + t.errors.len()
        }),
{
}

/// Progress counts from one to the number of files, and never backwards: the
/// next file is the one behind, and the number of files stays.
pub proof fn progress_counts_up(m: TransferModel, reply: ReplyModel)
    requires
        m.wf(),
        m.stage is Report,
    ensures
        match action_of(m) {
            ActionModel::Send(MessageModel::Progress { done, total, .. }) => done == m.at + 1
                && done <= total && total == m.tasks.len(),
            _ => false,
        },
        after(m, reply) is Some,
        (after(m, reply)->0).at == m.at + 1,
        (after(m, reply)->0).tasks == m.tasks,
{
}

/// A transfer that is cancelled touches nothing any more: it reports how far
/// it has got, and is over.
pub proof fn cancelling_stops_before_the_next_file(
    m: TransferModel,
    first: ReplyModel,
    second: ReplyModel,
)
    requires
        m.stage is Poll,
        first == ReplyModel::Told(true),
    ensures
        ({
            let cancelled = after(m, first)->0;
            let over = after(cancelled, second)->0;
            &&& after(m, first) is Some
            &&& action_of(cancelled) == ActionModel::Send(MessageModel::Cancelled(m.tally))
            &&& after(cancelled, second) is Some
            &&& over.stage is Over
            &&& action_of(over) is Stop
        }),
{
}

/// Whether the message is one that ends a transfer.
pub open spec fn is_final(a: ActionModel) -> bool {
    match a {
        ActionModel::Send(MessageModel::Progress { .. }) => false,
        ActionModel::Send(_) => true,
        _ => false,
    }
}

/// Whether a transfer has sent its last message.
pub open spec fn has_told(m: TransferModel) -> bool {
    m.stage is Over || m.stage == StageModel::Tidy(false)
}

/// A transfer ends with one message that says how it went: behind it, no
/// other one is sent.
pub proof fn the_last_message_is_the_last(
    m: TransferModel,
    reply: ReplyModel,
    replies: Seq<ReplyModel>,
)
    requires
        is_final(action_of(m)) || has_told(m),
        after(m, reply) is Some,
    ensures
        run(after(m, reply)->0, replies) is Some,
        has_told(run(after(m, reply)->0, replies)->0),
        !(action_of(run(after(m, reply)->0, replies)->0) is Send),
{
    if !has_told(m) {
        a_final_message_is_told(m, reply);
    } else {
        what_is_told_stays_told(m, reply);
    }
    told_all_the_while(after(m, reply)->0, replies);
}

proof fn a_final_message_is_told(m: TransferModel, reply: ReplyModel)
    requires
        is_final(action_of(m)),
    ensures
        after(m, reply) is Some,
        has_told(after(m, reply)->0),
{
    match m.stage {
        StageModel::Setup(step) => {
            assert(!(setup_action(m, step) is Send));
        },
        StageModel::Work(step) => {
            assert(!(step_action(m, step) is Send));
        },
        _ => {},
    }
}

proof fn what_is_told_stays_told(m: TransferModel, reply: ReplyModel)
    requires
        has_told(m),
    ensures
        after(m, reply) is Some,
        has_told(after(m, reply)->0),
        !(action_of(m) is Send),
{
}

proof fn told_all_the_while(m: TransferModel, replies: Seq<ReplyModel>)
    requires
        has_told(m),
    ensures
        run(m, replies) is Some,
        has_told(run(m, replies)->0),
        !(action_of(run(m, replies)->0) is Send),
    decreases replies.len(),
{
    if replies.len() > 0 {
        told_all_the_while(m, replies.drop_last());
        let x = run(m, replies.drop_last())->0;
        what_is_told_stays_told(x, replies.last());
        what_is_told_stays_told(after(x, replies.last())->0, replies.last());
    } else {
        what_is_told_stays_told(m, ReplyModel::Did);
    }
}

// ---------------------------------------------------------------------------
// Every transfer comes to an end
// ---------------------------------------------------------------------------

/// How far the setup is from the first file; nothing once it is behind.
pub open spec fn phase(m: TransferModel) -> nat {
    match m.stage {
        StageModel::Setup(step) => 1 + setup_distance(m.setting.job, step),
        _ => 0,
    }
}

/// How far a step is from the end of its file, the search for a name included.
pub open spec fn step_left(step: Step) -> nat {
    distance(step) * 0x1_0000_0000 + match step {
        Step::PickName(n) => (u32::MAX - n) as nat,
        _ => 0,
    }
}

/// How far a transfer is from its end, once the setup is behind.
pub open spec fn left(m: TransferModel) -> nat {
    let files = (m.tasks.len() - m.at) as nat;
    match m.stage {
        StageModel::Setup(_) | StageModel::Over => 0,
        StageModel::Poll => 3 + files * 0x11_0000_0000 + 0x10_0000_0000,
        StageModel::Work(step) => 3 + files * 0x11_0000_0000 + step_left(step),
        StageModel::Report => 3 + files * 0x11_0000_0000,
        StageModel::Fail(_, tidy) => if tidy {
            2
        } else {
            1
        },
        StageModel::Tidy(finish) => if finish {
            2
        } else {
            1
        },
        StageModel::Close | StageModel::Cancel => 1,
    }
}

proof fn entering_is_nearer(m: TransferModel, step: Step, bound: nat)
    requires
        m.at < m.tasks.len(),
        step_left(step) < bound,
    ensures
        left(enter_step(m, step)) < 3 + (m.tasks.len() - m.at) * 0x11_0000_0000 + bound,
        phase(enter_step(m, step)) == 0,
{
}

proof fn next_step_is_nearer(m: TransferModel, step: Step, signal: Signal)
    requires
        !(step is End),
        has_next(step, signal),
    ensures
        step_left(next_step(m.file_job(), step, signal)) < step_left(step),
{
    every_answer_brings_the_end_nearer(m.file_job(), step, signal);
}

/// Every reply brings a transfer nearer to its end, so that it comes to one:
/// either the setup goes on, or there is less left of what is behind it.
pub proof fn every_reply_brings_the_end_nearer(m: TransferModel, reply: ReplyModel)
    requires
        m.wf(),
        !(m.stage is Over),
        after(m, reply) is Some,
    ensures
        phase(after(m, reply)->0) < phase(m) || (phase(after(m, reply)->0) == phase(m) && left(
            after(m, reply)->0,
        ) < left(m)),
{
    match m.stage {
        StageModel::Setup(step) => {
            the_setup_ends(m.setting.job, step, true);
            the_setup_ends(m.setting.job, step, false);
            if step == SetupStep::Gather {
                if let Ok(g) = gathered(m.setting, reply) {
                    assert(after(m, reply) == Some(after_gather(m, g)));
                }
            }
        },
        StageModel::Poll => {
            if reply != ReplyModel::Told(true) {
                let goal = goal_of(m)->0;
                let at_it = TransferModel { goal, detail: Seq::empty(), digest: Seq::empty(), ..m };
                let step = first_step(
                    m.file_job(),
                    m.task().plan,
                    is_taken(m),
                    parent(at_it.written()) is Some,
                );
                entering_is_nearer(at_it, step, 0x10_0000_0000);
            }
        },
        StageModel::Work(step) => {
            let signal = heard_in(m, step, reply).0;
            next_step_is_nearer(m, step, signal);
            entering_is_nearer(
                learned(m, step, reply),
                next_step(m.file_job(), step, signal),
                step_left(step),
            );
        },
        _ => {},
    }
}

} // verus!
