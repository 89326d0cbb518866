//! What the steps of a file promise, whatever the world answers.
#![allow(unused_imports)]

use vstd::prelude::*;

use crate::request::ConflictMode;
use crate::steps::{
    begin_carry, first_step, next_step, Job, Leg, Outcome, Plan, Route, Signal, Step,
};

verus! {

/// The step that is reached from `from` by the answers `signals`.
pub open spec fn reached(job: Job, from: Step, signals: Seq<Signal>) -> Step
    decreases signals.len(),
{
    if signals.len() == 0 {
        from
    } else {
        next_step(job, reached(job, from, signals.drop_last()), signals.last())
    }
}

/// Whether the step takes the file away from the source.
pub open spec fn removes_source(step: Step) -> bool {
    step == Step::DropIdentical || step == Step::DropSource || step == Step::Shift
}

/// Whether the step writes or removes what is at the target.
pub open spec fn touches_target(job: Job, step: Step) -> bool {
    match step {
        Step::Shift | Step::DropTarget(_) => true,
        Step::Carry(leg) => job.route != Route::Relay || leg == Leg::Send,
        _ => false,
    }
}

/// Whether the step holds what is at the target against the source.
pub open spec fn verifies_target(job: Job, step: Step) -> bool {
    match step {
        Step::Check => true,
        Step::HashThere(leg) => job.route != Route::Relay || leg == Leg::Send,
        _ => false,
    }
}

/// Whether the answers told, on the way, that the target holds the source.
pub open spec fn target_was_verified(job: Job, from: Step, signals: Seq<Signal>) -> bool {
    exists|k: int|
        0 <= k < signals.len() && signals[k] == Signal::Yes && verifies_target(
            job,
            #[trigger] reached(job, from, signals.take(k)),
        )
}

/// Whether the answers told, on the way, that the source could be renamed to
/// the target.
pub open spec fn source_was_renamed(job: Job, from: Step, signals: Seq<Signal>) -> bool {
    exists|k: int|
        0 <= k < signals.len() && signals[k] == Signal::Yes && #[trigger] reached(
            job,
            from,
            signals.take(k),
        ) == Step::Shift
}

/// Whether the answers told, on the way, that the same file is at the target.
pub open spec fn target_was_identical(job: Job, from: Step, signals: Seq<Signal>) -> bool {
    exists|k: int|
        0 <= k < signals.len() && signals[k] == Signal::Yes && #[trigger] reached(
            job,
            from,
            signals.take(k),
        ) == Step::Compare
}

/// Whether the answers told, on the way, that a stand-in for the target is free.
pub open spec fn name_was_free(job: Job, from: Step, signals: Seq<Signal>) -> bool {
    exists|k: int|
        0 <= k < signals.len() && signals[k] != Signal::Yes && (#[trigger] reached(
            job,
            from,
            signals.take(k),
        )) is PickName
}

/// Whether a step can be the first one of a file.
pub open spec fn is_first(job: Job, from: Step) -> bool {
    exists|plan: Plan, taken: bool, has_parent: bool|
        from == #[trigger] first_step(job, plan, taken, has_parent)
}

// ---------------------------------------------------------------------------
// The source is safe
// ---------------------------------------------------------------------------

proof fn copying_never_removes(job: Job, from: Step, signals: Seq<Signal>)
    requires
        !job.moving,
        !removes_source(from),
        from != Step::Locate,
    ensures
        !removes_source(reached(job, from, signals)),
        reached(job, from, signals) != Step::Locate,
    decreases signals.len(),
{
    if signals.len() > 0 {
        copying_never_removes(job, from, signals.drop_last());
    }
}

/// A copy never takes the file away from the source.
pub proof fn copying_keeps_the_source(job: Job, from: Step, signals: Seq<Signal>)
    requires
        !job.moving,
        is_first(job, from),
    ensures
        !removes_source(reached(job, from, signals)),
{
    copying_never_removes(job, from, signals);
}

/// What was told on the way stays told.
proof fn told_before(job: Job, from: Step, signals: Seq<Signal>)
    requires
        signals.len() > 0,
    ensures
        target_was_verified(job, from, signals.drop_last()) ==> target_was_verified(
            job,
            from,
            signals,
        ),
        target_was_identical(job, from, signals.drop_last()) ==> target_was_identical(
            job,
            from,
            signals,
        ),
        source_was_renamed(job, from, signals.drop_last()) ==> source_was_renamed(
            job,
            from,
            signals,
        ),
        name_was_free(job, from, signals.drop_last()) ==> name_was_free(job, from, signals),
        signals.last() == Signal::Yes && verifies_target(
            job,
            reached(job, from, signals.drop_last()),
        ) ==> target_was_verified(job, from, signals),
        signals.last() == Signal::Yes && reached(job, from, signals.drop_last()) == Step::Compare
            ==> target_was_identical(job, from, signals),
        signals.last() == Signal::Yes && reached(job, from, signals.drop_last()) == Step::Shift
            ==> source_was_renamed(job, from, signals),
        signals.last() != Signal::Yes && reached(job, from, signals.drop_last()) is PickName
            ==> name_was_free(job, from, signals),
{
    let before = signals.drop_last();
    let n = before.len() as int;
    assert forall|k: int| 0 <= k < n implies #[trigger] signals.take(k) == before.take(k)
        && signals[k] == before[k] by {}
    assert(signals.take(n) == before);
    assert(signals[n] == signals.last());
    if target_was_verified(job, from, before) {
        let k = choose|k: int|
            0 <= k < before.len() && before[k] == Signal::Yes && verifies_target(
                job,
                #[trigger] reached(job, from, before.take(k)),
            );
        assert(signals.take(k) == before.take(k));
    }
    if target_was_identical(job, from, before) {
        let k = choose|k: int|
            0 <= k < before.len() && before[k] == Signal::Yes && #[trigger] reached(
                job,
                from,
                before.take(k),
            ) == Step::Compare;
        assert(signals.take(k) == before.take(k));
    }
    if source_was_renamed(job, from, before) {
        let k = choose|k: int|
            0 <= k < before.len() && before[k] == Signal::Yes && #[trigger] reached(
                job,
                from,
                before.take(k),
            ) == Step::Shift;
        assert(signals.take(k) == before.take(k));
    }
    if name_was_free(job, from, before) {
        let k = choose|k: int|
            0 <= k < before.len() && before[k] != Signal::Yes && (#[trigger] reached(
                job,
                from,
                before.take(k),
            )) is PickName;
        assert(signals.take(k) == before.take(k));
    }
    assert(reached(job, from, signals.take(n)) == reached(job, from, before));
}

/// What a step takes for granted, where `verified`, `identical` and `renamed`
/// say what was told on the way to it.
spec fn founded(job: Job, step: Step, verified: bool, identical: bool, renamed: bool) -> bool {
    match step {
        Step::DropSource | Step::End(Outcome::SourceKept) => verified,
        Step::DropStaged(Outcome::Copied) => verified && job.route == Route::Relay,
        Step::DropStaged(outcome) => outcome == Outcome::SendFailed || outcome
            == Outcome::FetchMismatch || outcome == Outcome::FetchUnverified || outcome
            == Outcome::Mismatch || outcome == Outcome::Unverified,
        Step::DropTarget(outcome) => outcome == Outcome::Mismatch,
        Step::Locate | Step::DropIdentical | Step::End(Outcome::IdenticalKept) => identical,
        Step::End(Outcome::Copied) => verified || identical || renamed,
        Step::Carry(Leg::Fetch) | Step::HashHere(Leg::Fetch) | Step::HashThere(Leg::Fetch) =>
        job.route == Route::Download || job.route == Route::Relay,
        _ => true,
    }
}

proof fn founded_goes_on(
    job: Job,
    step: Step,
    signal: Signal,
    verified: bool,
    identical: bool,
    renamed: bool,
)
    requires
        founded(job, step, verified, identical, renamed),
    ensures
        founded(
            job,
            next_step(job, step, signal),
            verified || (signal == Signal::Yes && verifies_target(job, step)),
            identical || (signal == Signal::Yes && step == Step::Compare),
            renamed || (signal == Signal::Yes && step == Step::Shift),
        ),
{
}

proof fn evidence(job: Job, from: Step, signals: Seq<Signal>)
    requires
        is_first(job, from),
    ensures
        founded(
            job,
            reached(job, from, signals),
            target_was_verified(job, from, signals),
            target_was_identical(job, from, signals),
            source_was_renamed(job, from, signals),
        ),
    decreases signals.len(),
{
    if signals.len() > 0 {
        let before = signals.drop_last();
        evidence(job, from, before);
        founded_goes_on(
            job,
            reached(job, from, before),
            signals.last(),
            target_was_verified(job, from, before),
            target_was_identical(job, from, before),
            source_was_renamed(job, from, before),
        );
        told_before(job, from, signals);
    }
}

/// A move removes the source only after the target was verified to hold it,
/// or was found to be identical to it.
pub proof fn the_source_goes_only_when_the_target_holds_it(
    job: Job,
    from: Step,
    signals: Seq<Signal>,
)
    requires
        is_first(job, from),
    ensures
        reached(job, from, signals) == Step::DropSource ==> target_was_verified(job, from, signals),
        reached(job, from, signals) == Step::DropIdentical ==> target_was_identical(
            job,
            from,
            signals,
        ),
{
    evidence(job, from, signals);
}

/// A file counts as copied, or as copied with its source kept, only after the
/// target was verified to hold it, was found to be identical to it, or the file
/// itself was renamed to the target.
pub proof fn nothing_counts_unverified(job: Job, from: Step, signals: Seq<Signal>)
    requires
        is_first(job, from),
        reached(job, from, signals) == Step::End(Outcome::Copied) || reached(job, from, signals)
            == Step::End(Outcome::SourceKept),
    ensures
        target_was_verified(job, from, signals) || target_was_identical(job, from, signals)
            || source_was_renamed(job, from, signals),
{
    evidence(job, from, signals);
}

/// Whether the answers told, on the way, that the source was taken away.
pub open spec fn source_was_taken(job: Job, from: Step, signals: Seq<Signal>) -> bool {
    exists|k: int|
        0 <= k < signals.len() && signals[k] == Signal::Yes && removes_source(
            #[trigger] reached(job, from, signals.take(k)),
        )
}

proof fn taken_goes_on(job: Job, from: Step, signals: Seq<Signal>)
    requires
        signals.len() > 0,
    ensures
        source_was_taken(job, from, signals) <==> source_was_taken(job, from, signals.drop_last())
            || (signals.last() == Signal::Yes && removes_source(
            reached(job, from, signals.drop_last()),
        )),
{
    let before = signals.drop_last();
    let n = before.len() as int;
    assert(signals.take(n) == before);
    if source_was_taken(job, from, before) {
        let k = choose|k: int|
            0 <= k < before.len() && before[k] == Signal::Yes && removes_source(
                #[trigger] reached(job, from, before.take(k)),
            );
        assert(signals.take(k) == before.take(k));
        assert(signals[k] == before[k]);
    }
    if source_was_taken(job, from, signals) {
        let k = choose|k: int|
            0 <= k < signals.len() && signals[k] == Signal::Yes && removes_source(
                #[trigger] reached(job, from, signals.take(k)),
            );
        if k < n {
            assert(signals.take(k) == before.take(k));
            assert(signals[k] == before[k]);
        }
    }
    if signals.last() == Signal::Yes && removes_source(reached(job, from, before)) {
        assert(removes_source(reached(job, from, signals.take(n))));
    }
}

/// In a move on this machine, the source is gone exactly when the file has
/// ended as copied, which is the only end that the standard method counts: at
/// every other end, and all the way until then, no answer told that it was
/// taken away.
pub proof fn the_source_is_gone_exactly_when_it_is_counted(
    job: Job,
    from: Step,
    signals: Seq<Signal>,
)
    requires
        is_first(job, from),
        job.route == Route::Local,
        job.moving,
    ensures
        source_was_taken(job, from, signals) <==> reached(job, from, signals) == Step::End(
            Outcome::Copied,
        ),
    decreases signals.len(),
{
    if signals.len() > 0 {
        let before = signals.drop_last();
        the_source_is_gone_exactly_when_it_is_counted(job, from, before);
        files_keep_to_their_route(job, from, before);
        taken_goes_on(job, from, signals);
        copied_by_taking(job, reached(job, from, before), signals.last());
    }
}

proof fn copied_by_taking(job: Job, step: Step, signal: Signal)
    requires
        step_fits(job, step),
        job.route == Route::Local,
        job.moving,
    ensures
        next_step(job, step, signal) == Step::End(Outcome::Copied) <==> step == Step::End(
            Outcome::Copied,
        ) || (signal == Signal::Yes && removes_source(step)),
{
}

// ---------------------------------------------------------------------------
// A bad copy does not stay
// ---------------------------------------------------------------------------

/// Whether the step is on the way from a mismatch to its end.
pub open spec fn is_mismatch(step: Step) -> bool {
    step == Step::DropStaged(Outcome::Mismatch) || step == Step::DropTarget(Outcome::Mismatch)
        || step == Step::End(Outcome::Mismatch)
}

/// When the target turns out not to hold the source, it is removed, whatever
/// the world answers, and the source stays where it is: two answers later the
/// file has ended as a mismatch, and its removal from the target lies behind it.
pub proof fn a_bad_copy_is_removed_and_the_source_kept(
    job: Job,
    step: Step,
    signals: Seq<Signal>,
)
    requires
        verifies_target(job, step),
    ensures
        ({
            let bad = next_step(job, step, Signal::No);
            &&& bad == Step::DropTarget(Outcome::Mismatch) || (bad == Step::DropStaged(
                Outcome::Mismatch,
            ) && forall|s: Signal| #[trigger]
                next_step(job, bad, s) == Step::DropTarget(Outcome::Mismatch))
            &&& !removes_source(reached(job, bad, signals))
            &&& signals.len() >= 2 ==> reached(job, bad, signals) == Step::End(Outcome::Mismatch)
        }),
    decreases signals.len(),
{
    let bad = next_step(job, step, Signal::No);
    if signals.len() > 0 {
        let before = signals.drop_last();
        a_bad_copy_is_removed_and_the_source_kept(job, step, before);
        mismatch_stays(job, bad, before);
        if signals.len() >= 2 {
            reveal_with_fuel(reached, 3);
            assert(before.len() >= 1);
            if before.len() == 1 {
                assert(before.drop_last().len() == 0);
            }
        }
    }
}

proof fn mismatch_stays(job: Job, from: Step, signals: Seq<Signal>)
    requires
        is_mismatch(from),
    ensures
        is_mismatch(reached(job, from, signals)),
    decreases signals.len(),
{
    if signals.len() > 0 {
        mismatch_stays(job, from, signals.drop_last());
    }
}

// ---------------------------------------------------------------------------
// What is at the target stays, unless it is to be replaced
// ---------------------------------------------------------------------------

proof fn ended_stays(job: Job, outcome: Outcome, signals: Seq<Signal>)
    ensures
        reached(job, Step::End(outcome), signals) == Step::End(outcome),
    decreases signals.len(),
{
    if signals.len() > 0 {
        ended_stays(job, outcome, signals.drop_last());
    }
}

/// Whether the step leads to the end without a write.
pub open spec fn only_ends(step: Step) -> bool {
    step == Step::Compare || step == Step::Locate || step == Step::DropIdentical || step is End
}

proof fn only_ends_stays(job: Job, from: Step, signals: Seq<Signal>)
    requires
        only_ends(from),
        job.conflict == ConflictMode::Skip || from != Step::Compare,
    ensures
        only_ends(reached(job, from, signals)),
        from != Step::Compare ==> reached(job, from, signals) != Step::Compare,
    decreases signals.len(),
{
    if signals.len() > 0 {
        only_ends_stays(job, from, signals.drop_last());
    }
}

/// Where files that exist are to be skipped, nothing is written over a file
/// that is at the target, and nothing there is removed.
pub proof fn skipping_leaves_the_target_alone(job: Job, signals: Seq<Signal>)
    requires
        job.conflict == ConflictMode::Skip,
    ensures
        !touches_target(job, reached(job, next_step(job, Step::Probe, Signal::Yes), signals)),
        forall|has_parent: bool|
            !touches_target(
                job,
                reached(job, #[trigger] first_step(job, Plan::Go, true, has_parent), signals),
            ),
{
    only_ends_stays(job, next_step(job, Step::Probe, Signal::Yes), signals);
    ended_stays(job, Outcome::AlreadyThere, signals);
}

/// A target that is identical to the source is never written or removed.
pub proof fn an_identical_target_is_left_alone(job: Job, signals: Seq<Signal>)
    ensures
        !touches_target(job, reached(job, next_step(job, Step::Compare, Signal::Yes), signals)),
{
    only_ends_stays(job, next_step(job, Step::Compare, Signal::Yes), signals);
}

proof fn no_write_before_a_free_name(job: Job, signals: Seq<Signal>)
    ensures
        reached(job, Step::PickName(1), signals) is PickName || name_was_free(
            job,
            Step::PickName(1),
            signals,
        ),
    decreases signals.len(),
{
    if signals.len() > 0 {
        no_write_before_a_free_name(job, signals.drop_last());
        told_before(job, Step::PickName(1), signals);
    }
}

/// Where a file that is in the way is to be kept beside the new one, nothing
/// is written before a stand-in for the target was found to be free.
pub proof fn renaming_writes_only_free_names(job: Job, from: Step, signals: Seq<Signal>)
    requires
        job.conflict == ConflictMode::Rename,
        from == next_step(job, Step::Compare, Signal::No) || (job.route == Route::Download && from
            == next_step(job, Step::Probe, Signal::Yes)),
        touches_target(job, reached(job, from, signals)),
    ensures
        name_was_free(job, from, signals),
{
    no_write_before_a_free_name(job, signals);
}

// ---------------------------------------------------------------------------
// Existing files, case by case
// ---------------------------------------------------------------------------

/// The table of what happens to a local file: by whether the target exists,
/// whether it is identical, and whether it may be overwritten.
pub proof fn overwrite_table(job: Job)
    requires
        job.route == Route::Local,
    ensures
// Nothing at the target: copy or move normally.

        next_step(job, Step::Probe, Signal::No) == begin_carry(job),
        !job.moving ==> begin_carry(job) == Step::Carry(Leg::Send),
        job.moving ==> begin_carry(job) == Step::Shift,
        // The same bytes at the target: a copy skips them, and a move removes the
        // source only, unless the target is the source itself.
        next_step(job, Step::Probe, Signal::Yes) == Step::Compare,
        !job.moving ==> next_step(job, Step::Compare, Signal::Yes) == Step::End(Outcome::Identical),
        job.moving ==> next_step(job, Step::Compare, Signal::Yes) == Step::Locate && next_step(
            job,
            Step::Locate,
            Signal::No,
        ) == Step::DropIdentical && next_step(job, Step::DropIdentical, Signal::Yes) == Step::End(
            Outcome::Copied,
        ) && next_step(job, Step::Locate, Signal::Yes) == Step::End(Outcome::Identical),
        // Another file at the target: it is overwritten, or it stays.
        job.conflict == ConflictMode::Overwrite ==> next_step(job, Step::Compare, Signal::No)
            == begin_carry(job),
        job.conflict == ConflictMode::Skip ==> next_step(job, Step::Compare, Signal::No)
            == Step::End(Outcome::Differs),
        job.conflict == ConflictMode::Rename ==> next_step(job, Step::Compare, Signal::No)
            == Step::PickName(1),
{
}

// ---------------------------------------------------------------------------
// Every route has its steps
// ---------------------------------------------------------------------------

/// Whether a step can come up at all on a route.
pub open spec fn step_fits(job: Job, step: Step) -> bool {
    match step {
        Step::MakeParent => job.route != Route::Upload,
        Step::Probe | Step::PickName(_) => job.route == Route::Local || job.route
            == Route::Download,
        Step::Compare | Step::Check => job.route == Route::Local,
        Step::Locate | Step::DropIdentical | Step::Shift => job.route == Route::Local
            && job.moving,
        Step::Carry(Leg::Fetch) => job.route == Route::Download || job.route == Route::Relay,
        Step::Carry(Leg::Send) => job.route != Route::Download,
        Step::HashHere(Leg::Fetch) | Step::HashThere(Leg::Fetch) => job.route == Route::Download
            || job.route == Route::Relay,
        Step::HashHere(Leg::Send) | Step::HashThere(Leg::Send) => job.route == Route::Upload
            || job.route == Route::Relay,
        Step::DropStaged(outcome) => job.route == Route::Relay && outcome != Outcome::SourceKept,
        Step::DropSource => job.moving,
        Step::DropTarget(outcome) => outcome == Outcome::Mismatch,
        Step::End(_) => true,
    }
}

/// A file takes the steps of its route only: bytes are compared on this
/// machine and hashed where a host is involved, staging is for files that go
/// from host to host, and only what is moved is taken from its source.
pub proof fn files_keep_to_their_route(job: Job, from: Step, signals: Seq<Signal>)
    requires
        is_first(job, from),
    ensures
        step_fits(job, from),
        step_fits(job, reached(job, from, signals)),
    decreases signals.len(),
{
    if signals.len() > 0 {
        files_keep_to_their_route(job, from, signals.drop_last());
        next_step_fits(job, reached(job, from, signals.drop_last()), signals.last());
    }
}

/// A step of the route is followed by one.
pub proof fn next_step_fits(job: Job, step: Step, signal: Signal)
    requires
        step_fits(job, step),
    ensures
        step_fits(job, next_step(job, step, signal)),
{
}

// ---------------------------------------------------------------------------
// Every file comes to an end
// ---------------------------------------------------------------------------

/// How far a step is from the end at most, the search for a name aside.
pub open spec fn distance(step: Step) -> nat {
    match step {
        Step::MakeParent => 14,
        Step::Probe => 13,
        Step::Compare => 12,
        Step::PickName(_) => 11,
        Step::Shift => 10,
        Step::Carry(Leg::Fetch) => 9,
        Step::HashHere(Leg::Fetch) => 8,
        Step::HashThere(Leg::Fetch) => 7,
        Step::Carry(Leg::Send) => 6,
        Step::Check => 5,
        Step::HashHere(Leg::Send) => 5,
        Step::HashThere(Leg::Send) => 4,
        Step::DropStaged(_) => 3,
        Step::DropTarget(_) => 2,
        Step::DropSource => 1,
        Step::Locate => 2,
        Step::DropIdentical => 1,
        Step::End(_) => 0,
    }
}

/// Every answer brings a file nearer to its end, except that one name after
/// another may turn out to be taken.
pub proof fn every_answer_brings_the_end_nearer(job: Job, step: Step, signal: Signal)
    requires
        !(step is End),
    ensures
        distance(next_step(job, step, signal)) < distance(step) || (step is PickName && signal
            == Signal::Yes),
{
}

/// A file has ended after as many answers as it was away from the end, where
/// none of them told that a stand-in is taken.
pub proof fn a_file_ends(job: Job, from: Step, signals: Seq<Signal>)
    requires
        forall|k: int|
            0 <= k < signals.len() && (#[trigger] reached(job, from, signals.take(k))) is PickName
                ==> signals[k] != Signal::Yes,
        signals.len() >= distance(from),
    ensures
        reached(job, from, signals) is End,
{
    distance_shrinks(job, from, signals);
}

proof fn distance_shrinks(job: Job, from: Step, signals: Seq<Signal>)
    requires
        forall|k: int|
            0 <= k < signals.len() && (#[trigger] reached(job, from, signals.take(k))) is PickName
                ==> signals[k] != Signal::Yes,
    ensures
        distance(reached(job, from, signals)) + signals.len() <= distance(from) || reached(
            job,
            from,
            signals,
        ) is End,
    decreases signals.len(),
{
    if signals.len() > 0 {
        let before = signals.drop_last();
        let n = before.len() as int;
        assert forall|k: int|
            0 <= k < before.len() && (#[trigger] reached(job, from, before.take(k))) is PickName
            implies before[k] != Signal::Yes by {
            assert(signals.take(k) == before.take(k));
        }
        distance_shrinks(job, from, before);
        assert(signals.take(n) == before);
        assert(reached(job, from, signals.take(n)) == reached(job, from, before));
        if !(reached(job, from, before) is End) {
            every_answer_brings_the_end_nearer(job, reached(job, from, before), signals.last());
        }
    }
}

} // verus!
