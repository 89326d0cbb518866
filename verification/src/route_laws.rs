//! How a file fares on each route: by which steps it arrives, what stops it, and
//! what a name that is taken means.
#![allow(unused_imports)]

use vstd::prelude::*;

use crate::request::ConflictMode;
use crate::step_laws::{is_first, reached};
use crate::steps::{first_step, next_step, Job, Leg, Outcome, Plan, Route, Signal, Step};

verus! {

// ---------------------------------------------------------------------------
// Names that are taken
// ---------------------------------------------------------------------------

/// Whether a step leaves the target to what was there before.
pub open spec fn gives_way(step: Step) -> bool {
    match step {
        Step::End(outcome) | Step::DropStaged(outcome) | Step::DropTarget(outcome) => outcome
            == Outcome::AlreadyThere || outcome == Outcome::Differs,
        _ => false,
    }
}

/// Where what is at the target is to be overwritten, no route leaves a file out
/// for what is there: a target that is taken is dealt with as one that is free,
/// and no answer ever leads to an end that leaves the target to another file.
pub proof fn overwriting_never_skips(
    job: Job,
    taken: bool,
    has_parent: bool,
    from: Step,
    signals: Seq<Signal>,
)
    requires
        job.conflict == ConflictMode::Overwrite,
        is_first(job, from),
    ensures
        first_step(job, Plan::Go, taken, has_parent) == first_step(
            job,
            Plan::Go,
            false,
            has_parent,
        ),
        first_step(job, Plan::Go, taken, has_parent) != Step::End(Outcome::AlreadyThere),
        job.route == Route::Download ==> next_step(job, Step::Probe, Signal::Yes) == Step::Carry(
            Leg::Fetch,
        ) && next_step(job, Step::Probe, Signal::No) == Step::Carry(Leg::Fetch),
        job.route == Route::Local ==> next_step(job, Step::Compare, Signal::No) == next_step(
            job,
            Step::Probe,
            Signal::No,
        ),
        job.route == Route::Local ==> next_step(job, Step::Compare, Signal::No) == (if job.moving {
            Step::Shift
        } else {
            Step::Carry(Leg::Send)
        }),
        reached(job, from, signals) != Step::End(Outcome::AlreadyThere),
        reached(job, from, signals) != Step::End(Outcome::Differs),
{
    nothing_gives_way(job, from, signals);
}

proof fn nothing_gives_way(job: Job, from: Step, signals: Seq<Signal>)
    requires
        job.conflict == ConflictMode::Overwrite,
        !gives_way(from),
    ensures
        !gives_way(reached(job, from, signals)),
    decreases signals.len(),
{
    if signals.len() > 0 {
        nothing_gives_way(job, from, signals.drop_last());
    }
}

/// Where files that are there are skipped, a name that is taken ends the file at
/// once, on every route, and so does a target that is found; a name that is free
/// is dealt with as anywhere.
pub proof fn skipping_ends_at_a_taken_name(job: Job, has_parent: bool)
    requires
        job.conflict == ConflictMode::Skip,
    ensures
        first_step(job, Plan::Go, true, has_parent) == Step::End(Outcome::AlreadyThere),
        first_step(job, Plan::Go, false, has_parent) == first_step(
            Job { conflict: ConflictMode::Overwrite, ..job },
            Plan::Go,
            false,
            has_parent,
        ),
        job.route == Route::Download ==> next_step(job, Step::Probe, Signal::Yes) == Step::End(
            Outcome::AlreadyThere,
        ),
        job.route == Route::Local ==> next_step(job, Step::Compare, Signal::No) == Step::End(
            Outcome::Differs,
        ),
{
}

/// Where files are renamed, a target that is found, and on this machine differs,
/// leads to the first stand-in, a stand-in that is taken to the next, and one
/// that is free to what a free target leads to.
pub proof fn renaming_tries_one_name_after_the_other(job: Job, n: u32, has_parent: bool)
    requires
        job.conflict == ConflictMode::Rename,
        n < u32::MAX,
    ensures
        first_step(job, Plan::Go, true, has_parent) == first_step(job, Plan::Go, false, has_parent),
        first_step(job, Plan::Go, true, has_parent) != Step::End(Outcome::AlreadyThere),
        job.route == Route::Download ==> next_step(job, Step::Probe, Signal::Yes)
            == Step::PickName(1),
        job.route == Route::Local ==> next_step(job, Step::Compare, Signal::No) == Step::PickName(
            1,
        ),
        next_step(job, Step::PickName(n), Signal::Yes) == Step::PickName((n + 1) as u32),
        next_step(job, Step::PickName(n), Signal::No) == next_step(
            Job { conflict: ConflictMode::Overwrite, ..job },
            Step::Probe,
            Signal::No,
        ) || job.route == Route::Upload || job.route == Route::Relay,
        next_step(job, Step::PickName(n), Signal::Failed) == next_step(
            job,
            Step::PickName(n),
            Signal::No,
        ),
{
}

/// A file that has no place is not begun with, whatever the job.
pub proof fn files_without_a_place_end_at_once(job: Job, taken: bool, has_parent: bool)
    ensures
        first_step(job, Plan::OutsideSource, taken, has_parent) == Step::End(
            Outcome::OutsideSource,
        ),
        first_step(job, Plan::NoName, taken, has_parent) == Step::End(Outcome::NoName),
{
}

// ---------------------------------------------------------------------------
// On this machine
// ---------------------------------------------------------------------------

/// On this machine a file goes into its directory, which is made first. A free
/// target is written; one that holds the same file is left, and the source goes
/// if it is another file that was to move.
pub proof fn files_here_go_by_these_steps(job: Job, taken: bool)
    requires
        job.route == Route::Local,
        !(taken && job.conflict == ConflictMode::Skip),
    ensures
        first_step(job, Plan::Go, taken, true) == Step::MakeParent,
        first_step(job, Plan::Go, taken, false) == Step::Probe,
        next_step(job, Step::MakeParent, Signal::Yes) == Step::Probe,
        next_step(job, Step::Probe, Signal::No) == (if job.moving {
            Step::Shift
        } else {
            Step::Carry(Leg::Send)
        }),
        next_step(job, Step::Probe, Signal::Yes) == Step::Compare,
        next_step(job, Step::Compare, Signal::Yes) == (if job.moving {
            Step::Locate
        } else {
            Step::End(Outcome::Identical)
        }),
        next_step(job, Step::Locate, Signal::Yes) == Step::End(Outcome::Identical),
        next_step(job, Step::Locate, Signal::No) == Step::DropIdentical,
        next_step(job, Step::DropIdentical, Signal::Yes) == Step::End(Outcome::Copied),
        next_step(job, Step::Shift, Signal::Yes) == Step::End(Outcome::Copied),
        next_step(job, Step::Shift, Signal::No) == Step::Carry(Leg::Send),
        next_step(job, Step::Shift, Signal::Failed) == Step::Carry(Leg::Send),
        next_step(job, Step::Carry(Leg::Send), Signal::Yes) == Step::Check,
        next_step(job, Step::Check, Signal::Yes) == (if job.moving {
            Step::DropSource
        } else {
            Step::End(Outcome::Copied)
        }),
        next_step(job, Step::DropSource, Signal::Yes) == Step::End(Outcome::Copied),
{
}

/// What goes wrong on this machine ends the file with what went wrong; only a
/// copy that differs from the source is removed.
pub proof fn what_goes_wrong_here_ends_the_file(job: Job, s: Signal)
    requires
        job.route == Route::Local,
        s != Signal::Yes,
    ensures
        next_step(job, Step::MakeParent, s) == Step::End(Outcome::ParentFailed),
        next_step(job, Step::Probe, Signal::Failed) == next_step(job, Step::Probe, Signal::No),
        next_step(job, Step::Compare, Signal::Failed) == Step::End(Outcome::CompareFailed),
        next_step(job, Step::Locate, Signal::Failed) == Step::End(Outcome::IdenticalKept),
        next_step(job, Step::DropIdentical, s) == Step::End(Outcome::IdenticalKept),
        next_step(job, Step::Carry(Leg::Send), Signal::No) == Step::End(Outcome::Refused),
        next_step(job, Step::Carry(Leg::Send), Signal::Failed) == Step::End(Outcome::CarryFailed),
        next_step(job, Step::Check, Signal::No) == Step::DropTarget(Outcome::Mismatch),
        next_step(job, Step::Check, Signal::Failed) == Step::End(Outcome::Unverified),
        next_step(job, Step::DropSource, s) == Step::End(Outcome::SourceKept),
        forall|t: Signal, o: Outcome| #[trigger]
            next_step(job, Step::DropTarget(o), t) == Step::End(o),
{
}

// ---------------------------------------------------------------------------
// To a host
// ---------------------------------------------------------------------------

/// To a host a file is sent at once; it has arrived when it has the same hash at
/// both ends, and then the source goes if the file was to move.
pub proof fn uploads_go_by_these_steps(job: Job, taken: bool, has_parent: bool)
    requires
        job.route == Route::Upload,
        !(taken && job.conflict == ConflictMode::Skip),
    ensures
        first_step(job, Plan::Go, taken, has_parent) == Step::Carry(Leg::Send),
        next_step(job, Step::Carry(Leg::Send), Signal::Yes) == Step::HashHere(Leg::Send),
        next_step(job, Step::HashHere(Leg::Send), Signal::Yes) == Step::HashThere(Leg::Send),
        next_step(job, Step::HashThere(Leg::Send), Signal::Yes) == (if job.moving {
            Step::DropSource
        } else {
            Step::End(Outcome::Copied)
        }),
        next_step(job, Step::DropSource, Signal::Yes) == Step::End(Outcome::Copied),
{
}

/// What goes wrong on the way to a host ends the file with what went wrong; only
/// a copy that differs from the source is removed.
pub proof fn what_goes_wrong_on_an_upload_ends_the_file(job: Job, s: Signal)
    requires
        job.route == Route::Upload,
        s != Signal::Yes,
    ensures
        next_step(job, Step::Carry(Leg::Send), Signal::No) == Step::End(Outcome::Refused),
        next_step(job, Step::Carry(Leg::Send), Signal::Failed) == Step::End(Outcome::CarryFailed),
        next_step(job, Step::HashHere(Leg::Send), s) == Step::End(Outcome::Unverified),
        next_step(job, Step::HashThere(Leg::Send), Signal::No) == Step::DropTarget(
            Outcome::Mismatch,
        ),
        next_step(job, Step::HashThere(Leg::Send), Signal::Failed) == Step::End(
            Outcome::Unverified,
        ),
        next_step(job, Step::DropSource, s) == Step::End(Outcome::SourceKept),
        forall|t: Signal, o: Outcome| #[trigger]
            next_step(job, Step::DropTarget(o), t) == Step::End(o),
{
}

// ---------------------------------------------------------------------------
// From a host
// ---------------------------------------------------------------------------

/// From a host a file is fetched into its directory, which is made first; it has
/// arrived when it has the same hash at both ends, and then the source goes if
/// the file was to move.
pub proof fn downloads_go_by_these_steps(job: Job, taken: bool)
    requires
        job.route == Route::Download,
        !(taken && job.conflict == ConflictMode::Skip),
    ensures
        first_step(job, Plan::Go, taken, true) == Step::MakeParent,
        first_step(job, Plan::Go, taken, false) == Step::Probe,
        next_step(job, Step::MakeParent, Signal::Yes) == Step::Probe,
        next_step(job, Step::Probe, Signal::No) == Step::Carry(Leg::Fetch),
        next_step(job, Step::Probe, Signal::Failed) == Step::Carry(Leg::Fetch),
        next_step(job, Step::Carry(Leg::Fetch), Signal::Yes) == Step::HashHere(Leg::Fetch),
        next_step(job, Step::HashHere(Leg::Fetch), Signal::Yes) == Step::HashThere(Leg::Fetch),
        next_step(job, Step::HashThere(Leg::Fetch), Signal::Yes) == (if job.moving {
            Step::DropSource
        } else {
            Step::End(Outcome::Copied)
        }),
        next_step(job, Step::DropSource, Signal::Yes) == Step::End(Outcome::Copied),
{
}

/// What goes wrong on the way from a host ends the file with what went wrong;
/// only a copy that differs from the source is removed.
pub proof fn what_goes_wrong_on_a_download_ends_the_file(job: Job, s: Signal)
    requires
        job.route == Route::Download,
        s != Signal::Yes,
    ensures
        next_step(job, Step::MakeParent, s) == Step::End(Outcome::ParentFailed),
        next_step(job, Step::Carry(Leg::Fetch), s) == Step::End(Outcome::FetchFailed),
        next_step(job, Step::HashHere(Leg::Fetch), s) == Step::End(Outcome::Unverified),
        next_step(job, Step::HashThere(Leg::Fetch), Signal::No) == Step::DropTarget(
            Outcome::Mismatch,
        ),
        next_step(job, Step::HashThere(Leg::Fetch), Signal::Failed) == Step::End(
            Outcome::Unverified,
        ),
        next_step(job, Step::DropSource, s) == Step::End(Outcome::SourceKept),
        forall|t: Signal, o: Outcome| #[trigger]
            next_step(job, Step::DropTarget(o), t) == Step::End(o),
{
}

// ---------------------------------------------------------------------------
// From one host to another
// ---------------------------------------------------------------------------

/// From one host to another a file is fetched and sent, and its hashes are
/// compared on both ways. What was staged is removed before the source goes.
pub proof fn relays_go_by_these_steps(job: Job, taken: bool, s: Signal)
    requires
        job.route == Route::Relay,
        !(taken && job.conflict == ConflictMode::Skip),
    ensures
        first_step(job, Plan::Go, taken, true) == Step::MakeParent,
        first_step(job, Plan::Go, taken, false) == Step::Carry(Leg::Fetch),
        next_step(job, Step::MakeParent, Signal::Yes) == Step::Carry(Leg::Fetch),
        next_step(job, Step::Carry(Leg::Fetch), Signal::Yes) == Step::HashHere(Leg::Fetch),
        next_step(job, Step::HashHere(Leg::Fetch), Signal::Yes) == Step::HashThere(Leg::Fetch),
        next_step(job, Step::HashThere(Leg::Fetch), Signal::Yes) == Step::Carry(Leg::Send),
        next_step(job, Step::Carry(Leg::Send), Signal::Yes) == Step::HashHere(Leg::Send),
        next_step(job, Step::HashHere(Leg::Send), Signal::Yes) == Step::HashThere(Leg::Send),
        next_step(job, Step::HashThere(Leg::Send), Signal::Yes) == Step::DropStaged(
            Outcome::Copied,
        ),
        next_step(job, Step::DropStaged(Outcome::Copied), s) == (if job.moving {
            Step::DropSource
        } else {
            Step::End(Outcome::Copied)
        }),
        next_step(job, Step::DropSource, Signal::Yes) == Step::End(Outcome::Copied),
{
}

/// What goes wrong between two hosts ends the file with what went wrong, once
/// what was staged is removed; only a copy that differs from the source is
/// removed from the target.
pub proof fn what_goes_wrong_on_a_relay_ends_the_file(job: Job, s: Signal)
    requires
        job.route == Route::Relay,
        s != Signal::Yes,
    ensures
        next_step(job, Step::MakeParent, s) == Step::End(Outcome::ParentFailed),
        next_step(job, Step::Carry(Leg::Fetch), s) == Step::End(Outcome::FetchFailed),
        next_step(job, Step::HashHere(Leg::Fetch), s) == Step::DropStaged(
            Outcome::FetchUnverified,
        ),
        next_step(job, Step::HashThere(Leg::Fetch), Signal::No) == Step::DropStaged(
            Outcome::FetchMismatch,
        ),
        next_step(job, Step::HashThere(Leg::Fetch), Signal::Failed) == Step::DropStaged(
            Outcome::FetchUnverified,
        ),
        next_step(job, Step::Carry(Leg::Send), s) == Step::DropStaged(Outcome::SendFailed),
        next_step(job, Step::HashHere(Leg::Send), s) == Step::DropStaged(Outcome::Unverified),
        next_step(job, Step::HashThere(Leg::Send), Signal::No) == Step::DropStaged(
            Outcome::Mismatch,
        ),
        next_step(job, Step::HashThere(Leg::Send), Signal::Failed) == Step::DropStaged(
            Outcome::Unverified,
        ),
        next_step(job, Step::DropSource, s) == Step::End(Outcome::SourceKept),
        forall|t: Signal| #[trigger]
            next_step(job, Step::DropStaged(Outcome::Mismatch), t) == Step::DropTarget(
                Outcome::Mismatch,
            ),
        forall|t: Signal, o: Outcome|
            o != Outcome::Copied && o != Outcome::Mismatch ==> #[trigger] next_step(
                job,
                Step::DropStaged(o),
                t,
            ) == Step::End(o),
        forall|t: Signal, o: Outcome| #[trigger]
            next_step(job, Step::DropTarget(o), t) == Step::End(o),
{
}

/// A file that has ended stays as it ended.
pub proof fn the_end_is_the_end(job: Job, o: Outcome, s: Signal)
    ensures
        next_step(job, Step::End(o), s) == Step::End(o),
{
}

} // verus!
