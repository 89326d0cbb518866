//! The steps by which one file gets from its source to its target. What the
//! world answers to a step is a signal; the signal decides the next step.

use vstd::prelude::*;

use crate::request::{ConflictMode, TransferMethod};

verus! {

/// Which of the two ends are on another machine.
#[derive(Clone, Copy, PartialEq, Eq, Structural, Debug)]
pub enum Route {
    /// Both ends are here.
    Local,
    /// The target is on a host.
    Upload,
    /// The source is on a host.
    Download,
    /// Both ends are on hosts; the file is staged here on its way.
    Relay,
}

/// What holds of every file of a transfer.
#[derive(Clone, Copy, PartialEq, Eq, Structural, Debug)]
pub struct Job {
    pub route: Route,
    pub method: TransferMethod,
    pub moving: bool,
    pub conflict: ConflictMode,
}

/// One of the two ways over the network: from the source, or to the target.
#[derive(Clone, Copy, PartialEq, Eq, Structural, Debug)]
pub enum Leg {
    Fetch,
    Send,
}

/// How a file fared.
#[derive(Clone, Copy, PartialEq, Eq, Structural, Debug)]
pub enum Outcome {
    /// The file is at the target, and gone from the source where it was to move.
    Copied,
    /// The file does not lie in the source directory.
    OutsideSource,
    /// The path of the file does not end in a name.
    NoName,
    /// The same file is at the target already.
    Identical,
    /// Another file is at the target, and stays there.
    Differs,
    /// A file is at the target, and stays there.
    AlreadyThere,
    /// The directory to write in could not be made.
    ParentFailed,
    /// The same file is at the target, but the source could not be removed.
    IdenticalKept,
    /// The file at the target could not be compared with the source.
    CompareFailed,
    /// The program that moves the bytes could not do its work.
    CarryFailed,
    /// The program that moves the bytes ended with an exit code.
    Refused,
    /// The file did not arrive from the source.
    FetchFailed,
    /// What arrived from the source is not the source.
    FetchMismatch,
    /// What arrived from the source could not be verified.
    FetchUnverified,
    /// The file did not get to the target.
    SendFailed,
    /// What is at the target is not the source; it was removed.
    Mismatch,
    /// What is at the target could not be verified.
    Unverified,
    /// The file is at the target, but the source could not be removed.
    SourceKept,
}

/// What is done next for a file.
#[derive(Clone, Copy, PartialEq, Eq, Structural, Debug)]
pub enum Step {
    /// Make the directory that the file is written in.
    MakeParent,
    /// See whether something is at the target.
    Probe,
    /// Compare what is at the target with the source.
    Compare,
    /// See whether the target, which is identical, is the source itself.
    Locate,
    /// Remove the source, which is at the target already.
    DropIdentical,
    /// See whether this stand-in for the target is taken.
    PickName(u32),
    /// Rename the source to the target.
    Shift,
    /// Have the bytes moved.
    Carry(Leg),
    /// Compare what was written with the source.
    Check,
    /// Hash the file on this machine.
    HashHere(Leg),
    /// Hash the file on the host, and compare the hashes.
    HashThere(Leg),
    /// Remove the file that was staged here.
    DropStaged(Outcome),
    /// Remove what was written at the target.
    DropTarget(Outcome),
    /// Remove the source, which is at the target and verified.
    DropSource,
    /// Nothing is left to do.
    End(Outcome),
}

/// What the world answers: it is so, or it was done; it is not so, or it was
/// declined; or the question could not be put.
#[derive(Clone, Copy, PartialEq, Eq, Structural, Debug)]
pub enum Signal {
    Yes,
    No,
    Failed,
}

/// What begins a file whose target is settled.
pub open spec fn begin_carry(job: Job) -> Step {
    match job.route {
        Route::Local => if job.moving {
            Step::Shift
        } else {
            Step::Carry(Leg::Send)
        },
        Route::Upload => Step::Carry(Leg::Send),
        Route::Download | Route::Relay => Step::Carry(Leg::Fetch),
    }
}

/// What is known of a file before anything is done for it.
#[derive(Clone, Copy, PartialEq, Eq, Structural, Debug)]
pub enum Plan {
    /// It has a target.
    Go,
    /// It does not lie in the source directory.
    OutsideSource,
    /// Its path does not end in a name.
    NoName,
}

/// What begins a file: `taken` says whether a file of the target's name was
/// on the host before the transfer, `has_parent` whether the path that is
/// written here lies in a directory.
pub open spec fn first_step(job: Job, plan: Plan, taken: bool, has_parent: bool) -> Step {
    match plan {
        Plan::OutsideSource => Step::End(Outcome::OutsideSource),
        Plan::NoName => Step::End(Outcome::NoName),
        Plan::Go => if taken && job.conflict == ConflictMode::Skip {
            Step::End(Outcome::AlreadyThere)
        } else if job.route == Route::Upload {
            begin_carry(job)
        } else if has_parent {
            Step::MakeParent
        } else {
            next_step(job, Step::MakeParent, Signal::Yes)
        },
    }
}

/// What follows when something else is at the target.
pub open spec fn on_conflict(job: Job, skipped: Outcome) -> Step {
    match job.conflict {
        ConflictMode::Skip => Step::End(skipped),
        ConflictMode::Rename => Step::PickName(1),
        ConflictMode::Overwrite => begin_carry(job),
    }
}

/// What follows when the file is at the target and verified.
pub open spec fn on_verified(job: Job) -> Step {
    if job.moving {
        Step::DropSource
    } else {
        Step::End(Outcome::Copied)
    }
}

/// What follows when a leg could not be travelled.
pub open spec fn on_lost(job: Job, leg: Leg, here: Outcome) -> Step {
    match (job.route, leg) {
        (Route::Local, _) | (Route::Upload, _) => Step::End(here),
        (Route::Download, _) | (Route::Relay, Leg::Fetch) => Step::End(Outcome::FetchFailed),
        (Route::Relay, Leg::Send) => Step::DropStaged(Outcome::SendFailed),
    }
}

/// What follows when the hashes at both ends of a leg are the same.
pub open spec fn on_same_hash(job: Job, leg: Leg) -> Step {
    match (job.route, leg) {
        (Route::Relay, Leg::Fetch) => Step::Carry(Leg::Send),
        (Route::Relay, Leg::Send) => Step::DropStaged(Outcome::Copied),
        _ => on_verified(job),
    }
}

/// What follows when the hashes at both ends of a leg are not the same.
pub open spec fn on_other_hash(job: Job, leg: Leg) -> Step {
    match (job.route, leg) {
        (Route::Relay, Leg::Fetch) => Step::DropStaged(Outcome::FetchMismatch),
        (Route::Relay, Leg::Send) => Step::DropStaged(Outcome::Mismatch),
        _ => Step::DropTarget(Outcome::Mismatch),
    }
}

/// What follows when a hash could not be had.
pub open spec fn on_no_hash(job: Job, leg: Leg) -> Step {
    match (job.route, leg) {
        (Route::Relay, Leg::Fetch) => Step::DropStaged(Outcome::FetchUnverified),
        (Route::Relay, Leg::Send) => Step::DropStaged(Outcome::Unverified),
        _ => Step::End(Outcome::Unverified),
    }
}

/// The step that follows a step and the answer to it.
pub open spec fn next_step(job: Job, step: Step, signal: Signal) -> Step {
    match step {
        Step::MakeParent => match (signal, job.route) {
            (Signal::Yes, Route::Relay) => begin_carry(job),
            (Signal::Yes, _) => Step::Probe,
            _ => Step::End(Outcome::ParentFailed),
        },
        Step::Probe => match (signal, job.route) {
            (Signal::Yes, Route::Local) => Step::Compare,
            (Signal::Yes, _) => on_conflict(job, Outcome::AlreadyThere),
            _ => begin_carry(job),
        },
        Step::Compare => match signal {
            Signal::Yes => if job.moving {
                Step::Locate
            } else {
                Step::End(Outcome::Identical)
            },
            Signal::No => on_conflict(job, Outcome::Differs),
            Signal::Failed => Step::End(Outcome::CompareFailed),
        },
        Step::Locate => match signal {
            Signal::Yes => Step::End(Outcome::Identical),
            Signal::No => Step::DropIdentical,
            Signal::Failed => Step::End(Outcome::IdenticalKept),
        },
        Step::DropIdentical => match signal {
            Signal::Yes => Step::End(Outcome::Copied),
            _ => Step::End(Outcome::IdenticalKept),
        },
        Step::PickName(n) => match signal {
            Signal::Yes => Step::PickName((n + 1) as u32),
            _ => begin_carry(job),
        },
        Step::Shift => match signal {
            Signal::Yes => Step::End(Outcome::Copied),
            _ => Step::Carry(Leg::Send),
        },
        Step::Carry(leg) => match signal {
            Signal::Yes => match job.route {
                Route::Local => Step::Check,
                _ => Step::HashHere(leg),
            },
            Signal::No => on_lost(job, leg, Outcome::Refused),
            Signal::Failed => on_lost(job, leg, Outcome::CarryFailed),
        },
        Step::Check => match signal {
            Signal::Yes => on_verified(job),
            Signal::No => Step::DropTarget(Outcome::Mismatch),
            Signal::Failed => Step::End(Outcome::Unverified),
        },
        Step::HashHere(leg) => match signal {
            Signal::Yes => Step::HashThere(leg),
            _ => on_no_hash(job, leg),
        },
        Step::HashThere(leg) => match signal {
            Signal::Yes => on_same_hash(job, leg),
            Signal::No => on_other_hash(job, leg),
            Signal::Failed => on_no_hash(job, leg),
        },
        Step::DropStaged(outcome) => match outcome {
            Outcome::Copied => on_verified(job),
            Outcome::Mismatch => Step::DropTarget(Outcome::Mismatch),
            _ => Step::End(outcome),
        },
        Step::DropTarget(outcome) => Step::End(outcome),
        Step::DropSource => match signal {
            Signal::Yes => Step::End(Outcome::Copied),
            _ => Step::End(Outcome::SourceKept),
        },
        Step::End(outcome) => Step::End(outcome),
    }
}

/// Whether a number is left to try behind this step and the answer to it.
pub open spec fn has_next(step: Step, signal: Signal) -> bool {
    !(step == Step::PickName(u32::MAX) && signal == Signal::Yes)
}

fn carry_begun(job: Job) -> (s: Step)
    ensures
        s == begin_carry(job),
{
    match job.route {
        Route::Local => if job.moving {
            Step::Shift
        } else {
            Step::Carry(Leg::Send)
        },
        Route::Upload => Step::Carry(Leg::Send),
        Route::Download | Route::Relay => Step::Carry(Leg::Fetch),
    }
}

fn conflict_met(job: Job, skipped: Outcome) -> (s: Step)
    ensures
        s == on_conflict(job, skipped),
{
    match job.conflict {
        ConflictMode::Skip => Step::End(skipped),
        ConflictMode::Rename => Step::PickName(1),
        ConflictMode::Overwrite => carry_begun(job),
    }
}

fn verified(job: Job) -> (s: Step)
    ensures
        s == on_verified(job),
{
    if job.moving {
        Step::DropSource
    } else {
        Step::End(Outcome::Copied)
    }
}

fn lost(job: Job, leg: Leg, here: Outcome) -> (s: Step)
    ensures
        s == on_lost(job, leg, here),
{
    match (job.route, leg) {
        (Route::Local, _) | (Route::Upload, _) => Step::End(here),
        (Route::Download, _) | (Route::Relay, Leg::Fetch) => Step::End(Outcome::FetchFailed),
        (Route::Relay, Leg::Send) => Step::DropStaged(Outcome::SendFailed),
    }
}

fn hashes_compared(job: Job, leg: Leg, signal: Signal) -> (s: Step)
    ensures
        s == next_step(job, Step::HashThere(leg), signal),
{
    match (job.route, leg) {
        (Route::Relay, Leg::Fetch) => match signal {
            Signal::Yes => Step::Carry(Leg::Send),
            Signal::No => Step::DropStaged(Outcome::FetchMismatch),
            Signal::Failed => Step::DropStaged(Outcome::FetchUnverified),
        },
        (Route::Relay, Leg::Send) => match signal {
            Signal::Yes => Step::DropStaged(Outcome::Copied),
            Signal::No => Step::DropStaged(Outcome::Mismatch),
            Signal::Failed => Step::DropStaged(Outcome::Unverified),
        },
        _ => match signal {
            Signal::Yes => verified(job),
            Signal::No => Step::DropTarget(Outcome::Mismatch),
            Signal::Failed => Step::End(Outcome::Unverified),
        },
    }
}

/// What begins a file.
pub fn start(job: Job, plan: Plan, taken: bool, has_parent: bool) -> (s: Step)
    ensures
        s == first_step(job, plan, taken, has_parent),
{
    match plan {
        Plan::OutsideSource => Step::End(Outcome::OutsideSource),
        Plan::NoName => Step::End(Outcome::NoName),
        Plan::Go => if taken && job.conflict == ConflictMode::Skip {
            Step::End(Outcome::AlreadyThere)
        } else if job.route == Route::Upload {
            carry_begun(job)
        } else if has_parent {
            Step::MakeParent
        } else {
            advance_step(job, Step::MakeParent, Signal::Yes)
        },
    }
}

/// The step that follows a step and the answer to it.
pub fn advance_step(job: Job, step: Step, signal: Signal) -> (s: Step)
    requires
        has_next(step, signal),
    ensures
        s == next_step(job, step, signal),
{
    match step {
        Step::MakeParent => match (signal, job.route) {
            (Signal::Yes, Route::Relay) => carry_begun(job),
            (Signal::Yes, _) => Step::Probe,
            _ => Step::End(Outcome::ParentFailed),
        },
        Step::Probe => match (signal, job.route) {
            (Signal::Yes, Route::Local) => Step::Compare,
            (Signal::Yes, _) => conflict_met(job, Outcome::AlreadyThere),
            _ => carry_begun(job),
        },
        Step::Compare => match signal {
            Signal::Yes => if job.moving {
                Step::Locate
            } else {
                Step::End(Outcome::Identical)
            },
            Signal::No => conflict_met(job, Outcome::Differs),
            Signal::Failed => Step::End(Outcome::CompareFailed),
        },
        Step::Locate => match signal {
            Signal::Yes => Step::End(Outcome::Identical),
            Signal::No => Step::DropIdentical,
            Signal::Failed => Step::End(Outcome::IdenticalKept),
        },
        Step::DropIdentical => match signal {
            Signal::Yes => Step::End(Outcome::Copied),
            _ => Step::End(Outcome::IdenticalKept),
        },
        Step::PickName(n) => match signal {
            Signal::Yes => Step::PickName(n + 1),
            _ => carry_begun(job),
        },
        Step::Shift => match signal {
            Signal::Yes => Step::End(Outcome::Copied),
            _ => Step::Carry(Leg::Send),
        },
        Step::Carry(leg) => match signal {
            Signal::Yes => match job.route {
                Route::Local => Step::Check,
                _ => Step::HashHere(leg),
            },
            Signal::No => lost(job, leg, Outcome::Refused),
            Signal::Failed => lost(job, leg, Outcome::CarryFailed),
        },
        Step::Check => match signal {
            Signal::Yes => verified(job),
            Signal::No => Step::DropTarget(Outcome::Mismatch),
            Signal::Failed => Step::End(Outcome::Unverified),
        },
        Step::HashHere(leg) => match signal {
            Signal::Yes => Step::HashThere(leg),
            _ => hashes_compared(job, leg, Signal::Failed),
        },
        Step::HashThere(leg) => hashes_compared(job, leg, signal),
        Step::DropStaged(outcome) => match outcome {
            Outcome::Copied => verified(job),
            Outcome::Mismatch => Step::DropTarget(Outcome::Mismatch),
            _ => Step::End(outcome),
        },
        Step::DropTarget(outcome) => Step::End(outcome),
        Step::DropSource => match signal {
            Signal::Yes => Step::End(Outcome::Copied),
            _ => Step::End(Outcome::SourceKept),
        },
        Step::End(outcome) => Step::End(outcome),
    }
}

} // verus!
