//! What a file's outcome adds to the report, and in which words.

use vstd::prelude::*;
use vstd::string::*;

use crate::request::TransferMethod;
use crate::steps::{Job, Outcome, Route};

verus! {

/// Where a note about a file goes.
#[derive(Clone, Copy, PartialEq, Eq, Structural, Debug)]
pub enum Mark {
    /// There is no note.
    Silent,
    /// Among the files that were skipped.
    Skipped,
    /// Among the errors.
    Error,
}

/// Whether the file counts as copied.
pub open spec fn counts(job: Job, outcome: Outcome) -> bool {
    match outcome {
        Outcome::Copied => true,
        Outcome::SourceKept => !(job.route == Route::Local && job.method
            == TransferMethod::Standard),
        _ => false,
    }
}

/// Where the note about the file goes.
pub open spec fn mark_of(outcome: Outcome) -> Mark {
    match outcome {
        Outcome::Copied => Mark::Silent,
        Outcome::OutsideSource
        | Outcome::NoName
        | Outcome::Identical
        | Outcome::Differs
        | Outcome::AlreadyThere => Mark::Skipped,
        _ => Mark::Error,
    }
}

/// Whether the progress of the transfer is reported behind the file.
pub open spec fn is_reported(outcome: Outcome) -> bool {
    match outcome {
        Outcome::OutsideSource | Outcome::NoName | Outcome::ParentFailed => false,
        _ => true,
    }
}

/// The words of a note: what stands before the detail, whether the detail is
/// given, and what stands behind it.
pub struct Phrase {
    pub lead: Seq<char>,
    pub detail: bool,
    pub tail: Seq<char>,
}

/// Words without a detail.
pub open spec fn plain(lead: Seq<char>) -> Phrase {
    Phrase { lead, detail: false, tail: Seq::empty() }
}

/// Words before a detail.
pub open spec fn before(lead: Seq<char>) -> Phrase {
    Phrase { lead, detail: true, tail: Seq::empty() }
}

/// Words around a detail.
pub open spec fn around(lead: Seq<char>, tail: Seq<char>) -> Phrase {
    Phrase { lead, detail: true, tail }
}

/// The words for a target that does not hold the source.
pub open spec fn mismatch_phrase(job: Job) -> Phrase {
    match (job.route, job.method) {
        (Route::Local, TransferMethod::Standard) => if job.moving {
            plain(": integrity check failed — original retained"@)
        } else {
            plain(": integrity check failed — copy removed"@)
        },
        (Route::Local, TransferMethod::Rsync) => plain(
            ": integrity check failed — byte comparison mismatch (original retained, copy removed)"@,
        ),
        (Route::Upload, _) => plain(
            ": integrity check failed — hash mismatch (original retained, remote copy removed)"@,
        ),
        (Route::Download, _) => plain(
            ": download integrity check failed — hash mismatch (local copy removed)"@,
        ),
        (Route::Relay, _) => plain(
            ": upload integrity check failed — hash mismatch (source retained, dest copy removed)"@,
        ),
    }
}

/// The words for a target that could not be verified.
pub open spec fn unverified_phrase(job: Job) -> Phrase {
    match (job.route, job.method) {
        (Route::Local, TransferMethod::Standard) => if job.moving {
            before(": verification error (original retained): "@)
        } else {
            before(": verification error: "@)
        },
        (Route::Local, TransferMethod::Rsync) | (Route::Upload, _) => if job.moving {
            around(": transferred but verification failed: "@, " (original retained)"@)
        } else {
            before(": transferred but could not verify: "@)
        },
        (Route::Download, _) => if job.moving {
            around(": downloaded but verification failed: "@, " (source retained)"@)
        } else {
            before(": downloaded but could not verify: "@)
        },
        (Route::Relay, _) => if job.moving {
            around(": uploaded but verification failed: "@, " (source retained)"@)
        } else {
            before(": uploaded but could not verify: "@)
        },
    }
}

/// The words for a source that could not be removed behind the transfer.
pub open spec fn kept_phrase(job: Job) -> Phrase {
    match (job.route, job.method) {
        (Route::Local, TransferMethod::Standard) => before(": "@),
        (Route::Local, TransferMethod::Rsync) => before(
            ": transferred and verified but failed to delete source: "@,
        ),
        (Route::Upload, _) => before(": transferred and verified but failed to delete local: "@),
        (Route::Download, _) => plain(
            ": downloaded and verified but failed to delete from source"@,
        ),
        (Route::Relay, _) => plain(
            ": transferred and verified but failed to delete from source"@,
        ),
    }
}

/// The words for an outcome; they stand behind the name of the file.
pub open spec fn phrase_of(job: Job, outcome: Outcome) -> Phrase {
    let rsync_relay = job.route == Route::Relay && job.method == TransferMethod::Rsync;
    match outcome {
        Outcome::Copied => plain(Seq::empty()),
        Outcome::OutsideSource => plain(": outside source directory"@),
        Outcome::NoName => plain(": no filename"@),
        Outcome::Identical => plain(": identical at destination"@),
        Outcome::Differs => plain(": different version exists at destination"@),
        Outcome::AlreadyThere => plain(": already exists at destination"@),
        Outcome::ParentFailed => if job.route == Route::Relay {
            before(": temp dir error: "@)
        } else {
            before(": "@)
        },
        Outcome::IdenticalKept => before(
            ": identical at destination but failed to delete source: "@,
        ),
        Outcome::CompareFailed => before(": could not compare with destination: "@),
        Outcome::CarryFailed => before(": "@),
        Outcome::Refused => match job.method {
            TransferMethod::Standard => around(": scp failed (exit code "@, ")"@),
            TransferMethod::Rsync => around(": rsync failed (exit code "@, ")"@),
        },
        Outcome::FetchFailed => if rsync_relay {
            plain(": rsync download from source failed"@)
        } else {
            plain(": download from source failed"@)
        },
        Outcome::FetchMismatch => plain(": download integrity check failed — hash mismatch"@),
        Outcome::FetchUnverified => before(": download verification error: "@),
        Outcome::SendFailed => if rsync_relay {
            plain(": rsync upload to destination failed"@)
        } else {
            plain(": upload to destination failed"@)
        },
        Outcome::Mismatch => mismatch_phrase(job),
        Outcome::Unverified => unverified_phrase(job),
        Outcome::SourceKept => kept_phrase(job),
    }
}

/// The note about a file: its name, and the words for its outcome.
pub open spec fn note_of(
    job: Job,
    outcome: Outcome,
    shown: Seq<char>,
    detail: Seq<char>,
) -> Seq<char> {
    let p = phrase_of(job, outcome);
    shown + p.lead + (if p.detail {
        detail
    } else {
        Seq::empty()
    }) + p.tail
}

/// Whether the file counts as copied.
pub fn is_counted(job: Job, outcome: Outcome) -> (b: bool)
    ensures
        b == counts(job, outcome),
{
    match outcome {
        Outcome::Copied => true,
        Outcome::SourceKept => !(job.route == Route::Local && job.method
            == TransferMethod::Standard),
        _ => false,
    }
}

/// Where the note about the file goes.
pub fn mark(outcome: Outcome) -> (m: Mark)
    ensures
        m == mark_of(outcome),
{
    match outcome {
        Outcome::Copied => Mark::Silent,
        Outcome::OutsideSource
        | Outcome::NoName
        | Outcome::Identical
        | Outcome::Differs
        | Outcome::AlreadyThere => Mark::Skipped,
        _ => Mark::Error,
    }
}

/// Whether the progress of the transfer is reported behind the file.
pub fn reports(outcome: Outcome) -> (b: bool)
    ensures
        b == is_reported(outcome),
{
    match outcome {
        Outcome::OutsideSource | Outcome::NoName | Outcome::ParentFailed => false,
        _ => true,
    }
}

fn mismatch_words(job: Job) -> (r: &'static str)
    ensures
        plain(r@) == mismatch_phrase(job),
{
    match (job.route, job.method) {
        (Route::Local, TransferMethod::Standard) => if job.moving {
            ": integrity check failed — original retained"
        } else {
            ": integrity check failed — copy removed"
        },
        (Route::Local, TransferMethod::Rsync) => {
            ": integrity check failed — byte comparison mismatch (original retained, copy removed)"
        },
        (Route::Upload, _) => {
            ": integrity check failed — hash mismatch (original retained, remote copy removed)"
        },
        (Route::Download, _) => {
            ": download integrity check failed — hash mismatch (local copy removed)"
        },
        (Route::Relay, _) => {
            ": upload integrity check failed — hash mismatch (source retained, dest copy removed)"
        },
    }
}

fn unverified_words(job: Job) -> (r: (&'static str, &'static str))
    ensures
        around(r.0@, r.1@) == unverified_phrase(job),
{
    proof {
        reveal_strlit("");
        assert(""@ == Seq::<char>::empty());
    }
    match (job.route, job.method) {
        (Route::Local, TransferMethod::Standard) => if job.moving {
            (": verification error (original retained): ", "")
        } else {
            (": verification error: ", "")
        },
        (Route::Local, TransferMethod::Rsync) | (Route::Upload, _) => if job.moving {
            (": transferred but verification failed: ", " (original retained)")
        } else {
            (": transferred but could not verify: ", "")
        },
        (Route::Download, _) => if job.moving {
            (": downloaded but verification failed: ", " (source retained)")
        } else {
            (": downloaded but could not verify: ", "")
        },
        (Route::Relay, _) => if job.moving {
            (": uploaded but verification failed: ", " (source retained)")
        } else {
            (": uploaded but could not verify: ", "")
        },
    }
}

/// The words for an outcome: what stands before the detail, whether the
/// detail is given, and what stands behind it.
pub fn words(job: Job, outcome: Outcome) -> (r: (&'static str, bool, &'static str))
    ensures
        (Phrase { lead: r.0@, detail: r.1, tail: r.2@ }) == phrase_of(job, outcome),
{
    proof {
        reveal_strlit("");
        assert(""@ == Seq::<char>::empty());
    }
    let rsync_relay = job.route == Route::Relay && job.method == TransferMethod::Rsync;
    match outcome {
        Outcome::Copied => ("", false, ""),
        Outcome::OutsideSource => (": outside source directory", false, ""),
        Outcome::NoName => (": no filename", false, ""),
        Outcome::Identical => (": identical at destination", false, ""),
        Outcome::Differs => (": different version exists at destination", false, ""),
        Outcome::AlreadyThere => (": already exists at destination", false, ""),
        Outcome::ParentFailed => if job.route == Route::Relay {
            (": temp dir error: ", true, "")
        } else {
            (": ", true, "")
        },
        Outcome::IdenticalKept => (
            ": identical at destination but failed to delete source: ",
            true,
            "",
        ),
        Outcome::CompareFailed => (": could not compare with destination: ", true, ""),
        Outcome::CarryFailed => (": ", true, ""),
        Outcome::Refused => match job.method {
            TransferMethod::Standard => (": scp failed (exit code ", true, ")"),
            TransferMethod::Rsync => (": rsync failed (exit code ", true, ")"),
        },
        Outcome::FetchFailed => if rsync_relay {
            (": rsync download from source failed", false, "")
        } else {
            (": download from source failed", false, "")
        },
        Outcome::FetchMismatch => (
            ": download integrity check failed — hash mismatch",
            false,
            "",
        ),
        Outcome::FetchUnverified => (": download verification error: ", true, ""),
        Outcome::SendFailed => if rsync_relay {
            (": rsync upload to destination failed", false, "")
        } else {
            (": upload to destination failed", false, "")
        },
        Outcome::Mismatch => (mismatch_words(job), false, ""),
        Outcome::Unverified => {
            let (lead, tail) = unverified_words(job);
            (lead, true, tail)
        },
        Outcome::SourceKept => match (job.route, job.method) {
            (Route::Local, TransferMethod::Standard) => (": ", true, ""),
            (Route::Local, TransferMethod::Rsync) => (
                ": transferred and verified but failed to delete source: ",
                true,
                "",
            ),
            (Route::Upload, _) => (
                ": transferred and verified but failed to delete local: ",
                true,
                "",
            ),
            (Route::Download, _) => (
                ": downloaded and verified but failed to delete from source",
                false,
                "",
            ),
            (Route::Relay, _) => (
                ": transferred and verified but failed to delete from source",
                false,
                "",
            ),
        },
    }
}

/// The note about a file: its name, and the words for its outcome.
pub fn note(job: Job, outcome: Outcome, shown: &str, detail: &str) -> (r: String)
    ensures
        r@ == note_of(job, outcome, shown@, detail@),
{
    let (lead, with_detail, tail) = words(job, outcome);
    let mut r = String::from_str(shown);
    r.append(lead);
    if with_detail {
        r.append(detail);
    }
    r.append(tail);
    assert(r@ == note_of(job, outcome, shown@, detail@));
    r
}

// ---------------------------------------------------------------------------
// What holds of every note
// ---------------------------------------------------------------------------

/// A file that arrived is counted and not mentioned. One that was left out is
/// mentioned as such and not counted, and everything else is an error; of those
/// only a file that arrived and could not be taken away from its source is
/// counted, and not where it was to be renamed on this machine.
pub proof fn every_file_is_counted_or_mentioned(job: Job, outcome: Outcome)
    ensures
        mark_of(outcome) == Mark::Silent <==> outcome == Outcome::Copied,
        mark_of(outcome) == Mark::Skipped <==> outcome == Outcome::OutsideSource || outcome
            == Outcome::NoName || outcome == Outcome::Identical || outcome == Outcome::Differs
            || outcome == Outcome::AlreadyThere,
        counts(job, outcome) <==> outcome == Outcome::Copied || (outcome == Outcome::SourceKept
            && !(job.route == Route::Local && job.method == TransferMethod::Standard)),
        mark_of(outcome) == Mark::Silent ==> counts(job, outcome),
        mark_of(outcome) == Mark::Skipped ==> !counts(job, outcome),
{
}

/// Progress is reported behind every file, but for those that have no place to
/// go to and those whose directory could not be made.
pub proof fn progress_is_reported_behind_files_with_a_place(outcome: Outcome)
    ensures
        !is_reported(outcome) <==> outcome == Outcome::OutsideSource || outcome == Outcome::NoName
            || outcome == Outcome::ParentFailed,
{
}

/// A note begins with the file as it is shown.
pub proof fn notes_begin_with_the_file(
    job: Job,
    outcome: Outcome,
    shown: Seq<char>,
    detail: Seq<char>,
)
    ensures
        shown.is_prefix_of(note_of(job, outcome, shown, detail)),
{
    let note = note_of(job, outcome, shown, detail);
    assert(note.take(shown.len() as int) == shown);
}

/// The notes about files that were left out say why, whatever the job.
pub proof fn notes_on_files_left_out(job: Job, shown: Seq<char>, detail: Seq<char>)
    ensures
        note_of(job, Outcome::OutsideSource, shown, detail) == shown
            + ": outside source directory"@,
        note_of(job, Outcome::NoName, shown, detail) == shown + ": no filename"@,
        note_of(job, Outcome::Identical, shown, detail) == shown + ": identical at destination"@,
        note_of(job, Outcome::Differs, shown, detail) == shown
            + ": different version exists at destination"@,
        note_of(job, Outcome::AlreadyThere, shown, detail) == shown
            + ": already exists at destination"@,
{
}

/// The notes about files that could not be brought to their target say what
/// failed, and give the reason where there is one.
pub proof fn notes_on_files_that_did_not_arrive(job: Job, shown: Seq<char>, detail: Seq<char>)
    ensures
        note_of(job, Outcome::ParentFailed, shown, detail) == shown + (if job.route
            == Route::Relay {
            ": temp dir error: "@
        } else {
            ": "@
        }) + detail,
        note_of(job, Outcome::CompareFailed, shown, detail) == shown
            + ": could not compare with destination: "@ + detail,
        note_of(job, Outcome::CarryFailed, shown, detail) == shown + ": "@ + detail,
        note_of(job, Outcome::Refused, shown, detail) == shown + (if job.method
            == TransferMethod::Rsync {
            ": rsync failed (exit code "@
        } else {
            ": scp failed (exit code "@
        }) + detail + ")"@,
        note_of(job, Outcome::FetchFailed, shown, detail) == shown + (if job.route == Route::Relay
            && job.method == TransferMethod::Rsync {
            ": rsync download from source failed"@
        } else {
            ": download from source failed"@
        }),
        note_of(job, Outcome::FetchMismatch, shown, detail) == shown
            + ": download integrity check failed — hash mismatch"@,
        note_of(job, Outcome::FetchUnverified, shown, detail) == shown
            + ": download verification error: "@ + detail,
        note_of(job, Outcome::SendFailed, shown, detail) == shown + (if job.route == Route::Relay
            && job.method == TransferMethod::Rsync {
            ": rsync upload to destination failed"@
        } else {
            ": upload to destination failed"@
        }),
{
}

/// The notes about copies that are not the source say which copy was removed.
pub proof fn notes_on_bad_copies(job: Job, shown: Seq<char>, detail: Seq<char>)
    ensures
        job.route == Route::Local && job.method == TransferMethod::Standard ==> note_of(
            job,
            Outcome::Mismatch,
            shown,
            detail,
        ) == shown + (if job.moving {
            ": integrity check failed — original retained"@
        } else {
            ": integrity check failed — copy removed"@
        }),
        job.route == Route::Local && job.method == TransferMethod::Rsync ==> note_of(
            job,
            Outcome::Mismatch,
            shown,
            detail,
        ) == shown
            + ": integrity check failed — byte comparison mismatch (original retained, copy removed)"@,
        job.route == Route::Upload ==> note_of(job, Outcome::Mismatch, shown, detail) == shown
            + ": integrity check failed — hash mismatch (original retained, remote copy removed)"@,
        job.route == Route::Download ==> note_of(job, Outcome::Mismatch, shown, detail) == shown
            + ": download integrity check failed — hash mismatch (local copy removed)"@,
        job.route == Route::Relay ==> note_of(job, Outcome::Mismatch, shown, detail) == shown
            + ": upload integrity check failed — hash mismatch (source retained, dest copy removed)"@,
{
}

/// The notes about files that could not be verified give the reason, and say for
/// a move that the source is still there.
pub proof fn notes_on_unverified_files(job: Job, shown: Seq<char>, detail: Seq<char>)
    ensures
        ({
            let note = note_of(job, Outcome::Unverified, shown, detail);
            let plain_local = job.route == Route::Local && job.method == TransferMethod::Standard;
            &&& plain_local && job.moving ==> note == shown
                + ": verification error (original retained): "@ + detail
            &&& plain_local && !job.moving ==> note == shown + ": verification error: "@ + detail
            &&& !plain_local && (job.route == Route::Local || job.route == Route::Upload)
                && job.moving ==> note == shown + ": transferred but verification failed: "@
                + detail + " (original retained)"@
            &&& !plain_local && (job.route == Route::Local || job.route == Route::Upload)
                && !job.moving ==> note == shown + ": transferred but could not verify: "@ + detail
            &&& job.route == Route::Download && job.moving ==> note == shown
                + ": downloaded but verification failed: "@ + detail + " (source retained)"@
            &&& job.route == Route::Download && !job.moving ==> note == shown
                + ": downloaded but could not verify: "@ + detail
            &&& job.route == Route::Relay && job.moving ==> note == shown
                + ": uploaded but verification failed: "@ + detail + " (source retained)"@
            &&& job.route == Route::Relay && !job.moving ==> note == shown
                + ": uploaded but could not verify: "@ + detail
        }),
{
}

/// The notes about files that arrived and are still at their source say so, and
/// why where that is known.
pub proof fn notes_on_sources_that_stayed(job: Job, shown: Seq<char>, detail: Seq<char>)
    ensures
        note_of(job, Outcome::IdenticalKept, shown, detail) == shown
            + ": identical at destination but failed to delete source: "@ + detail,
        ({
            let note = note_of(job, Outcome::SourceKept, shown, detail);
            &&& job.route == Route::Local && job.method == TransferMethod::Standard ==> note
                == shown + ": "@ + detail
            &&& job.route == Route::Local && job.method == TransferMethod::Rsync ==> note == shown
                + ": transferred and verified but failed to delete source: "@ + detail
            &&& job.route == Route::Upload ==> note == shown
                + ": transferred and verified but failed to delete local: "@ + detail
            &&& job.route == Route::Download ==> note == shown
                + ": downloaded and verified but failed to delete from source"@
            &&& job.route == Route::Relay ==> note == shown
                + ": transferred and verified but failed to delete from source"@
        }),
{
}

} // verus!
