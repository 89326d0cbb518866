//! What is done before the first file: the order of it, and the words for what
//! goes wrong.

use vstd::prelude::*;

use crate::exchange::Reply;
#[allow(unused_imports)]
use crate::exchange::ReplyModel;
#[allow(unused_imports)]
use crate::request::opt_text;
use crate::request::{ConflictMode, TransferMethod};
use crate::steps::{Job, Route};
use crate::text::{concat2, concat3, lossy_text, owned, trim_text};
#[allow(unused_imports)]
use crate::text::{trimmed, utf8_lossy};

verus! {

/// What is done next before the first file.
#[derive(Clone, Copy, PartialEq, Eq, Structural, Debug)]
pub enum SetupStep {
    /// See whether the host of the source can be reached.
    CheckSource,
    /// See whether the host of the target can be reached.
    CheckTarget,
    /// See whether `rsync` is there.
    CheckRsync,
    /// Find the files.
    Gather,
    /// See whether the destination is there.
    ProbeTarget,
    /// Make the destination.
    MakeTarget,
    /// Make the directory in which files are staged.
    MakeStaging,
    /// Make the directories on the host.
    MakeRemoteDirs,
    /// List what is on the host already.
    ListTarget,
    /// The files can be taken up.
    Ready,
}

/// What is done first.
pub open spec fn first_setup(job: Job) -> SetupStep {
    match (job.route, job.method) {
        (Route::Local, TransferMethod::Standard) => SetupStep::ProbeTarget,
        (Route::Local, TransferMethod::Rsync) => SetupStep::CheckRsync,
        (Route::Upload, _) => SetupStep::CheckTarget,
        (Route::Download, _) | (Route::Relay, _) => SetupStep::CheckSource,
    }
}

/// What is done behind a step that went well; `present` says whether the
/// destination is there, where that was asked.
pub open spec fn next_setup(job: Job, step: SetupStep, present: bool) -> SetupStep {
    match step {
        SetupStep::CheckSource => if job.route == Route::Relay {
            SetupStep::CheckTarget
        } else {
            SetupStep::Gather
        },
        SetupStep::CheckTarget => if job.method == TransferMethod::Rsync {
            SetupStep::CheckRsync
        } else {
            SetupStep::Gather
        },
        SetupStep::CheckRsync => if job.route == Route::Local {
            SetupStep::ProbeTarget
        } else {
            SetupStep::Gather
        },
        SetupStep::Gather => match job.route {
            Route::Local => SetupStep::Ready,
            Route::Upload => SetupStep::MakeRemoteDirs,
            Route::Download => SetupStep::ProbeTarget,
            Route::Relay => SetupStep::MakeStaging,
        },
        SetupStep::ProbeTarget => if !present {
            SetupStep::MakeTarget
        } else if job.route == Route::Local {
            SetupStep::Gather
        } else {
            SetupStep::Ready
        },
        SetupStep::MakeTarget => if job.route == Route::Local {
            SetupStep::Gather
        } else {
            SetupStep::Ready
        },
        SetupStep::MakeStaging => SetupStep::MakeRemoteDirs,
        SetupStep::MakeRemoteDirs => if job.conflict == ConflictMode::Overwrite {
            SetupStep::Ready
        } else {
            SetupStep::ListTarget
        },
        SetupStep::ListTarget | SetupStep::Ready => SetupStep::Ready,
    }
}

/// The words for a host that cannot be reached: the command that was to reach
/// it failed, or could not be run.
pub open spec fn unreachable_host(job: Job, host: Seq<char>, reply: ReplyModel) -> Option<
    Seq<char>,
> {
    match reply {
        ReplyModel::Printed { success, stderr, .. } => if success {
            None
        } else {
            Some(
                (if job.route == Route::Download {
                    "SSH connection to source '"@
                } else {
                    "SSH connection to '"@
                }) + host + "' failed: "@ + trimmed(utf8_lossy(stderr)),
            )
        },
        ReplyModel::DidNot(e) => Some(
            (if job.route == Route::Upload {
                "Could not run ssh command: "@
            } else {
                "Could not run ssh: "@
            }) + e,
        ),
        _ => None,
    }
}

/// The words for what went wrong with a step other than the gathering of the
/// files, if anything did. A command that makes directories on a host and
/// could not be run at all is let pass, and what follows shows the failure.
pub open spec fn setup_failure(job: Job, step: SetupStep, host: Seq<char>, reply: ReplyModel)
    -> Option<Seq<char>> {
    match step {
        SetupStep::CheckSource | SetupStep::CheckTarget => unreachable_host(job, host, reply),
        SetupStep::CheckRsync => match reply {
            ReplyModel::Printed { success: true, .. } => None,
            _ => Some("rsync is not installed or not found in PATH"@),
        },
        SetupStep::MakeTarget => match reply {
            ReplyModel::DidNot(e) => Some("Failed to create destination directory: "@ + e),
            _ => None,
        },
        SetupStep::MakeStaging => match reply {
            ReplyModel::DidNot(e) => Some("Failed to create temp directory: "@ + e),
            _ => None,
        },
        SetupStep::MakeRemoteDirs => match reply {
            ReplyModel::Printed { success: false, stderr, .. } => Some(
                (if job.route == Route::Relay {
                    "Failed to create remote directories on destination: "@
                } else {
                    "Failed to create remote directories: "@
                }) + trimmed(utf8_lossy(stderr)),
            ),
            _ => None,
        },
        _ => None,
    }
}

/// What is done first.
pub fn start_setup(job: Job) -> (s: SetupStep)
    ensures
        s == first_setup(job),
{
    match (job.route, job.method) {
        (Route::Local, TransferMethod::Standard) => SetupStep::ProbeTarget,
        (Route::Local, TransferMethod::Rsync) => SetupStep::CheckRsync,
        (Route::Upload, _) => SetupStep::CheckTarget,
        (Route::Download, _) | (Route::Relay, _) => SetupStep::CheckSource,
    }
}

/// What is done behind a step that went well.
pub fn advance_setup(job: Job, step: SetupStep, present: bool) -> (s: SetupStep)
    ensures
        s == next_setup(job, step, present),
{
    match step {
        SetupStep::CheckSource => if job.route == Route::Relay {
            SetupStep::CheckTarget
        } else {
            SetupStep::Gather
        },
        SetupStep::CheckTarget => if job.method == TransferMethod::Rsync {
            SetupStep::CheckRsync
        } else {
            SetupStep::Gather
        },
        SetupStep::CheckRsync => if job.route == Route::Local {
            SetupStep::ProbeTarget
        } else {
            SetupStep::Gather
        },
        SetupStep::Gather => match job.route {
            Route::Local => SetupStep::Ready,
            Route::Upload => SetupStep::MakeRemoteDirs,
            Route::Download => SetupStep::ProbeTarget,
            Route::Relay => SetupStep::MakeStaging,
        },
        SetupStep::ProbeTarget => if !present {
            SetupStep::MakeTarget
        } else if job.route == Route::Local {
            SetupStep::Gather
        } else {
            SetupStep::Ready
        },
        SetupStep::MakeTarget => if job.route == Route::Local {
            SetupStep::Gather
        } else {
            SetupStep::Ready
        },
        SetupStep::MakeStaging => SetupStep::MakeRemoteDirs,
        SetupStep::MakeRemoteDirs => if job.conflict == ConflictMode::Overwrite {
            SetupStep::Ready
        } else {
            SetupStep::ListTarget
        },
        SetupStep::ListTarget | SetupStep::Ready => SetupStep::Ready,
    }
}

fn shown_error(bytes: &[u8]) -> (r: String)
    ensures
        r@ == trimmed(utf8_lossy(bytes@)),
{
    trim_text(lossy_text(bytes).as_str())
}

fn host_trouble(job: Job, host: &str, reply: &Reply) -> (r: Option<String>)
    ensures
        opt_text(r) == unreachable_host(job, host@, reply@),
{
    match reply {
        Reply::Printed { success, stderr, .. } => if *success {
            None
        } else {
            let lead = if job.route == Route::Download {
                "SSH connection to source '"
            } else {
                "SSH connection to '"
            };
            let front = concat3(lead, host, "' failed: ");
            Some(concat2(front.as_str(), shown_error(stderr).as_str()))
        },
        Reply::DidNot(e) => {
            let lead = if job.route == Route::Upload {
                "Could not run ssh command: "
            } else {
                "Could not run ssh: "
            };
            Some(concat2(lead, e.as_str()))
        },
        _ => None,
    }
}

/// The words for what went wrong with a step other than the gathering of the
/// files, if anything did.
pub fn setup_trouble(job: Job, step: SetupStep, host: &str, reply: &Reply) -> (r: Option<String>)
    ensures
        opt_text(r) == setup_failure(job, step, host@, reply@),
{
    match step {
        SetupStep::CheckSource | SetupStep::CheckTarget => host_trouble(job, host, reply),
        SetupStep::CheckRsync => match reply {
            Reply::Printed { success: true, .. } => None,
            _ => Some(owned("rsync is not installed or not found in PATH")),
        },
        SetupStep::MakeTarget => match reply {
            Reply::DidNot(e) => Some(
                concat2("Failed to create destination directory: ", e.as_str()),
            ),
            _ => None,
        },
        SetupStep::MakeStaging => match reply {
            Reply::DidNot(e) => Some(concat2("Failed to create temp directory: ", e.as_str())),
            _ => None,
        },
        SetupStep::MakeRemoteDirs => match reply {
            Reply::Printed { success: false, stderr, .. } => {
                let lead = if job.route == Route::Relay {
                    "Failed to create remote directories on destination: "
                } else {
                    "Failed to create remote directories: "
                };
                Some(concat2(lead, shown_error(stderr).as_str()))
            },
            _ => None,
        },
        _ => None,
    }
}

// ---------------------------------------------------------------------------
// What the setup promises
// ---------------------------------------------------------------------------

/// How far a step is from the first file.
pub open spec fn setup_distance(job: Job, step: SetupStep) -> nat {
    match step {
        SetupStep::CheckSource => 8,
        SetupStep::CheckTarget => 7,
        SetupStep::CheckRsync => 6,
        SetupStep::Gather => if job.route == Route::Local {
            1
        } else {
            4
        },
        SetupStep::ProbeTarget => if job.route == Route::Local {
            3
        } else {
            2
        },
        SetupStep::MakeTarget => if job.route == Route::Local {
            2
        } else {
            1
        },
        SetupStep::MakeStaging => 3,
        SetupStep::MakeRemoteDirs => 2,
        SetupStep::ListTarget => 1,
        SetupStep::Ready => 0,
    }
}

/// Every step brings the setup nearer to the first file.
pub proof fn the_setup_ends(job: Job, step: SetupStep, present: bool)
    requires
        step != SetupStep::Ready,
    ensures
        setup_distance(job, next_setup(job, step, present)) < setup_distance(job, step),
{
}

/// Whether a step can come up at all on a route.
pub open spec fn fits_route(job: Job, step: SetupStep) -> bool {
    match step {
        SetupStep::CheckSource => job.route == Route::Download || job.route == Route::Relay,
        SetupStep::CheckTarget => job.route == Route::Upload || job.route == Route::Relay,
        SetupStep::CheckRsync => job.route != Route::Download && job.method
            == TransferMethod::Rsync,
        SetupStep::ProbeTarget | SetupStep::MakeTarget => job.route == Route::Local || job.route
            == Route::Download,
        SetupStep::MakeStaging => job.route == Route::Relay,
        SetupStep::MakeRemoteDirs => job.route == Route::Upload || job.route == Route::Relay,
        SetupStep::ListTarget => (job.route == Route::Upload || job.route == Route::Relay)
            && job.conflict != ConflictMode::Overwrite,
        SetupStep::Gather | SetupStep::Ready => true,
    }
}

/// The setup takes the steps of its route only: hosts are reached where there
/// are hosts, and the target is listed unless files are to be overwritten.
pub proof fn the_setup_keeps_to_its_route(job: Job, step: SetupStep, present: bool)
    ensures
        fits_route(job, first_setup(job)),
        fits_route(job, step) ==> fits_route(job, next_setup(job, step, present)),
{
}

/// Where the target is on a host and files there are not to be overwritten, no
/// file is taken up before the target was listed, and the directories were
/// made before that.
pub proof fn the_target_is_listed_first(job: Job, step: SetupStep, present: bool)
    requires
        job.route == Route::Upload || job.route == Route::Relay,
        job.conflict != ConflictMode::Overwrite,
        fits_route(job, step),
        step != SetupStep::Ready,
    ensures
        next_setup(job, step, present) == SetupStep::Ready <==> step == SetupStep::ListTarget,
        next_setup(job, step, present) == SetupStep::ListTarget <==> step
            == SetupStep::MakeRemoteDirs,
{
}

/// On this machine the destination is made, if it is not there, before the files
/// are found; where `rsync` is to be used, it is looked for first.
pub proof fn the_setup_on_this_machine(job: Job, present: bool)
    requires
        job.route == Route::Local,
    ensures
        first_setup(job) == (if job.method == TransferMethod::Rsync {
            SetupStep::CheckRsync
        } else {
            SetupStep::ProbeTarget
        }),
        next_setup(job, SetupStep::CheckRsync, present) == SetupStep::ProbeTarget,
        next_setup(job, SetupStep::ProbeTarget, false) == SetupStep::MakeTarget,
        next_setup(job, SetupStep::ProbeTarget, true) == SetupStep::Gather,
        next_setup(job, SetupStep::MakeTarget, present) == SetupStep::Gather,
        next_setup(job, SetupStep::Gather, present) == SetupStep::Ready,
{
}

/// For a host, the host is reached first, then `rsync` is looked for if it is to
/// be used, then the files are found and their directories made on the host.
pub proof fn the_setup_of_an_upload(job: Job, present: bool)
    requires
        job.route == Route::Upload,
    ensures
        first_setup(job) == SetupStep::CheckTarget,
        next_setup(job, SetupStep::CheckTarget, present) == (if job.method == TransferMethod::Rsync {
            SetupStep::CheckRsync
        } else {
            SetupStep::Gather
        }),
        next_setup(job, SetupStep::CheckRsync, present) == SetupStep::Gather,
        next_setup(job, SetupStep::Gather, present) == SetupStep::MakeRemoteDirs,
        next_setup(job, SetupStep::MakeRemoteDirs, present) == (if job.conflict
            == ConflictMode::Overwrite {
            SetupStep::Ready
        } else {
            SetupStep::ListTarget
        }),
        next_setup(job, SetupStep::ListTarget, present) == SetupStep::Ready,
{
}

/// From a host, the host is reached, its files are found, and the destination is
/// made if it is not there.
pub proof fn the_setup_of_a_download(job: Job, present: bool)
    requires
        job.route == Route::Download,
    ensures
        first_setup(job) == SetupStep::CheckSource,
        next_setup(job, SetupStep::CheckSource, present) == SetupStep::Gather,
        next_setup(job, SetupStep::Gather, present) == SetupStep::ProbeTarget,
        next_setup(job, SetupStep::ProbeTarget, false) == SetupStep::MakeTarget,
        next_setup(job, SetupStep::ProbeTarget, true) == SetupStep::Ready,
        next_setup(job, SetupStep::MakeTarget, present) == SetupStep::Ready,
{
}

/// From one host to another, both are reached, the files are found on the one,
/// a directory is made here to stage them in, and theirs are made on the other.
pub proof fn the_setup_of_a_relay(job: Job, present: bool)
    requires
        job.route == Route::Relay,
    ensures
        first_setup(job) == SetupStep::CheckSource,
        next_setup(job, SetupStep::CheckSource, present) == SetupStep::CheckTarget,
        next_setup(job, SetupStep::CheckTarget, present) == (if job.method == TransferMethod::Rsync {
            SetupStep::CheckRsync
        } else {
            SetupStep::Gather
        }),
        next_setup(job, SetupStep::CheckRsync, present) == SetupStep::Gather,
        next_setup(job, SetupStep::Gather, present) == SetupStep::MakeStaging,
        next_setup(job, SetupStep::MakeStaging, present) == SetupStep::MakeRemoteDirs,
        next_setup(job, SetupStep::MakeRemoteDirs, present) == (if job.conflict
            == ConflictMode::Overwrite {
            SetupStep::Ready
        } else {
            SetupStep::ListTarget
        }),
        next_setup(job, SetupStep::ListTarget, present) == SetupStep::Ready,
{
}

/// A host that does not answer stops the transfer, and what it printed is told;
/// one that answers does not.
pub proof fn an_unreachable_host_is_told(
    job: Job,
    host: Seq<char>,
    stdout: Seq<u8>,
    stderr: Seq<u8>,
    e: Seq<char>,
)
    ensures
        forall|step: SetupStep|
            step == SetupStep::CheckSource || step == SetupStep::CheckTarget ==> {
                &&& #[trigger] setup_failure(
                    job,
                    step,
                    host,
                    ReplyModel::Printed { success: true, stdout, stderr },
                ) is None
                &&& setup_failure(
                    job,
                    step,
                    host,
                    ReplyModel::Printed { success: false, stdout, stderr },
                ) == Some(
                    (if job.route == Route::Download {
                        "SSH connection to source '"@
                    } else {
                        "SSH connection to '"@
                    }) + host + "' failed: "@ + trimmed(utf8_lossy(stderr)),
                )
                &&& setup_failure(job, step, host, ReplyModel::DidNot(e)) == Some(
                    (if job.route == Route::Upload {
                        "Could not run ssh command: "@
                    } else {
                        "Could not run ssh: "@
                    }) + e,
                )
            },
{
}

/// Where `rsync` is not found, or a directory cannot be made, the transfer stops
/// with the words for that; where all went well it goes on.
pub proof fn what_is_missing_is_told(
    job: Job,
    host: Seq<char>,
    stdout: Seq<u8>,
    stderr: Seq<u8>,
    e: Seq<char>,
)
    ensures
        setup_failure(
            job,
            SetupStep::CheckRsync,
            host,
            ReplyModel::Printed { success: true, stdout, stderr },
        ) is None,
        setup_failure(
            job,
            SetupStep::CheckRsync,
            host,
            ReplyModel::Printed { success: false, stdout, stderr },
        ) == Some("rsync is not installed or not found in PATH"@),
        setup_failure(job, SetupStep::CheckRsync, host, ReplyModel::DidNot(e)) == Some(
            "rsync is not installed or not found in PATH"@,
        ),
        setup_failure(job, SetupStep::MakeTarget, host, ReplyModel::Did) is None,
        setup_failure(job, SetupStep::MakeTarget, host, ReplyModel::DidNot(e)) == Some(
            "Failed to create destination directory: "@ + e,
        ),
        forall|dir: Seq<u8>|
            (#[trigger] setup_failure(
                job,
                SetupStep::MakeStaging,
                host,
                ReplyModel::Staged(dir),
            )) is None,
        setup_failure(job, SetupStep::MakeStaging, host, ReplyModel::DidNot(e)) == Some(
            "Failed to create temp directory: "@ + e,
        ),
        setup_failure(
            job,
            SetupStep::MakeRemoteDirs,
            host,
            ReplyModel::Printed { success: true, stdout, stderr },
        ) is None,
        setup_failure(
            job,
            SetupStep::MakeRemoteDirs,
            host,
            ReplyModel::Printed { success: false, stdout, stderr },
        ) == Some(
            (if job.route == Route::Relay {
                "Failed to create remote directories on destination: "@
            } else {
                "Failed to create remote directories: "@
            }) + trimmed(utf8_lossy(stderr)),
        ),
        forall|reply: ReplyModel|
            (#[trigger] setup_failure(job, SetupStep::ProbeTarget, host, reply)) is None,
        forall|reply: ReplyModel|
            (#[trigger] setup_failure(job, SetupStep::ListTarget, host, reply)) is None,
{
}

} // verus!
