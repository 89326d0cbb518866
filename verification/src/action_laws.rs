//! What a transfer asks for and what it makes of the replies, at every step and
//! on every route.
#![allow(unused_imports)]

use vstd::prelude::*;
use vstd::utf8::*;

use crate::exchange::{ActionModel, MessageModel, ReplyModel, TallyModel};
use crate::integrity::remote_hash;
use crate::names::{
    first_free, free_from, free_from_is_the_first, local_candidate, remote_candidate, some_free,
};
use crate::notes::{mark_of, note_of, Mark};
use crate::paths::{components, join_path, parent};
use crate::plan::{remote_dirs, PlaceModel};
use crate::request::{ConflictMode, SourceModel, TransferMethod};
use crate::setting::{gathered, GatheredModel, SettingModel};
use crate::setup::{first_setup, next_setup, setup_failure, SetupStep};
use crate::shell::{
    endpoint, find_line, greeting_line, hash_line, local_rsync_command, mkdir_line, remove_line,
    rsync_command, rsync_version_command, scp_command, ssh_command,
};
use crate::steps::{first_step, next_step, Leg, Outcome, Plan, Route, Signal, Step};
use crate::text::{decimal, lines, trim_end, utf8_lossy};
use crate::transfer::{
    action_of, after, begun, enter_step, goal_of, heard, heard_in, host_hash, is_taken, learned,
    open_file, recorded, StageModel, TransferModel,
};

verus! {

// ---------------------------------------------------------------------------
// Before the first file
// ---------------------------------------------------------------------------

/// A transfer that was not begun with has no files and has counted nothing.
pub proof fn a_transfer_begins_with_nothing(s: SettingModel)
    ensures
        begun(s).setting == s,
        begun(s).stage == StageModel::Setup(first_setup(s.job)),
        begun(s).tasks.len() == 0,
        begun(s).existing.len() == 0,
        begun(s).at == 0,
        begun(s).tally.copied == 0,
        begun(s).tally.skipped.len() == 0,
        begun(s).tally.errors.len() == 0,
        begun(s).tally.excluded_files == 0,
        begun(s).tally.excluded_dirs == 0,
{
}

/// Each step of the setup asks for what it is there for: the host of its own end
/// is reached, the source is looked through with the exclusions, and directories
/// and files are sought at the destination.
pub proof fn the_setup_asks_for_what_it_needs(m: TransferModel, dir: Seq<u8>, path: Seq<char>)
    ensures
        m.stage == StageModel::Setup(SetupStep::CheckSource) ==> action_of(m)
            == ActionModel::Capture(ssh_command(m.setting.source_host(), greeting_line())),
        m.stage == StageModel::Setup(SetupStep::CheckTarget) ==> action_of(m)
            == ActionModel::Capture(ssh_command(m.setting.target_host, greeting_line())),
        m.stage == StageModel::Setup(SetupStep::CheckRsync) ==> action_of(m)
            == ActionModel::Capture(rsync_version_command()),
        m.stage == StageModel::Setup(SetupStep::Gather) && m.setting.source
            == SourceModel::Directory(dir) ==> action_of(m) == ActionModel::Walk(
            dir,
            m.setting.patterns,
        ),
        m.stage == StageModel::Setup(SetupStep::Gather) && m.setting.source is Remote ==> action_of(
            m,
        ) == ActionModel::Capture(
            ssh_command(m.setting.source_host(), find_line(m.setting.source_base())),
        ),
        m.stage == StageModel::Setup(SetupStep::ProbeTarget) ==> action_of(m)
            == ActionModel::Exists(encode_utf8(m.setting.target)),
        m.stage == StageModel::Setup(SetupStep::MakeTarget) ==> action_of(m)
            == ActionModel::MakeDirs(encode_utf8(m.setting.target)),
        m.stage == StageModel::Setup(SetupStep::MakeStaging) ==> action_of(m)
            == ActionModel::MakeStaging,
        m.stage == StageModel::Setup(SetupStep::MakeRemoteDirs) ==> action_of(m)
            == ActionModel::Capture(
            ssh_command(
                m.setting.target_host,
                mkdir_line(remote_dirs(trim_end(m.setting.target, '/'), m.tasks)),
            ),
        ),
        m.stage == StageModel::Setup(SetupStep::ListTarget) ==> action_of(m)
            == ActionModel::Capture(
            ssh_command(m.setting.target_host, find_line(trim_end(m.setting.target, '/'))),
        ),
{
}

/// A step of the setup that fails ends the transfer with the words for that, and
/// one that goes well leads to the next.
pub proof fn the_setup_goes_on_or_fails(m: TransferModel, step: SetupStep, reply: ReplyModel)
    requires
        m.stage == StageModel::Setup(step),
        step != SetupStep::Gather,
    ensures
        ({
            let host = if step == SetupStep::CheckSource {
                m.setting.source_host()
            } else {
                m.setting.target_host
            };
            let next = after(m, reply)->0;
            &&& after(m, reply) is Some
            &&& match setup_failure(m.setting.job, step, host, reply) {
                Some(e) => next.stage is Fail && next.stage->Fail_0 == e && next.tally == m.tally,
                None => {
                    let to = next_setup(m.setting.job, step, reply == ReplyModel::Told(true));
                    &&& to != SetupStep::Ready ==> next.stage == StageModel::Setup(to)
                    &&& to == SetupStep::Ready && m.at < m.tasks.len() ==> next.stage is Poll
                    &&& next.tasks == m.tasks
                    &&& next.tally == m.tally
                    &&& next.at == m.at
                    &&& next.setting == m.setting
                    &&& step != SetupStep::ListTarget ==> next.existing == m.existing
                    &&& step != SetupStep::MakeStaging ==> next.staging == m.staging
                },
            }
        }),
{
}

/// What is on the host of the target is known from what the host printed, line by
/// line, and where files are staged from the reply to that.
pub proof fn the_setup_remembers_what_it_is_told(
    m: TransferModel,
    dir: Seq<u8>,
    success: bool,
    stdout: Seq<u8>,
    stderr: Seq<u8>,
)
    ensures
        m.stage == StageModel::Setup(SetupStep::ListTarget) ==> after(
            m,
            ReplyModel::Printed { success, stdout, stderr },
        )->0.existing == lines(utf8_lossy(stdout)),
        m.stage == StageModel::Setup(SetupStep::MakeStaging) ==> after(
            m,
            ReplyModel::Staged(dir),
        )->0.staging == dir,
{
}

/// The files that were gathered are the files of the transfer, what was left out
/// is counted once, and without a file the transfer is over at once.
pub proof fn gathering_settles_the_files(m: TransferModel, reply: ReplyModel)
    requires
        m.stage == StageModel::Setup(SetupStep::Gather),
    ensures
        ({
            let next = after(m, reply)->0;
            &&& after(m, reply) is Some
            &&& match gathered(m.setting, reply) {
                Err(e) => next.stage == StageModel::Fail(e, false),
                Ok(g) => {
                    &&& next.tally == (TallyModel {
                        copied: 0,
                        skipped: g.notes,
                        excluded_files: g.excluded_files,
                        excluded_dirs: g.excluded_dirs,
                        errors: Seq::empty(),
                    })
                    &&& g.any ==> {
                        let to = next_setup(m.setting.job, SetupStep::Gather, true);
                        &&& next.tasks == g.tasks
                        &&& next.at == m.at
                        &&& to != SetupStep::Ready ==> next.stage == StageModel::Setup(to)
                        &&& to == SetupStep::Ready && m.at < g.tasks.len() ==> next.stage is Poll
                    }
                    &&& !g.any ==> next.tasks.len() == 0 && next.stage is Close
                },
            }
        }),
{
}

// ---------------------------------------------------------------------------
// Where a file goes
// ---------------------------------------------------------------------------

/// A file goes to its target, unless files are renamed and its name is taken on
/// the host: then it goes to the first stand-in that is not.
pub proof fn a_file_goes_to_its_target_or_a_free_name(m: TransferModel)
    ensures
        is_taken(m) <==> m.existing.contains(m.task().target.there()),
        m.setting.job.conflict != ConflictMode::Rename || !m.existing.contains(
            m.task().target.there(),
        ) ==> goal_of(m) == Some(m.task().target),
        m.setting.job.conflict == ConflictMode::Rename && m.existing.contains(
            m.task().target.there(),
        ) ==> match goal_of(m) {
            Some(goal) => exists|k: nat| #[trigger]
                first_free(m.task().target.there(), m.existing, k) && goal == PlaceModel::There(
                    remote_candidate(m.task().target.there(), k),
                ),
            None => !some_free(m.task().target.there(), m.existing),
        },
{
    free_from_is_the_first(m.task().target.there(), m.existing, 1);
}

/// A file is where it is to go exactly when source and target are the same path
/// at the same end; between this machine and a host they never are.
pub proof fn a_file_is_in_place_only_at_its_own_path(m: TransferModel)
    ensures
        m.setting.job.route == Route::Local ==> (m.is_in_place() <==> components(
            m.task().source.here(),
        ) == components(m.task().target.here())),
        m.setting.job.route == Route::Upload || m.setting.job.route == Route::Download
            ==> !m.is_in_place(),
        m.setting.job.route == Route::Relay && goal_of(m) is Some ==> (m.is_in_place()
            <==> m.setting.source_host() == m.setting.target_host && components(
            encode_utf8(m.task().source.there()),
        ) == components(encode_utf8(goal_of(m)->0.there()))),
        m.file_job() == (crate::steps::Job {
            route: m.setting.job.route,
            method: m.setting.job.method,
            moving: m.setting.job.moving && !m.is_in_place(),
            conflict: m.setting.job.conflict,
        }),
{
}

/// The next file is taken up with its first step, towards its goal and with
/// nothing left over from the file before it.
pub proof fn a_file_is_taken_up_afresh(m: TransferModel)
    requires
        m.stage is Poll,
        goal_of(m) is Some,
    ensures
        ({
            let at_it = TransferModel {
                goal: goal_of(m)->0,
                detail: Seq::empty(),
                digest: Seq::empty(),
                ..m
            };
            let written = if m.setting.job.route == Route::Relay {
                join_path(m.staging, m.task().staged)
            } else {
                goal_of(m)->0.here()
            };
            after(m, ReplyModel::Told(false)) == Some(
                enter_step(
                    at_it,
                    first_step(
                        m.file_job(),
                        m.task().plan,
                        m.existing.contains(m.task().target.there()),
                        parent(written) is Some,
                    ),
                ),
            )
        }),
        after(m, ReplyModel::Told(true))->0.stage is Cancel,
        after(m, ReplyModel::Told(true))->0.tally == m.tally,
{
}

// ---------------------------------------------------------------------------
// What a step asks for
// ---------------------------------------------------------------------------

/// Bytes go from the source to the goal; between two hosts they go by the place
/// where the file is staged.
pub proof fn bytes_go_from_source_to_goal(m: TransferModel, leg: Leg)
    requires
        m.stage == StageModel::Work(Step::Carry(leg)),
    ensures
        ({
            let job = m.setting.job;
            let here = m.task().source.here();
            let there = endpoint(m.setting.source_host(), m.task().source.there());
            let staged = join_path(m.staging, m.task().staged);
            let goal_here = m.goal.here();
            let goal_there = endpoint(m.setting.target_host, m.goal.there());
            let rsync = job.method == TransferMethod::Rsync;
            &&& job.route == Route::Local && !rsync ==> action_of(m) == ActionModel::CopyFile(
                here,
                goal_here,
            )
            &&& job.route == Route::Local && rsync ==> action_of(m) == ActionModel::Run(
                local_rsync_command(here, goal_here),
            )
            &&& job.route == Route::Upload && !rsync ==> action_of(m) == ActionModel::Run(
                scp_command(here, goal_there),
            )
            &&& job.route == Route::Upload && rsync ==> action_of(m) == ActionModel::Run(
                rsync_command(here, goal_there),
            )
            &&& job.route == Route::Download && !rsync ==> action_of(m) == ActionModel::Run(
                scp_command(there, goal_here),
            )
            &&& job.route == Route::Download && rsync ==> action_of(m) == ActionModel::Run(
                rsync_command(there, goal_here),
            )
            &&& job.route == Route::Relay && leg == Leg::Fetch && !rsync ==> action_of(m)
                == ActionModel::Run(scp_command(there, staged))
            &&& job.route == Route::Relay && leg == Leg::Fetch && rsync ==> action_of(m)
                == ActionModel::Run(rsync_command(there, staged))
            &&& job.route == Route::Relay && leg == Leg::Send && !rsync ==> action_of(m)
                == ActionModel::Run(scp_command(staged, goal_there))
            &&& job.route == Route::Relay && leg == Leg::Send && rsync ==> action_of(m)
                == ActionModel::Run(rsync_command(staged, goal_there))
        }),
{
}

/// The files at both ends of a leg are hashed, the one here and the one on the
/// host.
pub proof fn the_files_at_both_ends_are_hashed(m: TransferModel, leg: Leg)
    ensures
        m.stage == StageModel::Work(Step::HashHere(leg)) ==> action_of(m) == ActionModel::HashFile(
            if m.setting.job.route == Route::Relay {
                join_path(m.staging, m.task().staged)
            } else if m.setting.job.route == Route::Download {
                m.goal.here()
            } else {
                m.task().source.here()
            },
        ),
        m.stage == StageModel::Work(Step::HashThere(leg)) && (m.setting.job.route == Route::Upload
            || (m.setting.job.route == Route::Relay && leg == Leg::Send)) ==> action_of(m)
            == ActionModel::Capture(ssh_command(m.setting.target_host, hash_line(m.goal.there()))),
        m.stage == StageModel::Work(Step::HashThere(leg)) && (m.setting.job.route
            == Route::Download || (m.setting.job.route == Route::Relay && leg == Leg::Fetch))
            ==> action_of(m) == ActionModel::Capture(
            ssh_command(m.setting.source_host(), hash_line(m.task().source.there())),
        ),
{
}

/// Questions about files on this machine are about the source and the goal.
pub proof fn questions_are_about_source_and_goal(m: TransferModel, n: u32)
    ensures
        m.stage == StageModel::Work(Step::Probe) ==> action_of(m) == ActionModel::Exists(
            m.goal.here(),
        ),
        m.stage == StageModel::Work(Step::Compare) ==> action_of(m) == ActionModel::SameContents(
            m.task().source.here(),
            m.goal.here(),
        ),
        m.stage == StageModel::Work(Step::Check) ==> action_of(m) == ActionModel::SameContents(
            m.task().source.here(),
            m.goal.here(),
        ),
        m.stage == StageModel::Work(Step::Locate) ==> action_of(m) == ActionModel::SamePlace(
            m.task().source.here(),
            m.goal.here(),
        ),
        m.stage == StageModel::Work(Step::PickName(n)) ==> action_of(m) == ActionModel::Exists(
            local_candidate(m.goal.here(), n as nat),
        ),
        m.stage == StageModel::Work(Step::MakeParent) && parent(m.goal.here()) is Some
            && m.setting.job.route != Route::Relay ==> action_of(m) == ActionModel::MakeDirs(
            parent(m.goal.here())->0,
        ),
        m.stage == StageModel::Work(Step::MakeParent) && parent(
            join_path(m.staging, m.task().staged),
        ) is Some && m.setting.job.route == Route::Relay ==> action_of(m) == ActionModel::MakeDirs(
            parent(join_path(m.staging, m.task().staged))->0,
        ),
{
}

/// A removal takes away what its step says: the source at its end, the goal at
/// its own, or what was staged, and a rename goes from the source to the goal.
pub proof fn removals_take_what_they_name(m: TransferModel, o: Outcome)
    ensures
        m.stage == StageModel::Work(Step::DropIdentical) ==> action_of(m)
            == ActionModel::RemoveFile(m.task().source.here()),
        m.stage == StageModel::Work(Step::Shift) ==> action_of(m) == ActionModel::Rename(
            m.task().source.here(),
            m.goal.here(),
        ),
        m.stage == StageModel::Work(Step::DropStaged(o)) ==> action_of(m)
            == ActionModel::RemoveFile(join_path(m.staging, m.task().staged)),
        m.stage == StageModel::Work(Step::DropSource) && (m.setting.job.route == Route::Local
            || m.setting.job.route == Route::Upload) ==> action_of(m) == ActionModel::RemoveFile(
            m.task().source.here(),
        ),
        m.stage == StageModel::Work(Step::DropSource) && (m.setting.job.route == Route::Download
            || m.setting.job.route == Route::Relay) ==> action_of(m) == ActionModel::Run(
            ssh_command(m.setting.source_host(), remove_line(m.task().source.there())),
        ),
        m.stage == StageModel::Work(Step::DropTarget(o)) && (m.setting.job.route == Route::Local
            || m.setting.job.route == Route::Download) ==> action_of(m) == ActionModel::RemoveFile(
            m.goal.here(),
        ),
        m.stage == StageModel::Work(Step::DropTarget(o)) && (m.setting.job.route == Route::Upload
            || m.setting.job.route == Route::Relay) ==> action_of(m) == ActionModel::Run(
            ssh_command(m.setting.target_host, remove_line(m.goal.there())),
        ),
{
}

/// What is told of a transfer is how it stands: how many files are done of how
/// many and which was the last, the tally at the end, or what went wrong.
pub proof fn what_is_told_is_how_it_stands(m: TransferModel, e: Seq<char>, tidy: bool)
    ensures
        m.stage is Report ==> action_of(m) == ActionModel::Send(
            MessageModel::Progress {
                done: m.at + 1,
                total: m.tasks.len(),
                file: m.task().source.shown(),
            },
        ),
        m.stage is Close ==> action_of(m) == ActionModel::Send(MessageModel::Finished(m.tally)),
        m.stage is Cancel ==> action_of(m) == ActionModel::Send(MessageModel::Cancelled(m.tally)),
        m.stage == StageModel::Fail(e, tidy) ==> action_of(m) == ActionModel::Send(
            MessageModel::Error(e),
        ),
        m.stage is Tidy ==> action_of(m) == ActionModel::RemoveTree(m.staging),
        m.stage is Poll ==> action_of(m) == ActionModel::Poll,
        m.stage is Over ==> action_of(m) == ActionModel::Stop,
{
}

// ---------------------------------------------------------------------------
// What a reply means
// ---------------------------------------------------------------------------

/// A reply means what it says: done is done, a question is answered as it was
/// answered, a command went well if it says so and is told by its exit code if
/// not, and what could not be done has failed for the reason that was given.
pub proof fn replies_mean_what_they_say(step: Step, digest: Seq<char>, e: Seq<char>, code: i32)
    requires
        !(step is HashThere),
        !(step is HashHere),
    ensures
        heard(step, digest, ReplyModel::Did).0 == Signal::Yes,
        heard(step, digest, ReplyModel::Told(true)).0 == Signal::Yes,
        heard(step, digest, ReplyModel::Told(false)).0 == Signal::No,
        heard(step, digest, ReplyModel::Exited(true, Some(code))).0 == Signal::Yes,
        heard(step, digest, ReplyModel::Exited(true, None)).0 == Signal::Yes,
        heard(step, digest, ReplyModel::Exited(false, Some(code))).0 == Signal::No,
        code >= 0 ==> heard(step, digest, ReplyModel::Exited(false, Some(code))).1 == decimal(
            code as nat,
        ),
        code < 0 ==> heard(step, digest, ReplyModel::Exited(false, Some(code))).1 == seq!['-']
            + decimal((-(code as int)) as nat),
        heard(step, digest, ReplyModel::Exited(false, None)) == (
            Signal::No,
            seq!['-'] + decimal(1),
        ),
        heard(step, digest, ReplyModel::DidNot(e)) == (Signal::Failed, e),
{
}

/// The hash of the file here is remembered, and the file on the host is the same
/// exactly when the host could say its hash and it is that one.
pub proof fn hashes_are_remembered_and_compared(
    m: TransferModel,
    leg: Leg,
    hash: Seq<char>,
    e: Seq<char>,
    reply: ReplyModel,
)
    ensures
        heard_in(m, Step::HashHere(leg), ReplyModel::Hashed(hash)).0 == Signal::Yes,
        learned(m, Step::HashHere(leg), ReplyModel::Hashed(hash)).digest == hash,
        heard_in(m, Step::HashHere(leg), ReplyModel::DidNot(e)) == (
            Signal::Failed,
            "local hash error: "@ + e,
        ),
        match host_hash(reply) {
            Ok(h) => heard_in(m, Step::HashThere(leg), reply).0 == (if h == m.digest {
                Signal::Yes
            } else {
                Signal::No
            }),
            Err(why) => heard_in(m, Step::HashThere(leg), reply) == (Signal::Failed, why),
        },
{
}

/// What a host says of a hash is read from what it printed; where the command
/// could not be run, the reason is told.
pub proof fn a_host_says_a_hash_by_printing_it(
    success: bool,
    stdout: Seq<u8>,
    stderr: Seq<u8>,
    e: Seq<char>,
)
    ensures
        host_hash(ReplyModel::Printed { success, stdout, stderr }) == remote_hash(
            success,
            stdout,
            stderr,
        ),
        host_hash(ReplyModel::DidNot(e)) == Err::<Seq<char>, Seq<char>>(
            "Failed to run SSH for hash verification: "@ + e,
        ),
        host_hash(ReplyModel::Did) is Err,
        forall|b: bool| #[trigger] host_hash(ReplyModel::Told(b)) is Err,
{
}

/// There is no going on in one case alone: a file is to be renamed, and all the
/// names that could stand in for its own are taken.
pub proof fn there_is_no_going_on_only_without_a_name(m: TransferModel, reply: ReplyModel)
    ensures
        after(m, reply) is None <==> (m.stage is Poll && reply != ReplyModel::Told(true) && goal_of(
            m,
        ) is None) || (m.stage == StageModel::Work(Step::PickName(u32::MAX)) && heard_in(
            m,
            Step::PickName(u32::MAX),
            reply,
        ).0 == Signal::Yes),
        goal_of(m) is None ==> m.setting.job.conflict == ConflictMode::Rename && is_taken(m)
            && !some_free(m.task().target.there(), m.existing),
{
    a_file_goes_to_its_target_or_a_free_name(m);
}

/// A free stand-in becomes the goal, one that is taken or is the source itself
/// does not, and no other step changes where a file goes.
pub proof fn a_free_stand_in_becomes_the_goal(
    m: TransferModel,
    step: Step,
    n: u32,
    reply: ReplyModel,
)
    ensures
        ({
            let name = local_candidate(m.goal.here(), n as nat);
            let is_source = components(m.task().source.here()) == components(name);
            &&& !is_source ==> learned(m, Step::PickName(n), ReplyModel::Told(false)).goal
                == PlaceModel::Here(name)
            &&& learned(m, Step::PickName(n), ReplyModel::Told(true)).goal == m.goal
            &&& is_source ==> learned(m, Step::PickName(n), reply).goal == m.goal && heard_in(
                m,
                Step::PickName(n),
                reply,
            ).0 == Signal::Yes
            &&& !(step is PickName) ==> learned(m, step, reply).goal == m.goal
        }),
{
}

/// What went wrong with a step is remembered, but for the removal of a copy, and
/// what went well leaves it as it was.
pub proof fn what_went_wrong_is_remembered(
    m: TransferModel,
    step: Step,
    reply: ReplyModel,
    e: Seq<char>,
)
    requires
        !(step is HashThere),
        !(step is HashHere),
        !(step is PickName),
    ensures
        step is DropStaged || step is DropTarget ==> learned(m, step, reply).detail == m.detail,
        !(step is DropStaged) && !(step is DropTarget) ==> learned(
            m,
            step,
            ReplyModel::DidNot(e),
        ).detail == e,
        learned(m, step, ReplyModel::Did).detail == m.detail,
        learned(m, step, ReplyModel::Told(true)).detail == m.detail,
        learned(m, step, reply).tally == m.tally,
        learned(m, step, reply).tasks == m.tasks,
        learned(m, step, reply).at == m.at,
        learned(m, step, reply).digest == m.digest,
{
}

/// A copy that was compared with its own source and found to differ could not be
/// compared; any other reply to a step means for the transfer what it says.
pub proof fn a_file_is_not_compared_with_itself(m: TransferModel, step: Step, reply: ReplyModel)
    ensures
        components(m.task().source.here()) == components(m.goal.here()) ==> heard_in(
            m,
            Step::Check,
            ReplyModel::Told(false),
        ).0 == Signal::Failed,
        components(m.task().source.here()) != components(m.goal.here()) ==> heard_in(
            m,
            Step::Check,
            reply,
        ) == heard(Step::Check, m.digest, reply),
        heard_in(m, Step::Check, ReplyModel::Told(true)).0 == Signal::Yes,
        !(step is Check) && !(step is PickName) ==> heard_in(m, step, reply) == heard(
            step,
            m.digest,
            reply,
        ),
{
}

/// After a step a file goes on with the next, which the reply decides.
pub proof fn a_file_goes_on_by_the_reply(m: TransferModel, step: Step, reply: ReplyModel)
    requires
        m.stage == StageModel::Work(step),
        step != Step::PickName(u32::MAX),
    ensures
        after(m, reply) == Some(
            enter_step(
                learned(m, step, reply),
                next_step(m.file_job(), step, heard_in(m, step, reply).0),
            ),
        ),
{
}

// ---------------------------------------------------------------------------
// How files are counted
// ---------------------------------------------------------------------------

/// A file that arrived is counted and nothing is noted of it; of one that was
/// left out or failed there is one more note, behind those that are there, and
/// what was left out before is counted as before.
pub proof fn every_end_is_recorded(m: TransferModel, outcome: Outcome)
    ensures
        ({
            let t = recorded(m, outcome);
            let note = note_of(m.setting.job, outcome, m.task().source.shown(), m.detail);
            &&& t.excluded_files == m.tally.excluded_files
            &&& t.excluded_dirs == m.tally.excluded_dirs
            &&& outcome == Outcome::Copied ==> t.copied == m.tally.copied + 1 && t.skipped
                == m.tally.skipped && t.errors == m.tally.errors
            &&& outcome == Outcome::OutsideSource || outcome == Outcome::NoName || outcome
                == Outcome::Identical || outcome == Outcome::Differs || outcome
                == Outcome::AlreadyThere ==> t.copied == m.tally.copied && t.skipped
                == m.tally.skipped.push(note) && t.errors == m.tally.errors
            &&& mark_of(outcome) == Mark::Error ==> t.skipped == m.tally.skipped && t.errors
                == m.tally.errors.push(note)
            &&& mark_of(outcome) == Mark::Error && outcome != Outcome::SourceKept ==> t.copied
                == m.tally.copied
            &&& outcome == Outcome::SourceKept ==> t.copied == m.tally.copied + (if
                m.setting.job.route == Route::Local && m.setting.job.method
                == TransferMethod::Standard {
                0int
            } else {
                1
            })
        }),
{
}

/// A file that has ended is recorded and reported, or the next one is taken up;
/// behind the last, what was staged is tidied away between two hosts, and the
/// transfer closes.
pub proof fn files_come_one_after_the_other(m: TransferModel, outcome: Outcome, reply: ReplyModel)
    requires
        m.at < m.tasks.len(),
    ensures
        ({
            let x = enter_step(m, Step::End(outcome));
            let is_silent = outcome == Outcome::OutsideSource || outcome == Outcome::NoName
                || outcome == Outcome::ParentFailed;
            &&& x.tally == recorded(m, outcome)
            &&& x.tasks == m.tasks
            &&& !is_silent ==> x.stage is Report && x.at == m.at
            &&& is_silent ==> x.at == m.at + 1 && (m.at + 1 < m.tasks.len() ==> x.stage is Poll)
        }),
        m.stage is Report ==> {
            let x = after(m, reply)->0;
            &&& after(m, reply) is Some
            &&& x.at == m.at + 1
            &&& x.tally == m.tally
            &&& x.tasks == m.tasks
            &&& m.at + 1 < m.tasks.len() ==> x.stage is Poll
            &&& m.at + 1 == m.tasks.len() && m.setting.job.route != Route::Relay ==> x.stage is Close
            &&& m.at + 1 == m.tasks.len() && m.setting.job.route == Route::Relay ==> x.stage
                == StageModel::Tidy(true)
        },
{
}

/// What was staged is tidied away before a transfer between two hosts closes, and
/// after it has failed; then it is over.
pub proof fn a_transfer_closes_behind_itself(m: TransferModel, reply: ReplyModel, e: Seq<char>)
    ensures
        m.stage == StageModel::Tidy(true) ==> after(m, reply)->0.stage is Close,
        m.stage == StageModel::Tidy(false) ==> after(m, reply)->0.stage is Over,
        m.stage == StageModel::Fail(e, true) ==> after(m, reply)->0.stage == StageModel::Tidy(
            false,
        ),
        m.stage == StageModel::Fail(e, false) ==> after(m, reply)->0.stage is Over,
        m.stage is Close || m.stage is Cancel || m.stage is Over ==> after(
            m,
            reply,
        )->0.stage is Over,
        m.stage is Tidy || m.stage is Close || m.stage is Cancel ==> after(m, reply)->0.tally
            == m.tally,
{
}

} // verus!
