//! A transfer: it says what to do next, takes the reply, and goes on, until
//! every file has been dealt with.

use vstd::prelude::*;
use vstd::utf8::*;

use crate::cli::Request;
use crate::exclusion::copied_entries;
use crate::exchange::{Action, Reply, Tally, WorkerMsg};
#[allow(unused_imports)]
use crate::exchange::{empty_tally, ActionModel, MessageModel, ReplyModel, TallyModel};
use crate::integrity::{parse_remote_hash, verify_remote_hash};
#[allow(unused_imports)]
use crate::integrity::{hash_verdict, remote_hash};
use crate::names::{free_remote_path, local_candidate_path};
#[allow(unused_imports)]
use crate::names::{free_from, local_candidate};
use crate::notes::{is_counted, mark, note, reports, Mark};
#[allow(unused_imports)]
use crate::notes::{counts, is_reported, mark_of, note_of};
use crate::paths::{join_paths, parent_of};
#[allow(unused_imports)]
use crate::paths::{has_root, join_path, parent};
use crate::plan::{copied_path, dirs_for, is_same_path, Place, Task};
#[allow(unused_imports)]
use crate::plan::{
    relayed_files_are_staged_below_the_directory, remote_dirs, same_path, tasks_of, PlaceModel,
    TaskModel,
};
use crate::request::{ConflictMode, SourceSelection, TransferMethod};
#[allow(unused_imports)]
use crate::request::SourceModel;
use crate::setting::{gather, settle_request, Gathered, Setting};
#[allow(unused_imports)]
use crate::setting::{
    gathered, listed, remote_tasks, setting_of, GatheredModel, SettingModel,
};
use crate::setup::{advance_setup, setup_trouble, start_setup, SetupStep};
#[allow(unused_imports)]
use crate::setup::{
    first_setup, fits_route, next_setup, setup_failure, the_setup_keeps_to_its_route,
};
use crate::shell::{
    bytes_of, endpoint_bytes, find_text, hash_text, local_rsync, mkdir_text, remove_text, rsync,
    rsync_version, scp, ssh,
};
#[allow(unused_imports)]
use crate::shell::{
    endpoint, find_line, greeting_line, hash_line, local_rsync_command, mkdir_line, remove_line,
    rsync_command, rsync_version_command, scp_command, ssh_command,
};
#[allow(unused_imports)]
use crate::step_laws::{next_step_fits, step_fits};
use crate::steps::{advance_step, start, Job, Leg, Outcome, Route, Signal, Step};
#[allow(unused_imports)]
use crate::steps::Plan;
#[allow(unused_imports)]
use crate::steps::{first_step, has_next, next_step};
use crate::text::{
    concat2, line_texts, lists, lossy_text, owned, same_text, signed_decimal_text,
};
#[allow(unused_imports)]
use crate::text::{lines, signed_decimal, texts, utf8_lossy};

verus! {

// ---------------------------------------------------------------------------
// The state
// ---------------------------------------------------------------------------

/// Where a transfer stands.
#[derive(Debug)]
pub enum Stage {
    /// Before the first file.
    Setup(SetupStep),
    /// Before the next file.
    Poll,
    /// At a file.
    Work(Step),
    /// Behind a file.
    Report,
    /// It has failed; the flag says whether there is something to tidy up.
    Fail(String, bool),
    /// The directory in which files were staged is removed; the flag says
    /// whether the transfer is finished with that.
    Tidy(bool),
    /// Behind the last file.
    Close,
    /// It was cancelled.
    Cancel,
    /// It is over.
    Over,
}

/// The value of a `Stage`.
pub enum StageModel {
    Setup(SetupStep),
    Poll,
    Work(Step),
    Report,
    Fail(Seq<char>, bool),
    Tidy(bool),
    Close,
    Cancel,
    Over,
}

impl View for Stage {
    type V = StageModel;

    open spec fn view(&self) -> StageModel {
        match self {
            Stage::Setup(s) => StageModel::Setup(*s),
            Stage::Poll => StageModel::Poll,
            Stage::Work(s) => StageModel::Work(*s),
            Stage::Report => StageModel::Report,
            Stage::Fail(e, t) => StageModel::Fail(e@, *t),
            Stage::Tidy(f) => StageModel::Tidy(*f),
            Stage::Close => StageModel::Close,
            Stage::Cancel => StageModel::Cancel,
            Stage::Over => StageModel::Over,
        }
    }
}

/// A transfer.
#[derive(Debug)]
pub struct Transfer {
    setting: Setting,
    stage: Stage,
    staging: Vec<u8>,
    tasks: Vec<Task>,
    existing: Vec<String>,
    at: usize,
    goal: Place,
    detail: String,
    digest: String,
    tally: Tally,
}

/// The value of a `Transfer`.
#[verifier::ext_equal]
pub struct TransferModel {
    /// What was settled before it began.
    pub setting: SettingModel,
    /// Where it stands.
    pub stage: StageModel,
    /// The directory in which files are staged.
    pub staging: Seq<u8>,
    /// The files.
    pub tasks: Seq<TaskModel>,
    /// The files that were on the host of the target before.
    pub existing: Seq<Seq<char>>,
    /// Which file is next.
    pub at: nat,
    /// Where the file goes that is being dealt with.
    pub goal: PlaceModel,
    /// What is known of the last thing that went wrong with it.
    pub detail: Seq<char>,
    /// Its hash on this machine.
    pub digest: Seq<char>,
    /// How the files before it have fared.
    pub tally: TallyModel,
}

impl View for Transfer {
    type V = TransferModel;

    closed spec fn view(&self) -> TransferModel {
        TransferModel {
            setting: self.setting@,
            stage: self.stage@,
            staging: self.staging@,
            tasks: tasks_of(self.tasks@),
            existing: texts(self.existing@),
            at: self.at as nat,
            goal: self.goal@,
            detail: self.detail@,
            digest: self.digest@,
            tally: self.tally@,
        }
    }
}

impl TransferModel {
    /// The file that is being dealt with.
    pub open spec fn task(self) -> TaskModel {
        self.tasks[self.at as int]
    }

    /// Where the file is staged.
    pub open spec fn staged(self) -> Seq<u8> {
        join_path(self.staging, self.task().staged)
    }

    /// Where the file is written on this machine, where it is.
    pub open spec fn written(self) -> Seq<u8> {
        if self.setting.job.route == Route::Relay {
            self.staged()
        } else {
            self.goal.here()
        }
    }

    /// Whether the file that is being dealt with is to go to where it is.
    pub open spec fn is_in_place(self) -> bool {
        match (self.setting.job.route, goal_of(self)) {
            (Route::Local, _) => same_path(self.task().source.here(), self.task().target.here()),
            (Route::Relay, Some(goal)) => self.setting.source_host() == self.setting.target_host
                && same_path(
                encode_utf8(self.task().source.there()),
                encode_utf8(goal.there()),
            ),
            // The one end is on this machine, the other on a host.
            _ => false,
        }
    }

    /// Whether the source is where the file goes on this machine, as far as
    /// that has been settled.
    pub open spec fn is_its_own_goal(self) -> bool {
        same_path(self.task().source.here(), self.goal.here())
    }

    /// What is to be done with the file that is being dealt with. One that is
    /// to go to where it is is not moved.
    pub open spec fn file_job(self) -> Job {
        Job { moving: self.setting.job.moving && !self.is_in_place(), ..self.setting.job }
    }

    /// Whether a file is being dealt with, or about to be.
    pub open spec fn is_at_a_file(self) -> bool {
        self.stage is Poll || self.stage is Work || self.stage is Report
    }

    /// How many files have come to their end.
    pub open spec fn ended(self) -> nat {
        if self.stage is Report {
            self.at + 1
        } else {
            self.at
        }
    }

    /// Whether each file is either counted or has one note, and not both.
    pub open spec fn is_exact(self) -> bool {
        let job = self.setting.job;
        job.route != Route::Upload && (!job.moving || (job.route == Route::Local && job.method
            == TransferMethod::Standard))
    }

    /// What holds of the files: one that is staged is staged below the
    /// directory for that.
    pub open spec fn files_wf(self) -> bool {
        self.setting.job.route == Route::Relay ==> forall|i: int|
            0 <= i < self.tasks.len() ==> !has_root((#[trigger] self.tasks[i]).staged)
    }

    /// Whether the targets on this machine lie below the destination.
    pub open spec fn lies_below(self) -> bool {
        (self.setting.job.route == Route::Local || self.setting.job.route == Route::Download)
            && self.setting.has_a_source() ==> forall|i: int|
            0 <= i < self.tasks.len() && (#[trigger] self.tasks[i]).plan == Plan::Go
                ==> self.setting.dst().is_prefix_of(self.tasks[i].target.here())
    }

    /// What holds of a file that is being dealt with: it is not at its end, and
    /// takes a step of its route. On this machine, it goes to where it is only
    /// where that was so from the start, and then nothing is removed.
    pub open spec fn work_wf(self, step: Step) -> bool {
        &&& !(step is End)
        &&& step_fits(self.file_job(), step)
        &&& self.setting.job.route == Route::Local && !self.is_in_place()
            ==> !self.is_its_own_goal()
        &&& self.setting.job.route == Route::Local && step is DropTarget
            ==> !self.is_its_own_goal()
        &&& self.setting.job.route == Route::Relay ==> goal_of(self) == Some(self.goal)
    }

    /// What holds of a transfer at all times.
    pub open spec fn wf(self) -> bool {
        &&& self.files_wf()
        // Only a host is listed.
        &&& self.setting.job.route == Route::Local || self.setting.job.route == Route::Download
            ==> self.existing.len() == 0
        &&& match self.stage {
            StageModel::Setup(step) => fits_route(self.setting.job, step),
            _ => true,
        }
        &&& self.at <= self.tasks.len()
        &&& self.is_at_a_file() ==> self.at < self.tasks.len()
        &&& self.stage is Setup ==> self.at == 0 && self.stage != StageModel::Setup(
            SetupStep::Ready,
        )
        &&& match self.stage {
            StageModel::Work(step) => self.work_wf(step),
            _ => true,
        }
        // No more files are counted than have ended, and each of them is
        // counted or mentioned.
        &&& self.tally.copied <= self.ended()
        &&& self.ended() <= self.tally.copied + self.tally.skipped.len() + self.tally.errors.len()
        &&& self.is_exact() ==> self.ended() == self.tally.copied + self.tally.skipped.len()
            + self.tally.errors.len()
        // A transfer that has failed has dealt with no file.
        &&& self.stage is Fail || self.stage == StageModel::Tidy(false) ==> self.at == 0
        // Nothing is left out of a transfer that is finished.
        &&& self.stage is Close ==> self.at == self.tasks.len()
        &&& self.stage == StageModel::Tidy(true) ==> self.at == self.tasks.len()
    }
}

// ---------------------------------------------------------------------------
// Going on
// ---------------------------------------------------------------------------

/// A transfer of which nothing was done yet.
pub open spec fn begun(s: SettingModel) -> TransferModel {
    TransferModel {
        setting: s,
        stage: StageModel::Setup(first_setup(s.job)),
        staging: Seq::empty(),
        tasks: Seq::empty(),
        existing: Seq::empty(),
        at: 0,
        goal: PlaceModel::Here(Seq::empty()),
        detail: Seq::empty(),
        digest: Seq::empty(),
        tally: empty_tally(),
    }
}

/// The next file is taken up, or the end.
pub open spec fn settle(m: TransferModel) -> TransferModel {
    TransferModel {
        stage: if m.at < m.tasks.len() {
            StageModel::Poll
        } else if m.setting.job.route == Route::Relay {
            StageModel::Tidy(true)
        } else {
            StageModel::Close
        },
        ..m
    }
}

/// The setup goes on, or the first file is taken up.
pub open spec fn enter_setup(m: TransferModel, step: SetupStep) -> TransferModel {
    if step == SetupStep::Ready {
        settle(m)
    } else {
        TransferModel { stage: StageModel::Setup(step), ..m }
    }
}

/// What follows when the files are known.
pub open spec fn after_gather(m: TransferModel, g: GatheredModel) -> TransferModel {
    let tally = TallyModel {
        copied: 0,
        skipped: g.notes,
        excluded_files: g.excluded_files,
        excluded_dirs: g.excluded_dirs,
        errors: Seq::empty(),
    };
    if g.any {
        enter_setup(
            TransferModel { tasks: g.tasks, tally, ..m },
            next_setup(m.setting.job, SetupStep::Gather, true),
        )
    } else {
        TransferModel { tasks: Seq::empty(), tally, stage: StageModel::Close, ..m }
    }
}

/// What the reply to a step of the setup tells, where it went well.
pub open spec fn told_by(m: TransferModel, step: SetupStep, reply: ReplyModel) -> TransferModel {
    match (step, reply) {
        (SetupStep::MakeStaging, ReplyModel::Staged(dir)) => TransferModel { staging: dir, ..m },
        (SetupStep::ListTarget, ReplyModel::Printed { stdout, .. }) => TransferModel {
            existing: lines(utf8_lossy(stdout)),
            ..m
        },
        _ => m,
    }
}

/// The host that a step of the setup is about.
pub open spec fn setup_host(s: SettingModel, step: SetupStep) -> Seq<char> {
    if step == SetupStep::CheckSource {
        s.source_host()
    } else {
        s.target_host
    }
}

/// What follows a step of the setup.
pub open spec fn after_setup(m: TransferModel, step: SetupStep, reply: ReplyModel)
    -> TransferModel {
    let job = m.setting.job;
    if step == SetupStep::Gather {
        match gathered(m.setting, reply) {
            Ok(g) => after_gather(m, g),
            Err(e) => TransferModel { stage: StageModel::Fail(e, false), ..m },
        }
    } else {
        match setup_failure(job, step, setup_host(m.setting, step), reply) {
            Some(e) => TransferModel {
                stage: StageModel::Fail(
                    e,
                    step == SetupStep::MakeRemoteDirs && job.route == Route::Relay,
                ),
                ..m
            },
            None => enter_setup(
                told_by(m, step, reply),
                next_setup(job, step, reply == ReplyModel::Told(true)),
            ),
        }
    }
}

/// The tally with the outcome of the file that is being dealt with.
pub open spec fn recorded(m: TransferModel, outcome: Outcome) -> TallyModel {
    let job = m.setting.job;
    let text = note_of(job, outcome, m.task().source.shown(), m.detail);
    TallyModel {
        copied: if counts(job, outcome) {
            m.tally.copied + 1
        } else {
            m.tally.copied
        },
        skipped: if mark_of(outcome) == Mark::Skipped {
            m.tally.skipped.push(text)
        } else {
            m.tally.skipped
        },
        errors: if mark_of(outcome) == Mark::Error {
            m.tally.errors.push(text)
        } else {
            m.tally.errors
        },
        ..m.tally
    }
}

/// The file goes on with a step, or comes to its end.
pub open spec fn enter_step(m: TransferModel, step: Step) -> TransferModel {
    match step {
        Step::End(outcome) => {
            let done = TransferModel { tally: recorded(m, outcome), ..m };
            if is_reported(outcome) {
                TransferModel { stage: StageModel::Report, ..done }
            } else {
                settle(TransferModel { at: m.at + 1, ..done })
            }
        },
        _ => TransferModel { stage: StageModel::Work(step), ..m },
    }
}

/// Whether a file of the target's name was on the host before.
pub open spec fn is_taken(m: TransferModel) -> bool {
    m.existing.contains(m.task().target.there())
}

/// Where the next file goes: to its target, or to a free name beside it.
pub open spec fn goal_of(m: TransferModel) -> Option<PlaceModel> {
    if is_taken(m) && m.setting.job.conflict == ConflictMode::Rename {
        match free_from(m.task().target.there(), m.existing, 1) {
            Some(path) => Some(PlaceModel::There(path)),
            None => None,
        }
    } else {
        Some(m.task().target)
    }
}

/// The next file is taken up; there is no going on where all the names for it
/// are used up.
pub open spec fn open_file(m: TransferModel) -> Option<TransferModel> {
    match goal_of(m) {
        None => None,
        Some(goal) => {
            let at_it = TransferModel { goal, detail: Seq::empty(), digest: Seq::empty(), ..m };
            Some(
                enter_step(
                    at_it,
                    first_step(
                        m.file_job(),
                        m.task().plan,
                        is_taken(m),
                        parent(at_it.written()) is Some,
                    ),
                ),
            )
        },
    }
}

/// What the host says of its file's hash.
pub open spec fn host_hash(reply: ReplyModel) -> Result<Seq<char>, Seq<char>> {
    match reply {
        ReplyModel::Printed { success, stdout, stderr } => remote_hash(success, stdout, stderr),
        ReplyModel::DidNot(e) => Err("Failed to run SSH for hash verification: "@ + e),
        _ => Err("Failed to run SSH for hash verification: "@),
    }
}

/// What a verdict on two hashes means for the file.
pub open spec fn verdict_signal(verdict: Result<bool, Seq<char>>) -> (Signal, Seq<char>) {
    match verdict {
        Ok(true) => (Signal::Yes, Seq::empty()),
        Ok(false) => (Signal::No, Seq::empty()),
        Err(e) => (Signal::Failed, e),
    }
}

/// What a reply means for the file, and what it tells of what went wrong. A
/// reply that does not answer what was asked counts as a failure.
pub open spec fn heard(step: Step, digest: Seq<char>, reply: ReplyModel) -> (Signal, Seq<char>) {
    match (step, reply) {
        (Step::HashThere(_), _) => verdict_signal(hash_verdict(Ok(digest), host_hash(reply))),
        (Step::HashHere(_), ReplyModel::DidNot(e)) => verdict_signal(
            hash_verdict(Err(e), Ok(digest)),
        ),
        (_, ReplyModel::Did) | (_, ReplyModel::Hashed(_)) | (_, ReplyModel::Told(true)) => (
            Signal::Yes,
            Seq::empty(),
        ),
        (_, ReplyModel::Told(false)) => (Signal::No, Seq::empty()),
        (_, ReplyModel::Exited(success, code)) => if success {
            (Signal::Yes, Seq::empty())
        } else {
            (
                Signal::No,
                signed_decimal(
                    match code {
                        Some(c) => c as int,
                        None => -1,
                    },
                ),
            )
        },
        (_, ReplyModel::DidNot(e)) => (Signal::Failed, e),
        _ => (Signal::Failed, Seq::empty()),
    }
}

/// What a reply means for the file of a transfer. A stand-in for the target
/// that is the source's own path counts as taken, whatever the reply, and a
/// file that was to be compared with itself and was not the same could not be
/// compared.
pub open spec fn heard_in(m: TransferModel, step: Step, reply: ReplyModel) -> (
    Signal,
    Seq<char>,
) {
    match step {
        Step::PickName(n) => if same_path(
            m.task().source.here(),
            local_candidate(m.goal.here(), n as nat),
        ) {
            (Signal::Yes, Seq::empty())
        } else {
            heard(step, m.digest, reply)
        },
        Step::Check => match heard(step, m.digest, reply) {
            (Signal::No, text) if m.is_its_own_goal() => (Signal::Failed, text),
            answer => answer,
        },
        _ => heard(step, m.digest, reply),
    }
}

/// Whether what goes wrong with a step is told later on.
pub open spec fn is_told(step: Step) -> bool {
    match step {
        Step::DropStaged(_) | Step::DropTarget(_) => false,
        _ => true,
    }
}

/// What the reply to a step leaves behind.
pub open spec fn learned(m: TransferModel, step: Step, reply: ReplyModel) -> TransferModel {
    let (signal, text) = heard_in(m, step, reply);
    TransferModel {
        goal: match step {
            Step::PickName(n) => if signal != Signal::Yes {
                PlaceModel::Here(local_candidate(m.goal.here(), n as nat))
            } else {
                m.goal
            },
            _ => m.goal,
        },
        digest: match (step, reply) {
            (Step::HashHere(_), ReplyModel::Hashed(h)) => h,
            _ => m.digest,
        },
        detail: if signal != Signal::Yes && is_told(step) {
            text
        } else {
            m.detail
        },
        ..m
    }
}

/// What follows a step of a file; there is no going on where all the names
/// for it are used up.
pub open spec fn after_work(m: TransferModel, step: Step, reply: ReplyModel) -> Option<
    TransferModel,
> {
    let signal = heard_in(m, step, reply).0;
    if has_next(step, signal) {
        Some(enter_step(learned(m, step, reply), next_step(m.file_job(), step, signal)))
    } else {
        None
    }
}

/// What follows the action of a transfer and the reply to it.
pub open spec fn after(m: TransferModel, reply: ReplyModel) -> Option<TransferModel> {
    match m.stage {
        StageModel::Setup(step) => Some(after_setup(m, step, reply)),
        StageModel::Poll => if reply == ReplyModel::Told(true) {
            Some(TransferModel { stage: StageModel::Cancel, ..m })
        } else {
            open_file(m)
        },
        StageModel::Work(step) => after_work(m, step, reply),
        StageModel::Report => Some(settle(TransferModel { at: m.at + 1, ..m })),
        StageModel::Fail(_, tidy) => Some(
            TransferModel {
                stage: if tidy {
                    StageModel::Tidy(false)
                } else {
                    StageModel::Over
                },
                ..m
            },
        ),
        StageModel::Tidy(finish) => Some(
            TransferModel {
                stage: if finish {
                    StageModel::Close
                } else {
                    StageModel::Over
                },
                ..m
            },
        ),
        _ => Some(TransferModel { stage: StageModel::Over, ..m }),
    }
}

// ---------------------------------------------------------------------------
// What is to be done
// ---------------------------------------------------------------------------

/// What a step of the setup asks for.
pub open spec fn setup_action(m: TransferModel, step: SetupStep) -> ActionModel {
    let s = m.setting;
    match step {
        SetupStep::CheckSource | SetupStep::CheckTarget => ActionModel::Capture(
            ssh_command(setup_host(s, step), greeting_line()),
        ),
        SetupStep::CheckRsync => ActionModel::Capture(rsync_version_command()),
        SetupStep::Gather => match s.source {
            SourceModel::Directory(dir) => ActionModel::Walk(dir, s.patterns),
            SourceModel::Remote(host, path) => ActionModel::Capture(
                ssh_command(host, find_line(path)),
            ),
            _ => ActionModel::Pass,
        },
        SetupStep::ProbeTarget => ActionModel::Exists(s.dst()),
        SetupStep::MakeTarget => ActionModel::MakeDirs(s.dst()),
        SetupStep::MakeStaging => ActionModel::MakeStaging,
        SetupStep::MakeRemoteDirs => ActionModel::Capture(
            ssh_command(s.target_host, mkdir_line(remote_dirs(s.target_base(), m.tasks))),
        ),
        SetupStep::ListTarget => ActionModel::Capture(
            ssh_command(s.target_host, find_line(s.target_base())),
        ),
        SetupStep::Ready => ActionModel::Pass,
    }
}

/// Where the bytes come from on a leg.
pub open spec fn carried_from(m: TransferModel, leg: Leg) -> Seq<u8> {
    match (m.setting.job.route, leg) {
        (Route::Local, _) | (Route::Upload, _) => m.task().source.here(),
        (Route::Download, _) | (Route::Relay, Leg::Fetch) => endpoint(
            m.setting.source_host(),
            m.task().source.there(),
        ),
        (Route::Relay, Leg::Send) => m.staged(),
    }
}

/// Where the bytes go on a leg.
pub open spec fn carried_to(m: TransferModel, leg: Leg) -> Seq<u8> {
    match (m.setting.job.route, leg) {
        (Route::Local, _) | (Route::Download, _) => m.goal.here(),
        (Route::Relay, Leg::Fetch) => m.staged(),
        (Route::Upload, _) | (Route::Relay, Leg::Send) => endpoint(
            m.setting.target_host,
            m.goal.there(),
        ),
    }
}

/// How the bytes are moved on a leg.
pub open spec fn carry_action(m: TransferModel, leg: Leg) -> ActionModel {
    let from = carried_from(m, leg);
    let to = carried_to(m, leg);
    match (m.setting.job.route, m.setting.job.method) {
        (Route::Local, TransferMethod::Standard) => ActionModel::CopyFile(from, to),
        (Route::Local, TransferMethod::Rsync) => ActionModel::Run(local_rsync_command(from, to)),
        (_, TransferMethod::Standard) => ActionModel::Run(scp_command(from, to)),
        (_, TransferMethod::Rsync) => ActionModel::Run(rsync_command(from, to)),
    }
}

/// The file on this machine that is hashed.
pub open spec fn hashed_here(m: TransferModel) -> Seq<u8> {
    match m.setting.job.route {
        Route::Local | Route::Upload => m.task().source.here(),
        Route::Download => m.goal.here(),
        Route::Relay => m.staged(),
    }
}

/// The host, and the file on it, that is hashed.
pub open spec fn hashed_there(m: TransferModel, leg: Leg) -> (Seq<char>, Seq<char>) {
    if m.setting.job.route == Route::Download || (m.setting.job.route == Route::Relay && leg
        == Leg::Fetch) {
        (m.setting.source_host(), m.task().source.there())
    } else {
        (m.setting.target_host, m.goal.there())
    }
}

/// What a step of a file asks for.
pub open spec fn step_action(m: TransferModel, step: Step) -> ActionModel {
    let route = m.setting.job.route;
    match step {
        Step::MakeParent => ActionModel::MakeDirs(
            match parent(m.written()) {
                Some(dir) => dir,
                None => Seq::empty(),
            },
        ),
        Step::Probe => ActionModel::Exists(m.goal.here()),
        Step::Compare | Step::Check => ActionModel::SameContents(
            m.task().source.here(),
            m.goal.here(),
        ),
        Step::Locate => ActionModel::SamePlace(m.task().source.here(), m.goal.here()),
        Step::DropIdentical => ActionModel::RemoveFile(m.task().source.here()),
        Step::PickName(n) => ActionModel::Exists(local_candidate(m.goal.here(), n as nat)),
        Step::Shift => ActionModel::Rename(m.task().source.here(), m.goal.here()),
        Step::Carry(leg) => carry_action(m, leg),
        Step::HashHere(_) => ActionModel::HashFile(hashed_here(m)),
        Step::HashThere(leg) => ActionModel::Capture(
            ssh_command(hashed_there(m, leg).0, hash_line(hashed_there(m, leg).1)),
        ),
        Step::DropStaged(_) => ActionModel::RemoveFile(m.staged()),
        Step::DropTarget(_) => if route == Route::Upload || route == Route::Relay {
            ActionModel::Run(ssh_command(m.setting.target_host, remove_line(m.goal.there())))
        } else {
            ActionModel::RemoveFile(m.goal.here())
        },
        Step::DropSource => if route == Route::Download || route == Route::Relay {
            ActionModel::Run(
                ssh_command(m.setting.source_host(), remove_line(m.task().source.there())),
            )
        } else {
            ActionModel::RemoveFile(m.task().source.here())
        },
        Step::End(_) => ActionModel::Pass,
    }
}

/// What a transfer asks for.
pub open spec fn action_of(m: TransferModel) -> ActionModel {
    match m.stage {
        StageModel::Setup(step) => setup_action(m, step),
        StageModel::Poll => ActionModel::Poll,
        StageModel::Work(step) => step_action(m, step),
        StageModel::Report => ActionModel::Send(
            MessageModel::Progress {
                done: m.at + 1,
                total: m.tasks.len(),
                file: m.task().source.shown(),
            },
        ),
        StageModel::Fail(e, _) => ActionModel::Send(MessageModel::Error(e)),
        StageModel::Tidy(_) => ActionModel::RemoveTree(m.staging),
        StageModel::Close => ActionModel::Send(MessageModel::Finished(m.tally)),
        StageModel::Cancel => ActionModel::Send(MessageModel::Cancelled(m.tally)),
        StageModel::Over => ActionModel::Stop,
    }
}

// ---------------------------------------------------------------------------
// The invariant
// ---------------------------------------------------------------------------

proof fn entering_keeps_wf(m: TransferModel, step: Step)
    requires
        m.at < m.tasks.len(),
        m.tally.copied <= m.at,
        m.at <= m.tally.copied + m.tally.skipped.len() + m.tally.errors.len(),
        m.is_exact() ==> m.at == m.tally.copied + m.tally.skipped.len() + m.tally.errors.len(),
        step == Step::End(Outcome::SourceKept) ==> m.setting.job.moving,
        step is End || m.work_wf(step),
        m.files_wf(),
        m.setting.job.route == Route::Local || m.setting.job.route == Route::Download
            ==> m.existing.len() == 0,
    ensures
        enter_step(m, step).wf(),
{
    let next = enter_step(m, step);
    assert(next.tasks == m.tasks && next.setting == m.setting && next.existing == m.existing);
    assert(next.files_wf());
    if !(step is End) {
        stays_in_place(m, next);
    }
}

/// Whether a file is to go to where it is stays the same while it is being
/// dealt with.
pub proof fn stays_in_place(m: TransferModel, next: TransferModel)
    requires
        next.setting == m.setting,
        next.tasks == m.tasks,
        next.existing == m.existing,
        next.at == m.at,
    ensures
        goal_of(next) == goal_of(m),
        next.is_in_place() == m.is_in_place(),
        next.file_job() == m.file_job(),
{
    assert(next.task() == m.task());
}

proof fn gathered_files_are_wf(s: SettingModel, reply: ReplyModel)
    requires
        gathered(s, reply) is Ok,
    ensures
        ({
            let tasks = (gathered(s, reply)->Ok_0).tasks;
            &&& s.job.route == Route::Relay ==> forall|i: int|
                0 <= i < tasks.len() ==> !has_root((#[trigger] tasks[i]).staged)
            &&& s.job.route != Route::Upload ==> (gathered(s, reply)->Ok_0).notes.len() == 0
        }),
{
    if s.job.route == Route::Relay {
        let l = listed(s, reply)->Ok_0;
        let tasks = remote_tasks(s, l.files);
        assert forall|i: int| 0 <= i < tasks.len() implies !has_root(
            (#[trigger] tasks[i]).staged,
        ) by {
            relayed_files_are_staged_below_the_directory(
                s.source_base(),
                s.mode,
                s.strip_spaces,
                s.target_base(),
                l.files[i],
                Seq::empty(),
            );
        }
    }
}

proof fn setting_up_keeps_wf(m: TransferModel, step: SetupStep, reply: ReplyModel)
    requires
        m.wf(),
        m.stage == StageModel::Setup(step),
    ensures
        after_setup(m, step, reply).wf(),
{
    let job = m.setting.job;
    the_setup_keeps_to_its_route(job, step, true);
    the_setup_keeps_to_its_route(job, step, false);
    if step == SetupStep::Gather {
        if let Ok(g) = gathered(m.setting, reply) {
            gathered_files_are_wf(m.setting, reply);
            let next = after_gather(m, g);
            assert(next.files_wf());
        }
    } else {
        let next = after_setup(m, step, reply);
        assert(next.tasks == m.tasks);
        assert(next.files_wf());
    }
}

/// What holds of a transfer holds on, whatever the world replies.
pub proof fn going_on_keeps_wf(m: TransferModel, reply: ReplyModel)
    requires
        m.wf(),
    ensures
        match after(m, reply) {
            Some(next) => next.wf(),
            None => true,
        },
{
    match m.stage {
        StageModel::Setup(step) => {
            setting_up_keeps_wf(m, step, reply);
        },
        StageModel::Poll => {
            if let Some(goal) = goal_of(m) {
                let at_it = TransferModel { goal, detail: Seq::empty(), digest: Seq::empty(), ..m };
                let step = first_step(
                    m.file_job(),
                    m.task().plan,
                    is_taken(m),
                    parent(at_it.written()) is Some,
                );
                assert(at_it.files_wf());
                stays_in_place(m, at_it);
                assert(is_taken(at_it) == is_taken(m));
                if m.setting.job.route == Route::Local {
                    assert(!is_taken(m));
                    assert(goal == m.task().target);
                }
                entering_keeps_wf(at_it, step);
            }
        },
        StageModel::Work(step) => {
            let signal = heard_in(m, step, reply).0;
            let job = m.file_job();
            let next = next_step(job, step, signal);
            next_step_fits(job, step, signal);
            let there = learned(m, step, reply);
            assert(there.files_wf());
            stays_in_place(m, there);
            if !(next is End) {
                assert(there.work_wf(next));
            }
            entering_keeps_wf(there, next);
        },
        _ => {
            if let Some(next) = after(m, reply) {
                assert(next.tasks == m.tasks);
                assert(next.files_wf());
            }
        },
    }
}

// ---------------------------------------------------------------------------
// The transfer itself
// ---------------------------------------------------------------------------

/// What is known once a reply was heard: what it means for the file, and what
/// it tells of what went wrong.
fn hear(step: Step, digest: &String, reply: &Reply) -> (r: (Signal, String))
    ensures
        (r.0, r.1@) == heard(step, digest@, reply@),
{
    proof {
        reveal_strlit("");
        assert(""@ == Seq::<char>::empty());
    }
    match step {
        Step::HashThere(_) => {
            let there = match reply {
                Reply::Printed { success, stdout, stderr } => parse_remote_hash(
                    *success,
                    stdout,
                    stderr,
                ),
                Reply::DidNot(e) => Err(
                    concat2("Failed to run SSH for hash verification: ", e.as_str()),
                ),
                _ => Err(owned("Failed to run SSH for hash verification: ")),
            };
            let here: Result<String, String> = Ok(digest.clone());
            return match verify_remote_hash(&here, &there) {
                Ok(true) => (Signal::Yes, owned("")),
                Ok(false) => (Signal::No, owned("")),
                Err(e) => (Signal::Failed, e),
            };
        },
        Step::HashHere(_) => {
            if let Reply::DidNot(e) = reply {
                let here: Result<String, String> = Err(e.clone());
                let there: Result<String, String> = Ok(digest.clone());
                return match verify_remote_hash(&here, &there) {
                    Ok(true) => (Signal::Yes, owned("")),
                    Ok(false) => (Signal::No, owned("")),
                    Err(told) => (Signal::Failed, told),
                };
            }
        },
        _ => {},
    }
    match reply {
        Reply::Did | Reply::Hashed(_) | Reply::Told(true) => (Signal::Yes, owned("")),
        Reply::Told(false) => (Signal::No, owned("")),
        Reply::Exited(success, code) => if *success {
            (Signal::Yes, owned(""))
        } else {
            let c: i32 = match code {
                Some(c) => *c,
                None => -1,
            };
            (Signal::No, signed_decimal_text(c))
        },
        Reply::DidNot(e) => (Signal::Failed, e.clone()),
        _ => (Signal::Failed, owned("")),
    }
}

impl Transfer {
    /// Whether what holds of a transfer at all times holds of this one.
    pub open spec fn wf(&self) -> bool {
        self@.wf() && self@.lies_below()
    }

    /// A transfer of which nothing was done yet.
    pub fn new(request: Request) -> (t: Transfer)
        ensures
            t@ == begun(setting_of(request@)),
            t.wf(),
    {
        proof {
            reveal_strlit("");
            assert(""@ == Seq::<char>::empty());
        }
        let setting = settle_request(request);
        let stage = Stage::Setup(start_setup(setting.job));
        let t = Transfer {
            setting,
            stage,
            staging: Vec::new(),
            tasks: Vec::new(),
            existing: Vec::new(),
            at: 0,
            goal: Place::Here(Vec::new()),
            detail: owned(""),
            digest: owned(""),
            tally: Tally::new(),
        };
        assert(t@.goal == PlaceModel::Here(Seq::empty())) by {
            assert(t.goal@.here() == Seq::<u8>::empty());
        }
        assert(t@ == begun(setting_of(request@)));
        t
    }

    /// Whether the transfer is over.
    pub fn is_over(&self) -> (b: bool)
        ensures
            b == (self@.stage is Over),
    {
        match self.stage {
            Stage::Over => true,
            _ => false,
        }
    }

    fn settled(self) -> (t: Transfer)
        ensures
            t@ == settle(self@),
    {
        let mut t = self;
        let stage = if t.at < t.tasks.len() {
            Stage::Poll
        } else if t.setting.job.route == Route::Relay {
            Stage::Tidy(true)
        } else {
            Stage::Close
        };
        t.stage = stage;
        assert(t@ == settle(self@));
        t
    }

    fn with_setup(self, step: SetupStep) -> (t: Transfer)
        ensures
            t@ == enter_setup(self@, step),
    {
        if step == SetupStep::Ready {
            self.settled()
        } else {
            let mut t = self;
            t.stage = Stage::Setup(step);
            assert(t@ == enter_setup(self@, step));
            t
        }
    }

    fn with_files(self, g: Gathered) -> (t: Transfer)
        ensures
            t@ == after_gather(self@, g@),
            t@.tasks == g@.tasks || t@.tasks.len() == 0,
            t@.setting == self@.setting,
    {
        let mut t = self;
        let any = g.any;
        t.tally = Tally {
            copied: 0,
            skipped: g.notes,
            excluded_files: g.excluded_files,
            excluded_dirs: g.excluded_dirs,
            errors: Vec::new(),
        };
        assert(t.tally@.errors == Seq::<Seq<char>>::empty());
        if any {
            t.tasks = g.tasks;
            let step = advance_setup(t.setting.job, SetupStep::Gather, true);
            assert(t@ == TransferModel { tasks: g@.tasks, tally: t.tally@, ..self@ });
            t.with_setup(step)
        } else {
            t.tasks = Vec::new();
            t.stage = Stage::Close;
            assert(t@ == after_gather(self@, g@));
            t
        }
    }

    fn setup_host(&self, step: SetupStep) -> (r: String)
        ensures
            r@ == setup_host(self@.setting, step),
    {
        if step == SetupStep::CheckSource {
            self.setting.source_host()
        } else {
            self.setting.target_host.clone()
        }
    }

    fn behind_setup(self, step: SetupStep, reply: Reply) -> (t: Transfer)
        ensures
            t@ == after_setup(self@, step, reply@),
            self@.lies_below() ==> t@.lies_below(),
    {
        let mut t = self;
        let job = t.setting.job;
        if step == SetupStep::Gather {
            return match gather(&t.setting, reply) {
                Ok(g) => t.with_files(g),
                Err(e) => {
                    t.stage = Stage::Fail(e, false);
                    assert(t@ == after_setup(self@, step, reply@));
                    t
                },
            };
        }
        let host = t.setup_host(step);
        if let Some(e) = setup_trouble(job, step, host.as_str(), &reply) {
            t.stage = Stage::Fail(
                e,
                step == SetupStep::MakeRemoteDirs && job.route == Route::Relay,
            );
            assert(t@ == after_setup(self@, step, reply@));
            return t;
        }
        let present = match reply {
            Reply::Told(b) => b,
            _ => false,
        };
        match (step, reply) {
            (SetupStep::MakeStaging, Reply::Staged(dir)) => {
                t.staging = dir;
            },
            (SetupStep::ListTarget, Reply::Printed { stdout, .. }) => {
                t.existing = line_texts(lossy_text(&stdout).as_str());
            },
            _ => {},
        }
        assert(t@ == told_by(self@, step, reply@));
        let next = advance_setup(job, step, present);
        t.with_setup(next)
    }

    fn record(&mut self, outcome: Outcome)
        requires
            old(self)@.at < old(self)@.tasks.len(),
            old(self)@.tally.copied <= old(self)@.at,
        ensures
            final(self)@ == (TransferModel {
                tally: recorded(old(self)@, outcome),
                ..old(self)@
            }),
    {
        let ghost before = self@;
        let job = self.setting.job;
        assert(self@.task() == self.tasks@[self.at as int]@);
        let shown = self.tasks[self.at].source.shown();
        let text = note(job, outcome, shown.as_str(), self.detail.as_str());
        if is_counted(job, outcome) {
            assert(self.at < self.tasks.len());
            self.tally.copied = self.tally.copied + 1;
        }
        match mark(outcome) {
            Mark::Silent => {},
            Mark::Skipped => {
                let ghost list = self.tally.skipped@;
                self.tally.skipped.push(text);
                assert(texts(self.tally.skipped@) == texts(list).push(text@));
            },
            Mark::Error => {
                let ghost list = self.tally.errors@;
                self.tally.errors.push(text);
                assert(texts(self.tally.errors@) == texts(list).push(text@));
            },
        }
        assert(self@ == TransferModel { tally: recorded(before, outcome), ..before });
    }

    fn with_step(self, step: Step) -> (t: Transfer)
        requires
            self@.at < self@.tasks.len(),
            self@.tally.copied <= self@.at,
        ensures
            t@ == enter_step(self@, step),
    {
        let mut t = self;
        match step {
            Step::End(outcome) => {
                t.record(outcome);
                if reports(outcome) {
                    t.stage = Stage::Report;
                    assert(t@ == enter_step(self@, step));
                    t
                } else {
                    assert(t.at < t.tasks.len());
                    t.at = t.at + 1;
                    assert(t@ == TransferModel {
                        at: self@.at + 1,
                        tally: recorded(self@, outcome),
                        ..self@
                    });
                    t.settled()
                }
            },
            _ => {
                t.stage = Stage::Work(step);
                assert(t@ == enter_step(self@, step));
                t
            },
        }
    }

    /// Whether the file is to go to where it is; `goal` is where it goes, where
    /// it goes to a host.
    fn in_place(&self, goal: &Place) -> (b: bool)
        requires
            self@.at < self@.tasks.len(),
            self@.setting.job.route == Route::Relay ==> goal_of(self@) == Some(goal@),
        ensures
            b == self@.is_in_place(),
    {
        assert(self@.task() == self.tasks@[self.at as int]@);
        let task = &self.tasks[self.at];
        match self.setting.job.route {
            Route::Local => is_same_path(&task.source.here(), &task.target.here()),
            Route::Relay => same_text(
                self.setting.source_host().as_str(),
                self.setting.target_host.as_str(),
            ) && is_same_path(
                &bytes_of(task.source.there().as_str()),
                &bytes_of(goal.there().as_str()),
            ),
            _ => false,
        }
    }

    /// What is to be done with the file.
    fn file_job(&self, goal: &Place) -> (job: Job)
        requires
            self@.at < self@.tasks.len(),
            self@.setting.job.route == Route::Relay ==> goal_of(self@) == Some(goal@),
        ensures
            job == self@.file_job(),
    {
        let job = self.setting.job;
        Job { moving: job.moving && !self.in_place(goal), ..job }
    }

    fn staged(&self) -> (r: Vec<u8>)
        requires
            self@.at < self@.tasks.len(),
        ensures
            r@ == self@.staged(),
    {
        assert(self@.task() == self.tasks@[self.at as int]@);
        join_paths(&self.staging, &self.tasks[self.at].staged)
    }

    fn written(&self) -> (r: Vec<u8>)
        requires
            self@.at < self@.tasks.len(),
        ensures
            r@ == self@.written(),
    {
        if self.setting.job.route == Route::Relay {
            self.staged()
        } else {
            self.goal.here()
        }
    }

    fn with_next_file(self) -> (r: Option<Transfer>)
        requires
            self@.at < self@.tasks.len(),
            self@.tally.copied <= self@.at,
        ensures
            match r {
                Some(t) => open_file(self@) == Some(t@),
                None => open_file(self@) is None,
            },
    {
        proof {
            reveal_strlit("");
            assert(""@ == Seq::<char>::empty());
        }
        let mut t = self;
        let job = t.setting.job;
        assert(t@.task() == t.tasks@[t.at as int]@);
        let target = t.tasks[t.at].target.there();
        let taken = lists(&t.existing, target.as_str());
        let goal = if taken && job.conflict == ConflictMode::Rename {
            match free_remote_path(target.as_str(), &t.existing) {
                Some(path) => Place::There(path),
                None => {
                    return None;
                },
            }
        } else {
            t.tasks[t.at].target.copied()
        };
        let file_job = t.file_job(&goal);
        t.goal = goal;
        t.detail = owned("");
        t.digest = owned("");
        assert(t@ == TransferModel {
            goal: goal@,
            detail: Seq::empty(),
            digest: Seq::empty(),
            ..self@
        });
        let has_parent = parent_of(&t.written()).is_some();
        let plan = t.tasks[t.at].plan;
        Some(t.with_step(start(file_job, plan, taken, has_parent)))
    }

    fn behind_work(self, step: Step, reply: Reply) -> (r: Option<Transfer>)
        requires
            self@.at < self@.tasks.len(),
            self@.tally.copied <= self@.at,
            self@.work_wf(step),
        ensures
            match r {
                Some(t) => after_work(self@, step, reply@) == Some(t@),
                None => after_work(self@, step, reply@) is None,
            },
    {
        let mut t = self;
        let job = t.file_job(&t.goal);
        assert(t@.task() == t.tasks@[t.at as int]@);
        let own = match step {
            Step::PickName(n) => is_same_path(
                &t.tasks[t.at].source.here(),
                &local_candidate_path(&t.goal.here(), n),
            ),
            Step::Check => is_same_path(&t.tasks[t.at].source.here(), &t.goal.here()),
            _ => false,
        };
        proof {
            reveal_strlit("");
            assert(""@ == Seq::<char>::empty());
        }
        let (answer, told_text) = hear(step, &t.digest, &reply);
        let (signal, text) = match step {
            Step::PickName(_) if own => (Signal::Yes, owned("")),
            Step::Check if own && answer == Signal::No => (Signal::Failed, told_text),
            _ => (answer, told_text),
        };
        assert((signal, text@) == heard_in(self@, step, reply@));
        let told = match step {
            Step::DropStaged(_) | Step::DropTarget(_) => false,
            _ => true,
        };
        if let Step::PickName(n) = step {
            if signal == Signal::Yes {
                if n == u32::MAX {
                    return None;
                }
            } else {
                t.goal = Place::Here(local_candidate_path(&t.goal.here(), n));
            }
        }
        if signal != Signal::Yes && told {
            t.detail = text;
        }
        if let (Step::HashHere(_), Reply::Hashed(h)) = (step, reply) {
            t.digest = h;
        }
        assert(t@ == learned(self@, step, reply@));
        Some(t.with_step(advance_step(job, step, signal)))
    }

    /// Takes the reply to the action that the transfer has asked for, and goes
    /// on. There is no going on where all the names for a file are used up.
    pub fn advance(self, reply: Reply) -> (r: Option<Transfer>)
        requires
            self.wf(),
        ensures
            match r {
                Some(t) => after(self@, reply@) == Some(t@) && t.wf(),
                None => after(self@, reply@) is None,
            },
    {
        proof {
            going_on_keeps_wf(self@, reply@);
        }
        let mut t = self;
        match &t.stage {
            Stage::Setup(step) => {
                let s = *step;
                Some(t.behind_setup(s, reply))
            },
            Stage::Poll => {
                if let Reply::Told(true) = reply {
                    t.stage = Stage::Cancel;
                    assert(t@ == TransferModel { stage: StageModel::Cancel, ..self@ });
                    Some(t)
                } else {
                    t.with_next_file()
                }
            },
            Stage::Work(step) => {
                let s = *step;
                t.behind_work(s, reply)
            },
            Stage::Report => {
                assert(t.at < t.tasks.len());
                t.at = t.at + 1;
                assert(t@ == TransferModel { at: self@.at + 1, ..self@ });
                Some(t.settled())
            },
            Stage::Fail(_, tidy) => {
                let next = if *tidy {
                    Stage::Tidy(false)
                } else {
                    Stage::Over
                };
                t.stage = next;
                assert(Some(t@) == after(self@, reply@));
                Some(t)
            },
            Stage::Tidy(finish) => {
                let next = if *finish {
                    Stage::Close
                } else {
                    Stage::Over
                };
                t.stage = next;
                assert(Some(t@) == after(self@, reply@));
                Some(t)
            },
            Stage::Close | Stage::Cancel | Stage::Over => {
                t.stage = Stage::Over;
                assert(Some(t@) == after(self@, reply@));
                Some(t)
            },
        }
    }

    fn asked_by_setup(&self, step: SetupStep) -> (r: Action)
        ensures
            r@ == setup_action(self@, step),
    {
        let s = &self.setting;
        match step {
            SetupStep::CheckSource | SetupStep::CheckTarget => {
                let host = self.setup_host(step);
                Action::Capture(ssh(host.as_str(), "echo ok"))
            },
            SetupStep::CheckRsync => Action::Capture(rsync_version()),
            SetupStep::Gather => match &s.source {
                SourceSelection::Directory(dir) => Action::Walk(
                    copied_path(dir),
                    copied_entries(&s.patterns),
                ),
                SourceSelection::Remote(host, path) => Action::Capture(
                    ssh(host.as_str(), find_text(path.as_str()).as_str()),
                ),
                _ => Action::Pass,
            },
            SetupStep::ProbeTarget => Action::Exists(s.dst()),
            SetupStep::MakeTarget => Action::MakeDirs(s.dst()),
            SetupStep::MakeStaging => Action::MakeStaging,
            SetupStep::MakeRemoteDirs => {
                let dirs = dirs_for(s.target_base().as_str(), &self.tasks);
                Action::Capture(ssh(s.target_host.as_str(), mkdir_text(&dirs).as_str()))
            },
            SetupStep::ListTarget => {
                let line = find_text(s.target_base().as_str());
                Action::Capture(ssh(s.target_host.as_str(), line.as_str()))
            },
            SetupStep::Ready => Action::Pass,
        }
    }

    fn source_end(&self) -> (r: Vec<u8>)
        requires
            self@.at < self@.tasks.len(),
        ensures
            r@ == endpoint(self@.setting.source_host(), self@.task().source.there()),
    {
        assert(self@.task() == self.tasks@[self.at as int]@);
        let host = self.setting.source_host();
        let path = self.tasks[self.at].source.there();
        endpoint_bytes(host.as_str(), path.as_str())
    }

    fn target_end(&self) -> (r: Vec<u8>)
        ensures
            r@ == endpoint(self@.setting.target_host, self@.goal.there()),
    {
        let path = self.goal.there();
        endpoint_bytes(self.setting.target_host.as_str(), path.as_str())
    }

    fn asked_to_carry(&self, leg: Leg) -> (r: Action)
        requires
            self@.at < self@.tasks.len(),
        ensures
            r@ == carry_action(self@, leg),
    {
        assert(self@.task() == self.tasks@[self.at as int]@);
        let job = self.setting.job;
        let from = match (job.route, leg) {
            (Route::Local, _) | (Route::Upload, _) => self.tasks[self.at].source.here(),
            (Route::Download, _) | (Route::Relay, Leg::Fetch) => self.source_end(),
            (Route::Relay, Leg::Send) => self.staged(),
        };
        let to = match (job.route, leg) {
            (Route::Local, _) | (Route::Download, _) => self.goal.here(),
            (Route::Relay, Leg::Fetch) => self.staged(),
            (Route::Upload, _) | (Route::Relay, Leg::Send) => self.target_end(),
        };
        match (job.route, job.method) {
            (Route::Local, TransferMethod::Standard) => Action::CopyFile(from, to),
            (Route::Local, TransferMethod::Rsync) => Action::Run(local_rsync(&from, &to)),
            (_, TransferMethod::Standard) => Action::Run(scp(&from, &to)),
            (_, TransferMethod::Rsync) => Action::Run(rsync(&from, &to)),
        }
    }

    fn asked_for_host_hash(&self, leg: Leg) -> (r: Action)
        requires
            self@.at < self@.tasks.len(),
        ensures
            r@ == step_action(self@, Step::HashThere(leg)),
    {
        assert(self@.task() == self.tasks@[self.at as int]@);
        let route = self.setting.job.route;
        if route == Route::Download || (route == Route::Relay && leg == Leg::Fetch) {
            let host = self.setting.source_host();
            let path = self.tasks[self.at].source.there();
            Action::Capture(ssh(host.as_str(), hash_text(path.as_str()).as_str()))
        } else {
            let path = self.goal.there();
            Action::Capture(
                ssh(self.setting.target_host.as_str(), hash_text(path.as_str()).as_str()),
            )
        }
    }

    fn asked_by_step(&self, step: Step) -> (r: Action)
        requires
            self@.at < self@.tasks.len(),
        ensures
            r@ == step_action(self@, step),
    {
        assert(self@.task() == self.tasks@[self.at as int]@);
        let route = self.setting.job.route;
        match step {
            Step::MakeParent => {
                let dir = match parent_of(&self.written()) {
                    Some(dir) => dir,
                    None => Vec::new(),
                };
                Action::MakeDirs(dir)
            },
            Step::Probe => Action::Exists(self.goal.here()),
            Step::Compare | Step::Check => Action::SameContents(
                self.tasks[self.at].source.here(),
                self.goal.here(),
            ),
            Step::Locate => Action::SamePlace(
                self.tasks[self.at].source.here(),
                self.goal.here(),
            ),
            Step::DropIdentical => Action::RemoveFile(self.tasks[self.at].source.here()),
            Step::PickName(n) => Action::Exists(local_candidate_path(&self.goal.here(), n)),
            Step::Shift => Action::Rename(
                self.tasks[self.at].source.here(),
                self.goal.here(),
            ),
            Step::Carry(leg) => self.asked_to_carry(leg),
            Step::HashHere(_) => {
                let path = match route {
                    Route::Local | Route::Upload => self.tasks[self.at].source.here(),
                    Route::Download => self.goal.here(),
                    Route::Relay => self.staged(),
                };
                Action::HashFile(path)
            },
            Step::HashThere(leg) => self.asked_for_host_hash(leg),
            Step::DropStaged(_) => Action::RemoveFile(self.staged()),
            Step::DropTarget(_) => if route == Route::Upload || route == Route::Relay {
                let line = remove_text(self.goal.there().as_str());
                Action::Run(ssh(self.setting.target_host.as_str(), line.as_str()))
            } else {
                Action::RemoveFile(self.goal.here())
            },
            Step::DropSource => if route == Route::Download || route == Route::Relay {
                let host = self.setting.source_host();
                let line = remove_text(self.tasks[self.at].source.there().as_str());
                Action::Run(ssh(host.as_str(), line.as_str()))
            } else {
                Action::RemoveFile(self.tasks[self.at].source.here())
            },
            Step::End(_) => Action::Pass,
        }
    }

    /// What the transfer asks for.
    pub fn action(&self) -> (r: Action)
        requires
            self.wf(),
        ensures
            r@ == action_of(self@),
    {
        match &self.stage {
            Stage::Setup(step) => self.asked_by_setup(*step),
            Stage::Poll => Action::Poll,
            Stage::Work(step) => self.asked_by_step(*step),
            Stage::Report => {
                assert(self@.task() == self.tasks@[self.at as int]@);
                assert(self.at < self.tasks.len());
                Action::Send(
                    WorkerMsg::Progress {
                        done: self.at + 1,
                        total: self.tasks.len(),
                        file: self.tasks[self.at].source.shown(),
                    },
                )
            },
            Stage::Fail(e, _) => Action::Send(WorkerMsg::Error(e.clone())),
            Stage::Tidy(_) => Action::RemoveTree(copied_path(&self.staging)),
            Stage::Close => Action::Send(WorkerMsg::Finished(self.tally.copied_tally())),
            Stage::Cancel => Action::Send(WorkerMsg::Cancelled(self.tally.copied_tally())),
            Stage::Over => Action::Stop,
        }
    }
}

} // verus!
