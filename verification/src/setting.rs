//! What is settled before a transfer begins, and the files that it is about.

use vstd::prelude::*;
use vstd::utf8::*;

use crate::cli::Request;
#[allow(unused_imports)]
use crate::cli::RequestModel;
use crate::collect::{collect_files, collect_remote_files, Found, Listed};
#[allow(unused_imports)]
use crate::collect::{
    listed_on, local_files, nothing_found, picked, remote_files, FoundModel, ListedModel,
};
#[allow(unused_imports)]
use crate::deliver::places_fit;
use crate::exclusion::Entry;
#[allow(unused_imports)]
use crate::exclusion::{entry_models, EntryModel};
use crate::exchange::Reply;
#[allow(unused_imports)]
use crate::exchange::ReplyModel;
#[allow(unused_imports)]
use crate::paths::parts;
use crate::plan::{
    copied_path, plan_download, plan_local, plan_relay, plan_upload, Task,
};
#[allow(unused_imports)]
use crate::plan::{
    download_task, local_task, opt_path, relay_task, tasks_of, upload_notes, upload_tasks,
    TaskModel,
};
use crate::request::{parse_destination, SourceSelection, TransferMode};
#[allow(unused_imports)]
use crate::request::{destination, SourceModel};
use crate::shell::bytes_of;
use crate::steps::{Job, Route};
#[allow(unused_imports)]
use crate::steps::Plan;
use crate::text::{concat2, owned, trim_end_slashes};
#[allow(unused_imports)]
use crate::text::{lines, texts, trim_end, trimmed, utf8_lossy};

verus! {

// ---------------------------------------------------------------------------
// The setting
// ---------------------------------------------------------------------------

/// What is settled before a transfer begins.
#[derive(Debug)]
pub struct Setting {
    pub job: Job,
    pub mode: TransferMode,
    pub strip_spaces: bool,
    pub source: SourceSelection,
    /// The host of the target, or nothing.
    pub target_host: String,
    /// The path of the target.
    pub target: String,
    pub patterns: Vec<Entry>,
}

/// The value of a `Setting`.
#[verifier::ext_equal]
pub struct SettingModel {
    pub job: Job,
    pub mode: TransferMode,
    pub strip_spaces: bool,
    pub source: SourceModel,
    pub target_host: Seq<char>,
    pub target: Seq<char>,
    pub patterns: Seq<EntryModel>,
}

impl View for Setting {
    type V = SettingModel;

    open spec fn view(&self) -> SettingModel {
        SettingModel {
            job: self.job,
            mode: self.mode,
            strip_spaces: self.strip_spaces,
            source: self.source@,
            target_host: self.target_host@,
            target: self.target@,
            patterns: entry_models(self.patterns@),
        }
    }
}

/// Which of the two ends are on another machine.
pub open spec fn route_of(source: SourceModel, host: Option<Seq<char>>) -> Route {
    match (source is Remote, host is Some) {
        (false, false) => Route::Local,
        (false, true) => Route::Upload,
        (true, false) => Route::Download,
        (true, true) => Route::Relay,
    }
}

/// The setting of a request.
pub open spec fn setting_of(q: RequestModel) -> SettingModel {
    let (host, path) = destination(q.dst);
    SettingModel {
        job: Job {
            route: route_of(q.source, host),
            method: q.method,
            moving: q.do_move,
            conflict: q.conflict,
        },
        mode: q.mode,
        strip_spaces: q.strip_spaces,
        source: q.source,
        target_host: match host {
            Some(h) => h,
            None => Seq::empty(),
        },
        target: path,
        patterns: q.patterns,
    }
}

impl SettingModel {
    /// The host of the source, or nothing.
    pub open spec fn source_host(self) -> Seq<char> {
        match self.source {
            SourceModel::Remote(host, _) => host,
            _ => Seq::empty(),
        }
    }

    /// The path of the source on its host, or nothing.
    pub open spec fn source_base(self) -> Seq<char> {
        match self.source {
            SourceModel::Remote(_, path) => path,
            _ => Seq::empty(),
        }
    }

    /// The directory that is the source, if it is one on this machine.
    pub open spec fn source_dir(self) -> Option<Seq<u8>> {
        match self.source {
            SourceModel::Directory(dir) => Some(dir),
            _ => None,
        }
    }

    /// Whether the source is not the empty path, which is no directory.
    pub open spec fn has_a_source(self) -> bool {
        self.source_dir() != Some(Seq::<u8>::empty())
    }

    /// The path of the target on its host, without slashes behind it.
    pub open spec fn target_base(self) -> Seq<char> {
        trim_end(self.target, '/')
    }

    /// The path of the target on this machine.
    pub open spec fn dst(self) -> Seq<u8> {
        encode_utf8(self.target)
    }
}

/// The setting of a request.
pub fn settle_request(q: Request) -> (r: Setting)
    ensures
        r@ == setting_of(q@),
{
    let (host, path) = parse_destination(q.dst.as_str());
    let remote = match &q.source {
        SourceSelection::Remote(_, _) => true,
        _ => false,
    };
    let route = match (remote, host.is_some()) {
        (false, false) => Route::Local,
        (false, true) => Route::Upload,
        (true, false) => Route::Download,
        (true, true) => Route::Relay,
    };
    proof {
        reveal_strlit("");
        assert(""@ == Seq::<char>::empty());
    }
    let target_host = match host {
        Some(h) => h,
        None => owned(""),
    };
    Setting {
        job: Job { route, method: q.method, moving: q.do_move, conflict: q.conflict },
        mode: q.mode,
        strip_spaces: q.strip_spaces,
        source: q.source,
        target_host,
        target: path,
        patterns: q.patterns,
    }
}

impl Setting {
    /// The host of the source, or nothing.
    pub fn source_host(&self) -> (r: String)
        ensures
            r@ == self@.source_host(),
    {
        proof {
            reveal_strlit("");
            assert(""@ == Seq::<char>::empty());
        }
        match &self.source {
            SourceSelection::Remote(host, _) => host.clone(),
            _ => owned(""),
        }
    }

    /// The path of the source on its host, or nothing.
    pub fn source_base(&self) -> (r: String)
        ensures
            r@ == self@.source_base(),
    {
        proof {
            reveal_strlit("");
            assert(""@ == Seq::<char>::empty());
        }
        match &self.source {
            SourceSelection::Remote(_, path) => path.clone(),
            _ => owned(""),
        }
    }

    /// The directory that is the source, if it is one on this machine.
    pub fn source_dir(&self) -> (r: Option<Vec<u8>>)
        ensures
            opt_path(r) == self@.source_dir(),
    {
        match &self.source {
            SourceSelection::Directory(dir) => Some(copied_path(dir)),
            _ => None,
        }
    }

    /// The path of the target on its host, without slashes behind it.
    pub fn target_base(&self) -> (r: String)
        ensures
            r@ == self@.target_base(),
    {
        trim_end_slashes(self.target.as_str())
    }

    /// The path of the target on this machine.
    pub fn dst(&self) -> (r: Vec<u8>)
        ensures
            r@ == self@.dst(),
    {
        bytes_of(self.target.as_str())
    }
}

// ---------------------------------------------------------------------------
// The files
// ---------------------------------------------------------------------------

/// What a transfer is about.
#[derive(Debug)]
pub struct Gathered {
    pub tasks: Vec<Task>,
    /// The notes about the files that are not set out with.
    pub notes: Vec<String>,
    /// Whether there are any files at all.
    pub any: bool,
    pub excluded_files: usize,
    pub excluded_dirs: usize,
}

/// The value of a `Gathered`.
#[verifier::ext_equal]
pub struct GatheredModel {
    pub tasks: Seq<TaskModel>,
    pub notes: Seq<Seq<char>>,
    pub any: bool,
    pub excluded_files: nat,
    pub excluded_dirs: nat,
}

impl View for Gathered {
    type V = GatheredModel;

    open spec fn view(&self) -> GatheredModel {
        GatheredModel {
            tasks: tasks_of(self.tasks@),
            notes: texts(self.notes@),
            any: self.any,
            excluded_files: self.excluded_files as nat,
            excluded_dirs: self.excluded_dirs as nat,
        }
    }
}

/// What a walk has found, where the reply tells it.
pub open spec fn walked(reply: ReplyModel) -> FoundModel {
    match reply {
        ReplyModel::Walked(f) => f,
        _ => nothing_found(),
    }
}

/// What the host of the source has listed.
pub open spec fn listed(s: SettingModel, reply: ReplyModel) -> Result<ListedModel, Seq<char>> {
    match reply {
        ReplyModel::Printed { success, stdout, stderr } => remote_files(
            s.source_base(),
            s.patterns,
            success,
            stdout,
            stderr,
        ),
        ReplyModel::DidNot(e) => Err("Failed to list remote files: "@ + e),
        _ => Err("Failed to list remote files: "@),
    }
}

/// The tasks for these files, where both ends are here.
pub open spec fn local_tasks(s: SettingModel, files: Seq<Seq<u8>>) -> Seq<TaskModel> {
    files.map_values(
        |f: Seq<u8>| local_task(s.source_dir(), s.mode, s.strip_spaces, s.dst(), f),
    )
}

/// The tasks for these files of the host of the source.
pub open spec fn remote_tasks(s: SettingModel, files: Seq<Seq<char>>) -> Seq<TaskModel> {
    files.map_values(
        |f: Seq<char>|
            if s.job.route == Route::Relay {
                relay_task(s.source_base(), s.mode, s.strip_spaces, s.target_base(), f)
            } else {
                download_task(s.source_base(), s.mode, s.strip_spaces, s.dst(), f)
            },
    )
}

/// What a transfer is about, where the source is on this machine.
pub open spec fn gathered_here(s: SettingModel, f: FoundModel) -> GatheredModel {
    if s.job.route == Route::Upload {
        GatheredModel {
            tasks: upload_tasks(
                s.source_dir(),
                s.mode,
                s.strip_spaces,
                s.target_base(),
                f.files,
            ),
            notes: upload_notes(s.job, s.source_dir(), s.mode, f.files),
            any: f.files.len() > 0,
            excluded_files: f.excluded_files,
            excluded_dirs: f.excluded_dirs,
        }
    } else {
        GatheredModel {
            tasks: local_tasks(s, f.files),
            notes: Seq::empty(),
            any: f.files.len() > 0,
            excluded_files: f.excluded_files,
            excluded_dirs: f.excluded_dirs,
        }
    }
}

/// What a transfer is about, where the source is on a host.
pub open spec fn gathered_there(s: SettingModel, l: ListedModel) -> GatheredModel {
    GatheredModel {
        tasks: remote_tasks(s, l.files),
        notes: Seq::empty(),
        any: l.files.len() > 0,
        excluded_files: l.excluded_files,
        excluded_dirs: l.excluded_dirs.len(),
    }
}

/// What a transfer is about, from the reply to the question for its files.
pub open spec fn gathered(s: SettingModel, reply: ReplyModel) -> Result<GatheredModel, Seq<char>> {
    if s.job.route == Route::Local || s.job.route == Route::Upload {
        match local_files(s.source, s.patterns, walked(reply)) {
            Ok(f) => Ok(gathered_here(s, f)),
            Err(e) => Err(e),
        }
    } else {
        match listed(s, reply) {
            Ok(l) => Ok(gathered_there(s, l)),
            Err(e) => Err(e),
        }
    }
}

fn plan_here(s: &Setting, f: Found) -> (r: Gathered)
    ensures
        r@ == gathered_here(s@, f@),
        s.job.route == Route::Local && s@.has_a_source() ==> forall|i: int|
            0 <= i < r@.tasks.len() && (#[trigger] r@.tasks[i]).plan == Plan::Go
                ==> s@.dst().is_prefix_of(r@.tasks[i].target.here()),
{
    let dir = s.source_dir();
    if s.job.route == Route::Upload {
        let base = s.target_base();
        let (tasks, notes) = plan_upload(
            s.job,
            &dir,
            s.mode,
            s.strip_spaces,
            base.as_str(),
            &f.files,
        );
        assert(parts(f.files@).len() == f.files@.len());
        Gathered {
            tasks,
            notes,
            any: f.files.len() > 0,
            excluded_files: f.excluded_files,
            excluded_dirs: f.excluded_dirs,
        }
    } else {
        let dst = s.dst();
        let ghost all = local_tasks(s@, parts(f.files@));
        let mut tasks: Vec<Task> = Vec::new();
        let mut i: usize = 0;
        assert(tasks_of(tasks@) == all.take(0));
        while i < f.files.len()
            invariant
                i <= f.files@.len(),
                opt_path(dir) == s@.source_dir(),
                dst@ == s@.dst(),
                all == local_tasks(s@, parts(f.files@)),
                tasks_of(tasks@) == all.take(i as int),
                s@.has_a_source() ==> forall|k: int|
                    0 <= k < i && (#[trigger] all[k]).plan == Plan::Go ==> s@.dst().is_prefix_of(
                        all[k].target.here(),
                    ),
            decreases f.files@.len() - i,
        {
            let ghost before = tasks@;
            let task = plan_local(&dir, s.mode, s.strip_spaces, &dst, &f.files[i]);
            assert(task@ == all[i as int]);
            tasks.push(task);
            assert(tasks_of(tasks@) == tasks_of(before).push(task@));
            assert(all.take(i + 1) == all.take(i as int).push(all[i as int]));
            i += 1;
        }
        assert(all.take(i as int) == all);
        let r = Gathered {
            tasks,
            notes: Vec::new(),
            any: f.files.len() > 0,
            excluded_files: f.excluded_files,
            excluded_dirs: f.excluded_dirs,
        };
        assert(r@ == gathered_here(s@, f@));
        r
    }
}

fn plan_there(s: &Setting, l: Listed) -> (r: Gathered)
    ensures
        r@ == gathered_there(s@, l@),
        s.job.route == Route::Download ==> forall|i: int|
            0 <= i < r@.tasks.len() ==> s@.dst().is_prefix_of((#[trigger] r@.tasks[i]).target.here()),
{
    let base = s.source_base();
    let target_base = s.target_base();
    let dst = s.dst();
    let ghost all = remote_tasks(s@, texts(l.files@));
    let mut tasks: Vec<Task> = Vec::new();
    let mut i: usize = 0;
    assert(tasks_of(tasks@) == all.take(0));
    while i < l.files.len()
        invariant
            i <= l.files@.len(),
            base@ == s@.source_base(),
            target_base@ == s@.target_base(),
            dst@ == s@.dst(),
            all == remote_tasks(s@, texts(l.files@)),
            tasks_of(tasks@) == all.take(i as int),
            s.job.route == Route::Download ==> forall|k: int|
                0 <= k < i ==> s@.dst().is_prefix_of((#[trigger] all[k]).target.here()),
        decreases l.files@.len() - i,
    {
        let ghost before = tasks@;
        let file = l.files[i].as_str();
        let task = if s.job.route == Route::Relay {
            plan_relay(base.as_str(), s.mode, s.strip_spaces, target_base.as_str(), file)
        } else {
            plan_download(base.as_str(), s.mode, s.strip_spaces, &dst, file)
        };
        assert(task@ == all[i as int]);
        tasks.push(task);
        assert(tasks_of(tasks@) == tasks_of(before).push(task@));
        assert(all.take(i + 1) == all.take(i as int).push(all[i as int]));
        i += 1;
    }
    assert(all.take(i as int) == all);
    let r = Gathered {
        tasks,
        notes: Vec::new(),
        any: l.files.len() > 0,
        excluded_files: l.excluded_files,
        excluded_dirs: l.excluded_dirs.len(),
    };
    assert(r@ == gathered_there(s@, l@));
    r
}

/// What a transfer is about, from the reply to the question for its files.
pub fn gather(s: &Setting, reply: Reply) -> (r: Result<Gathered, String>)
    ensures
        (match r {
            Ok(g) => Ok(g@),
            Err(e) => Err(e@),
        }) == gathered(s@, reply@),
        (s.job.route == Route::Local || s.job.route == Route::Download) && s@.has_a_source()
            && r is Ok ==> forall|i: int|
            0 <= i < (r->Ok_0)@.tasks.len() && (#[trigger] (r->Ok_0)@.tasks[i]).plan == Plan::Go
                ==> s@.dst().is_prefix_of((r->Ok_0)@.tasks[i].target.here()),
{
    if s.job.route == Route::Local || s.job.route == Route::Upload {
        let found = match reply {
            Reply::Walked(f) => f,
            _ => {
                let none = Found { files: Vec::new(), excluded_files: 0, excluded_dirs: 0 };
                assert(none@ == nothing_found());
                none
            },
        };
        match collect_files(&s.source, &s.patterns, found) {
            Ok(f) => Ok(plan_here(s, f)),
            Err(e) => Err(e),
        }
    } else {
        let read = match reply {
            Reply::Printed { success, stdout, stderr } => {
                let base = s.source_base();
                collect_remote_files(base.as_str(), &s.patterns, success, &stdout, &stderr)
            },
            Reply::DidNot(e) => Err(concat2("Failed to list remote files: ", e.as_str())),
            _ => Err(owned("Failed to list remote files: ")),
        };
        match read {
            Ok(l) => Ok(plan_there(s, l)),
            Err(e) => Err(e),
        }
    }
}

// ---------------------------------------------------------------------------
// What holds of every setting
// ---------------------------------------------------------------------------

/// A transfer does what was requested: it moves if and only if that was asked
/// for, deals with names that are taken as was asked, by the method that was
/// asked for, with the source and the exclusions that were given.
pub proof fn a_setting_keeps_to_the_request(q: RequestModel)
    ensures
        setting_of(q).job.moving == q.do_move,
        setting_of(q).job.conflict == q.conflict,
        setting_of(q).job.method == q.method,
        setting_of(q).mode == q.mode,
        setting_of(q).strip_spaces == q.strip_spaces,
        setting_of(q).source == q.source,
        setting_of(q).patterns == q.patterns,
{
}

/// The route goes by the two ends: a source is on a host if it is given by one,
/// a destination if a host stands before its path.
pub proof fn the_route_goes_by_the_ends(q: RequestModel, host: Seq<char>, path: Seq<char>)
    ensures
        ({
            let route = setting_of(q).job.route;
            let there = destination(q.dst).0 is Some;
            &&& route == Route::Local <==> !(q.source is Remote) && !there
            &&& route == Route::Upload <==> !(q.source is Remote) && there
            &&& route == Route::Download <==> q.source is Remote && !there
            &&& route == Route::Relay <==> q.source is Remote && there
        }),
        destination(q.dst) == (Some(host), path) ==> setting_of(q).target_host == host
            && setting_of(q).target == path,
        destination(q.dst) == (None::<Seq<char>>, path) ==> setting_of(q).target == path
            && setting_of(q).target_host.len() == 0,
{
}

/// The ends of a transfer are those that were given; only slashes behind the
/// path of a target on a host do not count.
pub proof fn the_ends_are_as_given(s: SettingModel, host: Seq<char>, path: Seq<char>, dir: Seq<u8>)
    ensures
        s.source == SourceModel::Remote(host, path) ==> s.source_host() == host && s.source_base()
            == path && s.source_dir() is None,
        s.source == SourceModel::Directory(dir) ==> s.source_dir() == Some(dir),
        s.source is Files ==> s.source_dir() is None,
        s.dst() == encode_utf8(s.target),
        s.target_base() == trim_end(s.target, '/'),
{
}

/// Every file that is found gets a task, and in its order: on this machine from
/// the file to where it goes, and from a host from the file there to where it
/// goes here or on the other host.
pub proof fn every_file_gets_its_task(
    s: SettingModel,
    f: FoundModel,
    l: ListedModel,
    i: int,
)
    ensures
        s.job.route == Route::Local ==> gathered_here(s, f).tasks.len() == f.files.len(),
        s.job.route == Route::Local && 0 <= i < f.files.len() ==> gathered_here(s, f).tasks[i]
            == local_task(
            s.source_dir(),
            s.mode,
            s.strip_spaces,
            encode_utf8(s.target),
            f.files[i],
        ),
        gathered_there(s, l).tasks.len() == l.files.len(),
        s.job.route == Route::Download && 0 <= i < l.files.len() ==> gathered_there(s, l).tasks[i]
            == download_task(
            s.source_base(),
            s.mode,
            s.strip_spaces,
            encode_utf8(s.target),
            l.files[i],
        ),
        s.job.route == Route::Relay && 0 <= i < l.files.len() ==> gathered_there(s, l).tasks[i]
            == relay_task(
            s.source_base(),
            s.mode,
            s.strip_spaces,
            trim_end(s.target, '/'),
            l.files[i],
        ),
        s.job.route == Route::Upload ==> gathered_here(s, f).tasks == upload_tasks(
            s.source_dir(),
            s.mode,
            s.strip_spaces,
            trim_end(s.target, '/'),
            f.files,
        ) && gathered_here(s, f).notes == upload_notes(s.job, s.source_dir(), s.mode, f.files),
        s.job.route == Route::Local ==> gathered_here(s, f).notes.len() == 0,
        gathered_there(s, l).notes.len() == 0,
{
}

/// There is something to do exactly when a file was found, and what was left out
/// is counted as it was found.
pub proof fn what_was_left_out_is_counted(s: SettingModel, f: FoundModel, l: ListedModel)
    ensures
        gathered_here(s, f).any <==> f.files.len() > 0,
        gathered_there(s, l).any <==> l.files.len() > 0,
        gathered_here(s, f).excluded_files == f.excluded_files,
        gathered_here(s, f).excluded_dirs == f.excluded_dirs,
        gathered_there(s, l).excluded_files == l.excluded_files,
        gathered_there(s, l).excluded_dirs == l.excluded_dirs.len(),
{
}

/// The files are those that the walk found, that were picked, or that the host
/// has printed; where the host failed, the transfer fails with what it said.
pub proof fn files_are_gathered_from_the_reply(
    s: SettingModel,
    f: FoundModel,
    reply: ReplyModel,
    stdout: Seq<u8>,
    stderr: Seq<u8>,
    e: Seq<char>,
)
    ensures
        (s.job.route == Route::Local || s.job.route == Route::Upload) && s.source is Directory
            ==> gathered(s, ReplyModel::Walked(f)) == Ok::<_, Seq<char>>(gathered_here(s, f)),
        (s.job.route == Route::Local || s.job.route == Route::Upload) && s.source is Files
            ==> gathered(s, reply) == Ok::<_, Seq<char>>(
            gathered_here(s, picked(s.patterns, s.source->Files_0)),
        ),
        (s.job.route == Route::Local || s.job.route == Route::Upload) && s.source is Nothing
            ==> gathered(s, reply) == Err::<GatheredModel, _>("No source selected."@),
        (s.job.route == Route::Download || s.job.route == Route::Relay) ==> gathered(
            s,
            ReplyModel::Printed { success: true, stdout, stderr },
        ) == Ok::<_, Seq<char>>(
            gathered_there(
                s,
                listed_on(s.source_base(), s.patterns, lines(utf8_lossy(stdout))),
            ),
        ),
        (s.job.route == Route::Download || s.job.route == Route::Relay) ==> gathered(
            s,
            ReplyModel::Printed { success: false, stdout, stderr },
        ) == Err::<GatheredModel, _>(
            "Failed to list remote files: "@ + trimmed(utf8_lossy(stderr)),
        ),
        (s.job.route == Route::Download || s.job.route == Route::Relay) ==> gathered(
            s,
            ReplyModel::DidNot(e),
        ) == Err::<GatheredModel, _>("Failed to list remote files: "@ + e),
{
}

/// Every task has its places at the ends that the route says.
pub proof fn tasks_fit_the_route(s: SettingModel, reply: ReplyModel, i: int)
    requires
        gathered(s, reply) is Ok,
        0 <= i < gathered(s, reply)->Ok_0.tasks.len(),
    ensures
        places_fit(s.job.route, gathered(s, reply)->Ok_0.tasks[i]),
{
    if s.job.route == Route::Upload {
        let f = local_files(s.source, s.patterns, walked(reply))->Ok_0;
        uploads_fit(s, f.files, i);
    }
}

proof fn uploads_fit(s: SettingModel, files: Seq<Seq<u8>>, i: int)
    requires
        0 <= i < upload_tasks(
            s.source_dir(),
            s.mode,
            s.strip_spaces,
            s.target_base(),
            files,
        ).len(),
    ensures
        places_fit(
            Route::Upload,
            upload_tasks(s.source_dir(), s.mode, s.strip_spaces, s.target_base(), files)[i],
        ),
    decreases files.len(),
{
    let before = upload_tasks(
        s.source_dir(),
        s.mode,
        s.strip_spaces,
        s.target_base(),
        files.drop_last(),
    );
    if i < before.len() {
        uploads_fit(s, files.drop_last(), i);
    }
}

} // verus!
