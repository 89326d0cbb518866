//! Where each file goes: its target, the place it is staged at on the way, and
//! the directories that have to be there.

use vstd::prelude::*;
use vstd::utf8::*;

use crate::collect::{base_with_slash, name_below_base};
#[allow(unused_imports)]
use crate::collect::{below_base, with_slash};
use crate::exclusion::add_once;
#[allow(unused_imports)]
use crate::exclusion::with_entry;
use crate::names::strip_spaces_from_path;
#[allow(unused_imports)]
use crate::names::{encoding_keeps_the_root, stripped_of_spaces};
use crate::notes::note;
#[allow(unused_imports)]
use crate::notes::note_of;
use crate::paths::{
    components_of, file_name_of, join_paths, parent_of, same_units, strip_base_of,
};
#[allow(unused_imports)]
use crate::paths::{
    a_file_name_has_no_slash, a_name_is_its_own_name, a_path_has_components, components, file_name, has_root, join_path, joined_below_the_base,
    joining_keeps_paths_apart, parent, parts, strip_base, the_path_below_a_base_has_no_root,
};
use crate::request::TransferMode;
use crate::shell::bytes_of;
use crate::steps::{Job, Outcome, Plan};
use crate::text::{
    chars_of, concat2, concat3, decimal_chars, has_prefix, lossy_text, owned, part, remove_spaces,
    text_of, trim_end_chars, trim_start_chars,
};
#[allow(unused_imports)]
use crate::text::{
    decimal, starts_with, texts, trim_end, trim_start, utf8_lossy, without_spaces,
    without_spaces_keeps_the_rest,
};

verus! {

// ---------------------------------------------------------------------------
// Places and tasks
// ---------------------------------------------------------------------------

/// A path on this machine, or on the host at that end of the transfer.
#[derive(Debug)]
pub enum Place {
    Here(Vec<u8>),
    There(String),
}

/// The value of a `Place`.
pub enum PlaceModel {
    Here(Seq<u8>),
    There(Seq<char>),
}

impl View for Place {
    type V = PlaceModel;

    open spec fn view(&self) -> PlaceModel {
        match self {
            Place::Here(p) => PlaceModel::Here(p@),
            Place::There(p) => PlaceModel::There(p@),
        }
    }
}

impl PlaceModel {
    /// The path, as it is shown.
    pub open spec fn shown(self) -> Seq<char> {
        match self {
            PlaceModel::Here(p) => utf8_lossy(p),
            PlaceModel::There(p) => p,
        }
    }

    /// The path on this machine, or nothing.
    pub open spec fn here(self) -> Seq<u8> {
        match self {
            PlaceModel::Here(p) => p,
            PlaceModel::There(_) => Seq::empty(),
        }
    }

    /// The path on the host, or nothing.
    pub open spec fn there(self) -> Seq<char> {
        match self {
            PlaceModel::Here(_) => Seq::empty(),
            PlaceModel::There(p) => p,
        }
    }
}

/// A copy of a path.
pub fn copied_path(p: &[u8]) -> (r: Vec<u8>)
    ensures
        r@ == p@,
{
    let r = part(p, 0, p.len());
    assert(r@ == p@);
    r
}

impl Place {
    /// A copy of a place.
    pub fn copied(&self) -> (r: Place)
        ensures
            r@ == self@,
    {
        match self {
            Place::Here(p) => Place::Here(copied_path(p)),
            Place::There(p) => Place::There(p.clone()),
        }
    }

    /// The path, as it is shown.
    pub fn shown(&self) -> (r: String)
        ensures
            r@ == self@.shown(),
    {
        match self {
            Place::Here(p) => lossy_text(p),
            Place::There(p) => p.clone(),
        }
    }

    /// The path on this machine, or nothing.
    pub fn here(&self) -> (r: Vec<u8>)
        ensures
            r@ == self@.here(),
    {
        match self {
            Place::Here(p) => copied_path(p),
            Place::There(_) => Vec::new(),
        }
    }

    /// The path on the host, or nothing.
    pub fn there(&self) -> (r: String)
        ensures
            r@ == self@.there(),
    {
        match self {
            Place::Here(_) => {
                proof {
                    reveal_strlit("");
                    assert(""@ == Seq::<char>::empty());
                }
                owned("")
            },
            Place::There(p) => p.clone(),
        }
    }
}

/// A file of the transfer.
#[derive(Debug)]
pub struct Task {
    /// Where the file is.
    pub source: Place,
    /// Where it goes.
    pub target: Place,
    /// Where it is staged, from the directory for that on.
    pub staged: Vec<u8>,
    /// Whether it goes there at all.
    pub plan: Plan,
}

/// The value of a `Task`.
#[verifier::ext_equal]
pub struct TaskModel {
    pub source: PlaceModel,
    pub target: PlaceModel,
    pub staged: Seq<u8>,
    pub plan: Plan,
}

impl View for Task {
    type V = TaskModel;

    open spec fn view(&self) -> TaskModel {
        TaskModel {
            source: self.source@,
            target: self.target@,
            staged: self.staged@,
            plan: self.plan,
        }
    }
}

/// The values of a list of tasks.
pub open spec fn tasks_of(v: Seq<Task>) -> Seq<TaskModel> {
    v.map_values(|t: Task| t@)
}

// ---------------------------------------------------------------------------
// From this machine
// ---------------------------------------------------------------------------

/// The target of a file on this machine. Where the source is the directory
/// `dir` and directories are kept, the file goes below the name of that
/// directory, where it has one, as it lies in it; otherwise it goes right into
/// the destination.
pub open spec fn local_target(
    dir: Option<Seq<u8>>,
    mode: TransferMode,
    dst: Seq<u8>,
    file: Seq<u8>,
) -> Result<Seq<u8>, Plan> {
    match (dir, mode) {
        (Some(d), TransferMode::FoldersAndFiles) => match strip_base(file, d) {
            Some(rel) => match file_name(d) {
                Some(root) => Ok(join_path(join_path(dst, root), rel)),
                None => Ok(join_path(dst, rel)),
            },
            None => Err(Plan::OutsideSource),
        },
        _ => match file_name(file) {
            Some(name) => Ok(join_path(dst, name)),
            None => Err(Plan::NoName),
        },
    }
}

/// A target on this machine, without spaces where they are to be removed.
pub open spec fn local_goal(strip_spaces: bool, dst: Seq<u8>, path: Seq<u8>) -> Seq<u8> {
    if strip_spaces {
        stripped_of_spaces(dst, path)
    } else {
        path
    }
}

/// Whether two paths are the same, component by component.
pub open spec fn same_path(a: Seq<u8>, b: Seq<u8>) -> bool {
    components(a) == components(b)
}

/// What is to be done with a file that stays on this machine.
pub open spec fn local_task(
    dir: Option<Seq<u8>>,
    mode: TransferMode,
    strip_spaces: bool,
    dst: Seq<u8>,
    file: Seq<u8>,
) -> TaskModel {
    match local_target(dir, mode, dst, file) {
        Ok(path) => TaskModel {
            source: PlaceModel::Here(file),
            target: PlaceModel::Here(local_goal(strip_spaces, dst, path)),
            staged: Seq::empty(),
            plan: Plan::Go,
        },
        Err(plan) => TaskModel {
            source: PlaceModel::Here(file),
            target: PlaceModel::Here(Seq::empty()),
            staged: Seq::empty(),
            plan,
        },
    }
}

/// The path of an optional list of bytes.
pub open spec fn opt_path(o: Option<Vec<u8>>) -> Option<Seq<u8>> {
    match o {
        Some(p) => Some(p@),
        None => None,
    }
}

/// The target of a file on this machine.
pub fn local_target_of(dir: &Option<Vec<u8>>, mode: TransferMode, dst: &[u8], file: &[u8]) -> (r:
    Result<Vec<u8>, Plan>)
    ensures
        (match r {
            Ok(p) => Ok(p@),
            Err(plan) => Err(plan),
        }) == local_target(opt_path(*dir), mode, dst@, file@),
{
    if let (Some(d), TransferMode::FoldersAndFiles) = (dir, mode) {
        match strip_base_of(file, d) {
            Some(rel) => match file_name_of(d) {
                Some(root) => Ok(join_paths(&join_paths(dst, &root), &rel)),
                None => Ok(join_paths(dst, &rel)),
            },
            None => Err(Plan::OutsideSource),
        }
    } else {
        match file_name_of(file) {
            Some(name) => Ok(join_paths(dst, &name)),
            None => Err(Plan::NoName),
        }
    }
}

/// Whether two paths are the same, component by component.
pub fn is_same_path(a: &[u8], b: &[u8]) -> (same: bool)
    ensures
        same == same_path(a@, b@),
{
    let x = components_of(a);
    let y = components_of(b);
    assert(parts(x@).len() == x@.len());
    assert(parts(y@).len() == y@.len());
    if x.len() != y.len() {
        return false;
    }
    let mut i: usize = 0;
    while i < x.len()
        invariant
            i <= x@.len(),
            x@.len() == y@.len(),
            parts(x@) == components(a@),
            parts(y@) == components(b@),
            forall|j: int| 0 <= j < i ==> #[trigger] parts(x@)[j] == parts(y@)[j],
        decreases x@.len() - i,
    {
        if !same_units(&x[i], &y[i]) {
            assert(parts(x@)[i as int] != parts(y@)[i as int]);
            return false;
        }
        assert(parts(x@)[i as int] == parts(y@)[i as int]);
        i += 1;
    }
    assert(parts(x@) == parts(y@));
    true
}

fn local_goal_of(strip_spaces: bool, dst: &[u8], path: Vec<u8>) -> (r: Vec<u8>)
    ensures
        r@ == local_goal(strip_spaces, dst@, path@),
        dst@.is_prefix_of(path@) ==> dst@.is_prefix_of(r@),
{
    if strip_spaces {
        strip_spaces_from_path(dst, &path)
    } else {
        path
    }
}

/// What is to be done with a file that stays on this machine.
pub fn plan_local(
    dir: &Option<Vec<u8>>,
    mode: TransferMode,
    strip_spaces: bool,
    dst: &[u8],
    file: &[u8],
) -> (r: Task)
    ensures
        r@ == local_task(opt_path(*dir), mode, strip_spaces, dst@, file@),
        opt_path(*dir) != Some(Seq::<u8>::empty()) && r.plan == Plan::Go ==> dst@.is_prefix_of(
            r@.target.here(),
        ),
{
    match local_target_of(dir, mode, dst, file) {
        Ok(path) => {
            proof {
                if opt_path(*dir) != Some(Seq::<u8>::empty()) {
                    local_targets_lie_below_the_destination(opt_path(*dir), mode, dst@, file@);
                }
            }
            Task {
                source: Place::Here(copied_path(file)),
                target: Place::Here(local_goal_of(strip_spaces, dst, path)),
                staged: Vec::new(),
                plan: Plan::Go,
            }
        },
        Err(plan) => Task {
            source: Place::Here(copied_path(file)),
            target: Place::Here(Vec::new()),
            staged: Vec::new(),
            plan,
        },
    }
}

/// Every file that stays on this machine goes below the destination. The empty
/// path is no directory.
pub proof fn local_targets_lie_below_the_destination(
    dir: Option<Seq<u8>>,
    mode: TransferMode,
    dst: Seq<u8>,
    file: Seq<u8>,
)
    requires
        dir != Some(Seq::<u8>::empty()),
    ensures
        match local_target(dir, mode, dst, file) {
            Ok(path) => dst.is_prefix_of(path),
            Err(_) => true,
        },
{
    match (dir, mode) {
        (Some(d), TransferMode::FoldersAndFiles) => {
            if let Some(rel) = strip_base(file, d) {
                if d.len() == 0 {
                    assert(d == Seq::<u8>::empty());
                }
                a_path_has_components(d);
                the_path_below_a_base_has_no_root(file, d);
                if file_name(d) is Some {
                    directories_are_kept(d, dst, file);
                } else {
                    joined_below_the_base(dst, rel);
                }
            }
        },
        _ => {
            if file_name(file) is Some {
                files_alone_lie_right_in_the_destination(None, mode, dst, file);
            }
        },
    }
}

/// Where the files lie in directories, they lie in the same ones below the
/// destination and the name of the source.
pub proof fn directories_are_kept(dir: Seq<u8>, dst: Seq<u8>, file: Seq<u8>)
    requires
        file_name(dir) is Some,
        strip_base(file, dir) is Some,
    ensures
        ({
            let root = file_name(dir)->0;
            let rel = strip_base(file, dir)->0;
            let target = local_target(Some(dir), TransferMode::FoldersAndFiles, dst, file);
            &&& target == Ok::<Seq<u8>, Plan>(join_path(join_path(dst, root), rel))
            &&& dst.is_prefix_of(join_path(dst, root))
            &&& root.is_suffix_of(join_path(dst, root))
            &&& join_path(dst, root).is_prefix_of(target->Ok_0)
            &&& rel.is_suffix_of(target->Ok_0)
        }),
{
    a_file_name_has_no_slash(dir);
    a_path_has_components(dir);
    let root = file_name(dir)->0;
    assert(!has_root(root)) by {
        if has_root(root) {
            assert(root.contains(root[0]));
        }
    }
    the_path_below_a_base_has_no_root(file, dir);
    joined_below_the_base(dst, root);
    joined_below_the_base(join_path(dst, root), strip_base(file, dir)->0);
}

/// Files that lie at different places below the source directory get
/// different targets.
pub proof fn directories_keep_files_apart(dir: Seq<u8>, dst: Seq<u8>, a: Seq<u8>, b: Seq<u8>)
    requires
        dir.len() > 0,
        strip_base(a, dir) is Some,
        strip_base(b, dir) is Some,
        strip_base(a, dir) != strip_base(b, dir),
    ensures
        local_target(Some(dir), TransferMode::FoldersAndFiles, dst, a) != local_target(
            Some(dir),
            TransferMode::FoldersAndFiles,
            dst,
            b,
        ),
{
    let base = match file_name(dir) {
        Some(name) => join_path(dst, name),
        None => dst,
    };
    a_path_has_components(dir);
    the_path_below_a_base_has_no_root(a, dir);
    the_path_below_a_base_has_no_root(b, dir);
    if join_path(base, strip_base(a, dir)->0) == join_path(base, strip_base(b, dir)->0) {
        joining_keeps_paths_apart(base, strip_base(a, dir)->0, strip_base(b, dir)->0);
    }
}

/// Where only the files are wanted, or single files were picked, every target
/// lies right in the destination: it is a name without a slash joined to it.
pub proof fn files_alone_lie_right_in_the_destination(
    dir: Option<Seq<u8>>,
    mode: TransferMode,
    dst: Seq<u8>,
    file: Seq<u8>,
)
    requires
        dir is None || mode == TransferMode::FilesOnly,
        file_name(file) is Some,
    ensures
        local_target(dir, mode, dst, file) == Ok::<Seq<u8>, Plan>(
            join_path(dst, file_name(file)->0),
        ),
        !file_name(file)->0.contains(47u8),
        dst.is_prefix_of(join_path(dst, file_name(file)->0)),
{
    a_file_name_has_no_slash(file);
    let name = file_name(file)->0;
    if has_root(name) {
        assert(name.contains(name[0]));
    }
    joined_below_the_base(dst, name);
}

// ---------------------------------------------------------------------------
// From this machine to a host
// ---------------------------------------------------------------------------

/// `base` and `rel` with a slash between them.
pub open spec fn slashed(base: Seq<char>, rel: Seq<char>) -> Seq<char> {
    base + "/"@ + rel
}

/// `rel` below `root`, where there is a root.
pub open spec fn below_root(root: Seq<char>, rel: Seq<char>) -> Seq<char> {
    if root.len() == 0 {
        rel
    } else {
        slashed(root, rel)
    }
}

/// The name of a directory as text, or nothing.
pub open spec fn root_text(dir: Seq<u8>) -> Seq<char> {
    match file_name(dir) {
        Some(name) => utf8_lossy(name),
        None => Seq::empty(),
    }
}

/// What a file on this machine is called below the base on a host.
pub open spec fn upload_rel(dir: Option<Seq<u8>>, mode: TransferMode, file: Seq<u8>) -> Result<
    Seq<char>,
    Plan,
> {
    match (dir, mode) {
        (Some(d), TransferMode::FoldersAndFiles) => match strip_base(file, d) {
            Some(rel) => Ok(below_root(root_text(d), utf8_lossy(rel))),
            None => Err(Plan::OutsideSource),
        },
        _ => match file_name(file) {
            Some(name) => Ok(utf8_lossy(name)),
            None => Err(Plan::NoName),
        },
    }
}

/// A target on a host: what the file is called below the base, without spaces
/// where they are to be removed, behind the base as it was given.
pub open spec fn remote_goal(strip_spaces: bool, base: Seq<char>, rel: Seq<char>) -> Seq<char> {
    slashed(
        base,
        if strip_spaces {
            without_spaces(rel)
        } else {
            rel
        },
    )
}

/// Whatever is removed from what a file is called, the base stays as it was
/// given, and only the names behind it lose their spaces.
pub proof fn the_base_keeps_its_spaces(strip_spaces: bool, base: Seq<char>, rel: Seq<char>)
    ensures
        (base + "/"@).is_prefix_of(remote_goal(strip_spaces, base, rel)),
        strip_spaces ==> !remote_goal(strip_spaces, base, rel).skip((base + "/"@).len() as int)
            .contains(' '),
{
    let goal = remote_goal(strip_spaces, base, rel);
    let front = base + "/"@;
    assert(goal.take(front.len() as int) == front);
    without_spaces_keeps_the_rest(rel);
    if strip_spaces {
        assert(goal.skip(front.len() as int) == without_spaces(rel));
    }
}

fn slashed_text(base: &str, rel: &str) -> (r: String)
    ensures
        r@ == slashed(base@, rel@),
{
    concat3(base, "/", rel)
}

/// `rel` below `root`, where there is a root.
pub fn below_root_text(root: &str, rel: &str) -> (r: String)
    ensures
        r@ == below_root(root@, rel@),
{
    if root.is_empty() {
        owned(rel)
    } else {
        slashed_text(root, rel)
    }
}

/// The name of a directory as text, or nothing.
pub fn root_text_of(dir: &[u8]) -> (r: String)
    ensures
        r@ == root_text(dir@),
{
    match file_name_of(dir) {
        Some(name) => lossy_text(&name),
        None => {
            proof {
                reveal_strlit("");
                assert(""@ == Seq::<char>::empty());
            }
            owned("")
        },
    }
}

/// What a file on this machine is called below the base on a host.
pub fn upload_rel_of(dir: &Option<Vec<u8>>, mode: TransferMode, file: &[u8]) -> (r: Result<
    String,
    Plan,
>)
    ensures
        (match r {
            Ok(p) => Ok(p@),
            Err(plan) => Err(plan),
        }) == upload_rel(opt_path(*dir), mode, file@),
{
    if let (Some(d), TransferMode::FoldersAndFiles) = (dir, mode) {
        match strip_base_of(file, d) {
            Some(rel) => {
                let root = root_text_of(d);
                Ok(below_root_text(root.as_str(), lossy_text(&rel).as_str()))
            },
            None => Err(Plan::OutsideSource),
        }
    } else {
        match file_name_of(file) {
            Some(name) => Ok(lossy_text(&name)),
            None => Err(Plan::NoName),
        }
    }
}

/// A target on a host.
pub fn remote_goal_of(strip_spaces: bool, base: &str, rel: &str) -> (r: String)
    ensures
        r@ == remote_goal(strip_spaces, base@, rel@),
{
    if strip_spaces {
        slashed_text(base, remove_spaces(rel).as_str())
    } else {
        slashed_text(base, rel)
    }
}

/// The files that go to a host.
pub open spec fn upload_tasks(
    dir: Option<Seq<u8>>,
    mode: TransferMode,
    strip_spaces: bool,
    base: Seq<char>,
    files: Seq<Seq<u8>>,
) -> Seq<TaskModel>
    decreases files.len(),
{
    if files.len() == 0 {
        Seq::empty()
    } else {
        let before = upload_tasks(dir, mode, strip_spaces, base, files.drop_last());
        match upload_rel(dir, mode, files.last()) {
            Ok(rel) => before.push(
                TaskModel {
                    source: PlaceModel::Here(files.last()),
                    target: PlaceModel::There(remote_goal(strip_spaces, base, rel)),
                    staged: Seq::empty(),
                    plan: Plan::Go,
                },
            ),
            Err(_) => before,
        }
    }
}

/// How a file ends that is not set out with.
pub open spec fn unplanned(plan: Plan) -> Outcome {
    match plan {
        Plan::OutsideSource => Outcome::OutsideSource,
        _ => Outcome::NoName,
    }
}

/// The notes about the files that have no target on the host.
pub open spec fn upload_notes(
    job: Job,
    dir: Option<Seq<u8>>,
    mode: TransferMode,
    files: Seq<Seq<u8>>,
) -> Seq<Seq<char>>
    decreases files.len(),
{
    if files.len() == 0 {
        Seq::empty()
    } else {
        let before = upload_notes(job, dir, mode, files.drop_last());
        match upload_rel(dir, mode, files.last()) {
            Ok(_) => before,
            Err(plan) => before.push(
                note_of(job, unplanned(plan), utf8_lossy(files.last()), Seq::empty()),
            ),
        }
    }
}

/// Every file that is to go to a host either has a target there or is noted.
pub proof fn every_upload_is_planned_or_noted(
    job: Job,
    dir: Option<Seq<u8>>,
    mode: TransferMode,
    strip_spaces: bool,
    base: Seq<char>,
    files: Seq<Seq<u8>>,
)
    ensures
        upload_tasks(dir, mode, strip_spaces, base, files).len() + upload_notes(
            job,
            dir,
            mode,
            files,
        ).len() == files.len(),
    decreases files.len(),
{
    if files.len() > 0 {
        every_upload_is_planned_or_noted(job, dir, mode, strip_spaces, base, files.drop_last());
    }
}

/// The files that go to a host, and the notes about those that do not.
pub fn plan_upload(
    job: Job,
    dir: &Option<Vec<u8>>,
    mode: TransferMode,
    strip_spaces: bool,
    base: &str,
    files: &[Vec<u8>],
) -> (r: (Vec<Task>, Vec<String>))
    ensures
        tasks_of(r.0@) == upload_tasks(opt_path(*dir), mode, strip_spaces, base@, parts(files@)),
        texts(r.1@) == upload_notes(job, opt_path(*dir), mode, parts(files@)),
{
    let mut tasks: Vec<Task> = Vec::new();
    let mut notes: Vec<String> = Vec::new();
    let ghost all = parts(files@);
    let mut i: usize = 0;
    assert(tasks_of(tasks@) == upload_tasks(
        opt_path(*dir),
        mode,
        strip_spaces,
        base@,
        all.take(0),
    ));
    assert(texts(notes@) == upload_notes(job, opt_path(*dir), mode, all.take(0)));
    while i < files.len()
        invariant
            i <= files@.len(),
            all == parts(files@),
            tasks_of(tasks@) == upload_tasks(
                opt_path(*dir),
                mode,
                strip_spaces,
                base@,
                all.take(i as int),
            ),
            texts(notes@) == upload_notes(
                job,
                opt_path(*dir),
                mode,
                all.take(i as int),
            ),
        decreases files@.len() - i,
    {
        assert(all.take(i + 1).drop_last() == all.take(i as int));
        assert(all.take(i + 1).last() == files@[i as int]@);
        let ghost tasks_before = tasks@;
        let ghost notes_before = notes@;
        match upload_rel_of(dir, mode, &files[i]) {
            Ok(rel) => {
                let task = Task {
                    source: Place::Here(copied_path(&files[i])),
                    target: Place::There(remote_goal_of(strip_spaces, base, rel.as_str())),
                    staged: Vec::new(),
                    plan: Plan::Go,
                };
                assert(task@.staged == Seq::<u8>::empty());
                tasks.push(task);
                assert(tasks_of(tasks@) == tasks_of(tasks_before).push(task@));
            },
            Err(plan) => {
                let outcome = match plan {
                    Plan::OutsideSource => Outcome::OutsideSource,
                    _ => Outcome::NoName,
                };
                proof {
                    reveal_strlit("");
                    assert(""@ == Seq::<char>::empty());
                }
                let n = note(job, outcome, lossy_text(&files[i]).as_str(), "");
                notes.push(n);
                assert(texts(notes@) == texts(notes_before).push(n@));
            },
        }
        i += 1;
    }
    assert(all.take(i as int) == all);
    (tasks, notes)
}

// ---------------------------------------------------------------------------
// From a host
// ---------------------------------------------------------------------------

/// What a file on a host is called below the base of the source; where the
/// file is the base itself, its name.
pub open spec fn rel_of(base: Seq<char>, file: Seq<char>) -> Seq<char> {
    trim_start(
        match below_base(base, file) {
            Some(rel) => rel,
            None => file,
        },
        '/',
    )
}

/// The name of the source on a host, or nothing.
pub open spec fn root_of(base: Seq<char>) -> Seq<char> {
    match file_name(trim_end(base, '/')) {
        Some(name) => name,
        None => Seq::empty(),
    }
}

/// The name of the source, for a file that lies below it; a source that is the
/// file itself is no directory, and its name is not put before the file.
pub open spec fn root_for(base: Seq<char>, file: Seq<char>) -> Seq<char> {
    if starts_with(file, with_slash(base)) {
        root_of(base)
    } else {
        Seq::empty()
    }
}

/// The name of a file on a host, or the whole path where it has none.
pub open spec fn name_or_all(rel: Seq<char>) -> Seq<char> {
    match file_name(rel) {
        Some(name) => name,
        None => rel,
    }
}

/// The target on this machine of a file on a host.
pub open spec fn download_target(
    base: Seq<char>,
    mode: TransferMode,
    dst: Seq<u8>,
    file: Seq<char>,
) -> Seq<u8> {
    let rel = rel_of(base, file);
    match mode {
        TransferMode::FoldersAndFiles => if root_for(base, file).len() == 0 {
            join_path(dst, encode_utf8(rel))
        } else {
            join_path(join_path(dst, encode_utf8(root_for(base, file))), encode_utf8(rel))
        },
        TransferMode::FilesOnly => join_path(dst, encode_utf8(name_or_all(rel))),
    }
}

/// What is to be done with a file that comes from a host to this machine.
pub open spec fn download_task(
    base: Seq<char>,
    mode: TransferMode,
    strip_spaces: bool,
    dst: Seq<u8>,
    file: Seq<char>,
) -> TaskModel {
    TaskModel {
        source: PlaceModel::There(file),
        target: PlaceModel::Here(
            local_goal(strip_spaces, dst, download_target(base, mode, dst, file)),
        ),
        staged: Seq::empty(),
        plan: Plan::Go,
    }
}

/// What a file on a host is called below the base on another host.
pub open spec fn relay_rel(base: Seq<char>, mode: TransferMode, file: Seq<char>) -> Seq<char> {
    let rel = rel_of(base, file);
    match mode {
        TransferMode::FoldersAndFiles => below_root(root_for(base, file), rel),
        TransferMode::FilesOnly => name_or_all(rel),
    }
}

/// What is to be done with a file that goes from one host to another.
pub open spec fn relay_task(
    base: Seq<char>,
    mode: TransferMode,
    strip_spaces: bool,
    target_base: Seq<char>,
    file: Seq<char>,
) -> TaskModel {
    TaskModel {
        source: PlaceModel::There(file),
        target: PlaceModel::There(
            remote_goal(strip_spaces, target_base, relay_rel(base, mode, file)),
        ),
        staged: encode_utf8(rel_of(base, file)),
        plan: Plan::Go,
    }
}

/// What a file on a host is called below the base of the source.
pub fn rel_text(base: &str, file: &str) -> (r: String)
    ensures
        r@ == rel_of(base@, file@),
{
    let rel = match name_below_base(base, file) {
        Some(rel) => rel,
        None => owned(file),
    };
    let units = chars_of(rel.as_str());
    text_of(&trim_start_chars(&units, '/'))
}

/// The name of the source on a host, or nothing.
pub fn root_name(base: &str) -> (r: String)
    ensures
        r@ == root_of(base@),
{
    let b = chars_of(base);
    match file_name_of(&trim_end_chars(&b, '/')) {
        Some(name) => text_of(&name),
        None => {
            proof {
                reveal_strlit("");
                assert(""@ == Seq::<char>::empty());
            }
            owned("")
        },
    }
}

fn root_for_text(base: &str, file: &str) -> (r: String)
    ensures
        r@ == root_for(base@, file@),
{
    let s = chars_of(file);
    if has_prefix(&s, &base_with_slash(base)) {
        root_name(base)
    } else {
        proof {
            reveal_strlit("");
            assert(""@ == Seq::<char>::empty());
        }
        owned("")
    }
}

fn name_or_all_text(rel: &str) -> (r: String)
    ensures
        r@ == name_or_all(rel@),
{
    let s = chars_of(rel);
    match file_name_of(&s) {
        Some(name) => text_of(&name),
        None => owned(rel),
    }
}

/// The target on this machine of a file on a host.
pub fn download_target_of(base: &str, mode: TransferMode, dst: &[u8], file: &str) -> (r: Vec<u8>)
    ensures
        r@ == download_target(base@, mode, dst@, file@),
{
    let rel = rel_text(base, file);
    match mode {
        TransferMode::FoldersAndFiles => {
            let root = root_for_text(base, file);
            if root.as_str().is_empty() {
                join_paths(dst, rel.as_str().as_bytes())
            } else {
                join_paths(
                    &join_paths(dst, root.as_str().as_bytes()),
                    rel.as_str().as_bytes(),
                )
            }
        },
        TransferMode::FilesOnly => {
            let name = name_or_all_text(rel.as_str());
            join_paths(dst, name.as_str().as_bytes())
        },
    }
}

/// What a file on a host is called below the base on another host.
pub fn relay_rel_of(base: &str, mode: TransferMode, file: &str) -> (r: String)
    ensures
        r@ == relay_rel(base@, mode, file@),
{
    let rel = rel_text(base, file);
    match mode {
        TransferMode::FoldersAndFiles => {
            let root = root_for_text(base, file);
            below_root_text(root.as_str(), rel.as_str())
        },
        TransferMode::FilesOnly => name_or_all_text(rel.as_str()),
    }
}

/// What is to be done with a file that comes from a host to this machine.
pub fn plan_download(base: &str, mode: TransferMode, strip_spaces: bool, dst: &[u8], file: &str)
    -> (r: Task)
    ensures
        r@ == download_task(base@, mode, strip_spaces, dst@, file@),
        dst@.is_prefix_of(r@.target.here()),
{
    let path = download_target_of(base, mode, dst, file);
    proof {
        downloads_lie_below_the_destination(base@, mode, dst@, file@);
    }
    Task {
        source: Place::There(owned(file)),
        target: Place::Here(local_goal_of(strip_spaces, dst, path)),
        staged: Vec::new(),
        plan: Plan::Go,
    }
}

/// What is to be done with a file that goes from one host to another.
pub fn plan_relay(
    base: &str,
    mode: TransferMode,
    strip_spaces: bool,
    target_base: &str,
    file: &str,
) -> (r: Task)
    ensures
        r@ == relay_task(base@, mode, strip_spaces, target_base@, file@),
{
    let rel = relay_rel_of(base, mode, file);
    Task {
        source: Place::There(owned(file)),
        target: Place::There(remote_goal_of(strip_spaces, target_base, rel.as_str())),
        staged: bytes_of(rel_text(base, file).as_str()),
        plan: Plan::Go,
    }
}

proof fn trimmed_has_no_root(s: Seq<char>)
    ensures
        !has_root(trim_start(s, '/')),
    decreases s.len(),
{
    if s.len() > 0 && s[0] == '/' {
        trimmed_has_no_root(s.skip(1));
    }
}

/// What a file on a host is called below the base of the source does not start
/// at the root.
pub proof fn files_of_a_host_have_no_root(base: Seq<char>, mode: TransferMode, file: Seq<char>)
    ensures
        !has_root(rel_of(base, file)),
        !has_root(root_for(base, file)),
        !has_root(name_or_all(rel_of(base, file))),
{
    let rel = rel_of(base, file);
    trimmed_has_no_root(
        match below_base(base, file) {
            Some(rel) => rel,
            None => file,
        },
    );
    a_file_name_has_no_slash(trim_end(base, '/'));
    let root = root_for(base, file);
    if has_root(root) {
        assert(root.contains(root[0]));
    }
    a_file_name_has_no_slash(rel);
    let name = name_or_all(rel);
    if has_root(name) && file_name(rel) is Some {
        assert(name.contains(name[0]));
    }
}

/// Every file that comes from a host comes to lie below the destination, also
/// where the source is the file itself.
pub proof fn downloads_lie_below_the_destination(
    base: Seq<char>,
    mode: TransferMode,
    dst: Seq<u8>,
    file: Seq<char>,
)
    ensures
        dst.is_prefix_of(download_target(base, mode, dst, file)),
{
    files_of_a_host_have_no_root(base, mode, file);
    let rel = rel_of(base, file);
    let root = root_for(base, file);
    let name = name_or_all(rel);
    encoding_keeps_the_root(rel);
    encoding_keeps_the_root(root);
    encoding_keeps_the_root(name);
    joined_below_the_base(dst, encode_utf8(rel));
    joined_below_the_base(dst, encode_utf8(root));
    joined_below_the_base(join_path(dst, encode_utf8(root)), encode_utf8(rel));
    joined_below_the_base(dst, encode_utf8(name));
}

/// A source that is one file comes to lie right in the destination, and is
/// staged right in the directory for that, under its name.
pub proof fn a_single_file_goes_by_its_name(
    mode: TransferMode,
    strip_spaces: bool,
    target_base: Seq<char>,
    dst: Seq<u8>,
    file: Seq<char>,
)
    requires
        file_name(file) is Some,
        file.last() != '/',
    ensures
        download_target(file, mode, dst, file) == join_path(dst, encode_utf8(file_name(file)->0)),
        relay_task(file, mode, strip_spaces, target_base, file).staged == encode_utf8(
            file_name(file)->0,
        ),
{
    let name = file_name(file)->0;
    a_file_name_has_no_slash(file);
    assert(with_slash(file) == file.push('/'));
    assert(!starts_with(file, with_slash(file)));
    assert(name[0] != '/') by {
        assert(name.contains(name[0]));
    }
    assert(rel_of(file, file) == name);
    a_name_is_its_own_name(file);
}

/// A file that goes from one host to another is staged below the directory for
/// that, whatever that directory is.
pub proof fn relayed_files_are_staged_below_the_directory(
    base: Seq<char>,
    mode: TransferMode,
    strip_spaces: bool,
    target_base: Seq<char>,
    file: Seq<char>,
    staging: Seq<u8>,
)
    ensures
        !has_root(relay_task(base, mode, strip_spaces, target_base, file).staged),
        staging.is_prefix_of(
            join_path(staging, relay_task(base, mode, strip_spaces, target_base, file).staged),
        ),
{
    files_of_a_host_have_no_root(base, mode, file);
    encoding_keeps_the_root(rel_of(base, file));
    joined_below_the_base(staging, encode_utf8(rel_of(base, file)));
}

/// The directory for staged files below the one for temporary files, for a
/// process of this number.
pub open spec fn staging_path(temp: Seq<u8>, pid: nat) -> Seq<u8> {
    join_path(temp, encode_utf8("kosmokopy_relay_"@ + decimal(pid)))
}

/// The directory for staged files below the one for temporary files, for a
/// process of this number.
pub fn tempdir_for_relay(temp: &[u8], pid: u32) -> (r: Vec<u8>)
    ensures
        r@ == staging_path(temp@, pid as nat),
{
    let number = text_of(&decimal_chars(pid as u64));
    let name = concat2("kosmokopy_relay_", number.as_str());
    join_paths(temp, name.as_str().as_bytes())
}

// ---------------------------------------------------------------------------
// Directories on a host
// ---------------------------------------------------------------------------

/// The directories that have to be on the host: the base of the target, and
/// the one that each file goes into.
pub open spec fn remote_dirs(base: Seq<char>, tasks: Seq<TaskModel>) -> Seq<Seq<char>>
    decreases tasks.len(),
{
    if tasks.len() == 0 {
        seq![base]
    } else {
        let before = remote_dirs(base, tasks.drop_last());
        match parent(tasks.last().target.there()) {
            Some(dir) => with_entry(before, dir),
            None => before,
        }
    }
}

/// The directories that have to be on the host.
pub fn dirs_for(base: &str, tasks: &[Task]) -> (r: Vec<String>)
    ensures
        texts(r@) == remote_dirs(base@, tasks_of(tasks@)),
{
    let mut r: Vec<String> = Vec::new();
    r.push(owned(base));
    let ghost all = tasks_of(tasks@);
    let mut i: usize = 0;
    assert(texts(r@) == remote_dirs(base@, all.take(0)));
    while i < tasks.len()
        invariant
            i <= tasks@.len(),
            all == tasks_of(tasks@),
            texts(r@) == remote_dirs(base@, all.take(i as int)),
        decreases tasks@.len() - i,
    {
        assert(all.take(i + 1).drop_last() == all.take(i as int));
        assert(all.take(i + 1).last() == tasks@[i as int]@);
        let path = chars_of(tasks[i].target.there().as_str());
        if let Some(dir) = parent_of(&path) {
            add_once(&mut r, text_of(&dir));
        }
        i += 1;
    }
    assert(all.take(i as int) == all);
    r
}

/// Every file finds its directory: the base of the target and the directory of
/// each target are among those that are made, and none is made twice.
pub proof fn every_file_finds_its_directory(base: Seq<char>, tasks: Seq<TaskModel>)
    ensures
        remote_dirs(base, tasks).contains(base),
        remote_dirs(base, tasks).no_duplicates(),
        forall|i: int|
            0 <= i < tasks.len() ==> match parent((#[trigger] tasks[i]).target.there()) {
                Some(dir) => remote_dirs(base, tasks).contains(dir),
                None => true,
            },
    decreases tasks.len(),
{
    let all = remote_dirs(base, tasks);
    if tasks.len() == 0 {
        assert(all[0] == base);
    } else {
        let fewer = tasks.drop_last();
        let before = remote_dirs(base, fewer);
        every_file_finds_its_directory(base, fewer);
        assert forall|d: Seq<char>| #[trigger] before.contains(d) implies all.contains(d) by {
            let k = choose|k: int| 0 <= k < before.len() && before[k] == d;
            assert(all[k] == d);
        }
        assert forall|i: int| 0 <= i < tasks.len() implies match parent(
            (#[trigger] tasks[i]).target.there(),
        ) {
            Some(dir) => all.contains(dir),
            None => true,
        } by {
            if i < tasks.len() - 1 {
                assert(fewer[i] == tasks[i]);
            } else if let Some(dir) = parent(tasks[i].target.there()) {
                if !before.contains(dir) {
                    assert(all[all.len() - 1] == dir);
                }
            }
        }
    }
}

} // verus!
