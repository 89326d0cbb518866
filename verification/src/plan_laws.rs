//! What holds of the targets of all files: each keeps its whole path below the
//! source where directories are kept, files from different places never meet,
//! and no file of the source is passed over.

use vstd::prelude::*;
use vstd::utf8::*;

#[allow(unused_imports)]
use crate::collect::{below_base, paths_are_named_below_the_base, with_slash};
#[allow(unused_imports)]
use crate::exclusion::{adding_keeps_the_list, with_entry};
#[allow(unused_imports)]
use crate::names::{encoding_keeps_the_root, stripped_of_spaces};
#[allow(unused_imports)]
use crate::notes::note_of;
#[allow(unused_imports)]
use crate::paths::{
    a_file_name_has_no_slash, a_name_is_its_own_name, a_path_has_components, components, file_name, has_root, join_path,
    joined_below_the_base, joining_keeps_paths_apart, parent, strip_base,
};
#[allow(unused_imports)]
use crate::plan::{
    download_target, download_task, files_of_a_host_have_no_root, local_goal, local_target,
    local_task, name_or_all, rel_of, relay_rel, relay_task, remote_dirs, remote_goal, same_path,
    staging_path, upload_notes, upload_rel, upload_tasks, PlaceModel, TaskModel,
};
#[allow(unused_imports)]
use crate::request::TransferMode;
#[allow(unused_imports)]
use crate::steps::{Job, Outcome, Plan};
#[allow(unused_imports)]
use crate::text::{
    decimal, decimal_is_injective, starts_with, trim_end, trim_start, utf8_lossy,
    without_spaces_keeps_the_rest,
};

verus! {

/// Texts that are written with the same bytes are the same.
proof fn encoding_keeps_texts_apart(a: Seq<char>, b: Seq<char>)
    requires
        encode_utf8(a) == encode_utf8(b),
    ensures
        a == b,
{
    encode_utf8_decode_utf8(a);
    encode_utf8_decode_utf8(b);
}

/// Texts that go on differently behind the same beginning differ.
proof fn endings_keep_texts_apart(front: Seq<char>, a: Seq<char>, b: Seq<char>)
    requires
        front + a == front + b,
    ensures
        a == b,
{
    assert((front + a).skip(front.len() as int) == a);
    assert((front + b).skip(front.len() as int) == b);
}

// ---------------------------------------------------------------------------
// On this machine
// ---------------------------------------------------------------------------

/// On this machine a file is refused in two cases alone: where directories are
/// kept, if it lies outside the source directory, and where they are not, if it
/// has no name.
pub proof fn local_files_are_refused_only_without_a_place(
    dir: Option<Seq<u8>>,
    mode: TransferMode,
    dst: Seq<u8>,
    file: Seq<u8>,
)
    ensures
        local_target(dir, mode, dst, file) == Err::<Seq<u8>, Plan>(Plan::OutsideSource)
            <==> dir is Some && mode == TransferMode::FoldersAndFiles && strip_base(
            file,
            dir->0,
        ) is None,
        local_target(dir, mode, dst, file) == Err::<Seq<u8>, Plan>(Plan::NoName) <==> (dir is None
            || mode == TransferMode::FilesOnly) && file_name(file) is None,
        local_target(dir, mode, dst, file) != Err::<Seq<u8>, Plan>(Plan::Go),
{
}

/// Below a source directory that has no name of its own, such as the root, files
/// come to lie right below the destination as they lay below the source.
pub proof fn directories_without_a_name_put_nothing_before(
    dir: Seq<u8>,
    dst: Seq<u8>,
    file: Seq<u8>,
)
    requires
        file_name(dir) is None,
        strip_base(file, dir) is Some,
    ensures
        local_target(Some(dir), TransferMode::FoldersAndFiles, dst, file) == Ok::<Seq<u8>, Plan>(
            join_path(dst, strip_base(file, dir)->0),
        ),
{
}

/// A file on this machine is set out with exactly when it has a target, from
/// where it is; it goes to that target, without spaces below the
/// destination where they are to be removed.
pub proof fn local_tasks_go_from_the_file_to_its_target(
    dir: Option<Seq<u8>>,
    mode: TransferMode,
    strip_spaces: bool,
    dst: Seq<u8>,
    file: Seq<u8>,
)
    ensures
        ({
            let task = local_task(dir, mode, strip_spaces, dst, file);
            let target = local_target(dir, mode, dst, file);
            &&& task.source == PlaceModel::Here(file)
            &&& task.plan == Plan::Go <==> target is Ok
            &&& target is Err ==> task.plan == target->Err_0
            &&& target is Ok && !strip_spaces ==> task.target == PlaceModel::Here(target->Ok_0)
            &&& target is Ok && strip_spaces ==> task.target == PlaceModel::Here(
                stripped_of_spaces(dst, target->Ok_0),
            )
            &&& target is Ok ==> task.target is Here
        }),
{
    local_files_are_refused_only_without_a_place(dir, mode, dst, file);
}

/// Two paths are the same exactly when they have the same components, however
/// they are written.
pub proof fn paths_are_the_same_by_their_components(a: Seq<u8>, b: Seq<u8>)
    ensures
        same_path(a, b) <==> components(a) == components(b),
        same_path(a, b) <==> same_path(b, a),
        same_path(a, a),
{
}

// ---------------------------------------------------------------------------
// To a host
// ---------------------------------------------------------------------------

/// Where directories are kept, what an uploaded file is called on the host ends
/// in its whole path below the source directory, and before that stands the
/// name of the directory, where it has one.
pub proof fn uploads_keep_their_directories(dir: Seq<u8>, file: Seq<u8>)
    requires
        strip_base(file, dir) is Some,
    ensures
        ({
            let rel = utf8_lossy(strip_base(file, dir)->0);
            let p = upload_rel(Some(dir), TransferMode::FoldersAndFiles, file);
            &&& p is Ok
            &&& rel.is_suffix_of(p->Ok_0)
            &&& file_name(dir) is None ==> p->Ok_0 == rel
            &&& file_name(dir) is Some && utf8_lossy(file_name(dir)->0).len() > 0 ==> p->Ok_0
                == utf8_lossy(file_name(dir)->0) + seq!['/'] + rel
        }),
{
    reveal_strlit("/");
    assert("/"@ == seq!['/']);
    let rel = utf8_lossy(strip_base(file, dir)->0);
    let p = upload_rel(Some(dir), TransferMode::FoldersAndFiles, file)->Ok_0;
    assert(p.skip(p.len() - rel.len()) == rel);
}

/// Files at different text paths below the source directory get different
/// targets on the host.
pub proof fn uploads_keep_files_apart(dir: Seq<u8>, base: Seq<char>, a: Seq<u8>, b: Seq<u8>)
    requires
        strip_base(a, dir) is Some,
        strip_base(b, dir) is Some,
        utf8_lossy(strip_base(a, dir)->0) != utf8_lossy(strip_base(b, dir)->0),
    ensures
        ({
            let p = upload_rel(Some(dir), TransferMode::FoldersAndFiles, a);
            let q = upload_rel(Some(dir), TransferMode::FoldersAndFiles, b);
            &&& p is Ok
            &&& q is Ok
            &&& p != q
            &&& remote_goal(false, base, p->Ok_0) != remote_goal(false, base, q->Ok_0)
        }),
{
    let x = utf8_lossy(strip_base(a, dir)->0);
    let y = utf8_lossy(strip_base(b, dir)->0);
    let p = upload_rel(Some(dir), TransferMode::FoldersAndFiles, a)->Ok_0;
    let q = upload_rel(Some(dir), TransferMode::FoldersAndFiles, b)->Ok_0;
    if p == q {
        uploads_keep_their_directories(dir, a);
        uploads_keep_their_directories(dir, b);
        if file_name(dir) is Some && utf8_lossy(file_name(dir)->0).len() > 0 {
            endings_keep_texts_apart(utf8_lossy(file_name(dir)->0) + seq!['/'], x, y);
        }
    }
    if remote_goal(false, base, p) == remote_goal(false, base, q) {
        endings_keep_texts_apart(base + "/"@, p, q);
    }
}

/// Where directories are not kept, an uploaded file goes by its name; it is
/// refused if it has none, and where they are kept if it lies outside.
pub proof fn uploads_without_directories_go_by_their_names(
    dir: Option<Seq<u8>>,
    mode: TransferMode,
    file: Seq<u8>,
)
    ensures
        (dir is None || mode == TransferMode::FilesOnly) && file_name(file) is Some ==> upload_rel(
            dir,
            mode,
            file,
        ) == Ok::<Seq<char>, Plan>(utf8_lossy(file_name(file)->0)),
        upload_rel(dir, mode, file) == Err::<Seq<char>, Plan>(Plan::NoName) <==> (dir is None
            || mode == TransferMode::FilesOnly) && file_name(file) is None,
        upload_rel(dir, mode, file) == Err::<Seq<char>, Plan>(Plan::OutsideSource) <==> dir is Some
            && mode == TransferMode::FoldersAndFiles && strip_base(file, dir->0) is None,
        upload_rel(dir, mode, file) != Err::<Seq<char>, Plan>(Plan::Go),
{
}

/// A target on a host is the base, a slash, and what the file is called there,
/// of which nothing is lost but its spaces, and these only where they are to be
/// removed.
pub proof fn targets_on_a_host_follow_the_base(base: Seq<char>, rel: Seq<char>)
    ensures
        remote_goal(false, base, rel) == base + seq!['/'] + rel,
        remote_goal(true, base, rel) == base + seq!['/'] + rel.filter(|c: char| c != ' '),
{
    reveal_strlit("/");
    assert("/"@ == seq!['/']);
    without_spaces_keeps_the_rest(rel);
}

/// No file is passed over and none is moved before another: what is planned for
/// a list of files is what is planned for its parts, one after the other, and a
/// single file is planned if it has a name on the host, and noted if not.
pub proof fn uploads_are_planned_one_by_one(
    job: Job,
    dir: Option<Seq<u8>>,
    mode: TransferMode,
    strip_spaces: bool,
    base: Seq<char>,
    files: Seq<Seq<u8>>,
    more: Seq<Seq<u8>>,
    file: Seq<u8>,
)
    ensures
        upload_tasks(dir, mode, strip_spaces, base, files + more) == upload_tasks(
            dir,
            mode,
            strip_spaces,
            base,
            files,
        ) + upload_tasks(dir, mode, strip_spaces, base, more),
        upload_notes(job, dir, mode, files + more) == upload_notes(job, dir, mode, files)
            + upload_notes(job, dir, mode, more),
        upload_rel(dir, mode, file) is Ok ==> upload_tasks(
            dir,
            mode,
            strip_spaces,
            base,
            seq![file],
        ) == seq![
            TaskModel {
                source: PlaceModel::Here(file),
                target: PlaceModel::There(
                    remote_goal(strip_spaces, base, upload_rel(dir, mode, file)->Ok_0),
                ),
                staged: Seq::empty(),
                plan: Plan::Go,
            },
        ] && upload_notes(job, dir, mode, seq![file]) == Seq::<Seq<char>>::empty(),
        upload_rel(dir, mode, file) == Err::<Seq<char>, Plan>(Plan::OutsideSource) ==> upload_tasks(
            dir,
            mode,
            strip_spaces,
            base,
            seq![file],
        ) == Seq::<TaskModel>::empty() && upload_notes(job, dir, mode, seq![file]) == seq![
            note_of(job, Outcome::OutsideSource, utf8_lossy(file), Seq::empty()),
        ],
        upload_rel(dir, mode, file) == Err::<Seq<char>, Plan>(Plan::NoName) ==> upload_tasks(
            dir,
            mode,
            strip_spaces,
            base,
            seq![file],
        ) == Seq::<TaskModel>::empty() && upload_notes(job, dir, mode, seq![file]) == seq![
            note_of(job, Outcome::NoName, utf8_lossy(file), Seq::empty()),
        ],
    decreases more.len(),
{
    let one = seq![file];
    assert(one.drop_last() == Seq::<Seq<u8>>::empty());
    assert(one.last() == file);
    reveal_with_fuel(upload_tasks, 2);
    reveal_with_fuel(upload_notes, 2);
    if more.len() == 0 {
        assert(files + more == files);
    } else {
        assert((files + more).drop_last() == files + more.drop_last());
        uploads_are_planned_one_by_one(
            job,
            dir,
            mode,
            strip_spaces,
            base,
            files,
            more.drop_last(),
            file,
        );
    }
}

// ---------------------------------------------------------------------------
// From a host
// ---------------------------------------------------------------------------

/// Where directories are kept, a file from a host keeps its whole path below the
/// source, behind the last name of the source where it has one: on this machine
/// as on another host. Slashes before that path do not count.
pub proof fn files_from_a_host_keep_their_directories(
    base: Seq<char>,
    below: Seq<char>,
    dst: Seq<u8>,
)
    ensures
        ({
            let file = trim_end(base, '/') + seq!['/'] + below;
            let rel = trim_start(below, '/');
            let target = download_target(base, TransferMode::FoldersAndFiles, dst, file);
            let p = relay_rel(base, TransferMode::FoldersAndFiles, file);
            &&& encode_utf8(rel).is_suffix_of(target)
            &&& rel.is_suffix_of(p)
            &&& match file_name(trim_end(base, '/')) {
                Some(name) => {
                    &&& target == join_path(join_path(dst, encode_utf8(name)), encode_utf8(rel))
                    &&& p == name + seq!['/'] + rel
                },
                None => {
                    &&& target == join_path(dst, encode_utf8(rel))
                    &&& p == rel
                },
            }
        }),
{
    reveal_strlit("/");
    assert("/"@ == seq!['/']);
    let file = trim_end(base, '/') + seq!['/'] + below;
    let rel = trim_start(below, '/');
    paths_are_named_below_the_base(base, file, below);
    assert(rel_of(base, file) == rel);
    assert(file.take((trim_end(base, '/').len() + 1) as int) == with_slash(base));
    assert(starts_with(file, with_slash(base)));
    a_file_name_has_no_slash(trim_end(base, '/'));
    files_of_a_host_have_no_root(base, TransferMode::FoldersAndFiles, file);
    encoding_keeps_the_root(rel);
    joined_below_the_base(dst, encode_utf8(rel));
    let p = relay_rel(base, TransferMode::FoldersAndFiles, file);
    assert(p.skip(p.len() - rel.len()) == rel);
    if let Some(name) = file_name(trim_end(base, '/')) {
        encode_utf8_decode_utf8(name);
        joined_below_the_base(join_path(dst, encode_utf8(name)), encode_utf8(rel));
    }
}

/// Where directories are not kept, a file from a host goes by its name, and by
/// its whole path below the source where that ends in none: on this machine as
/// on another host.
pub proof fn files_from_a_host_go_by_their_names(base: Seq<char>, below: Seq<char>, dst: Seq<u8>)
    ensures
        ({
            let file = trim_end(base, '/') + seq!['/'] + below;
            let rel = trim_start(below, '/');
            let name = match file_name(rel) {
                Some(name) => name,
                None => rel,
            };
            &&& download_target(base, TransferMode::FilesOnly, dst, file) == join_path(
                dst,
                encode_utf8(name),
            )
            &&& relay_rel(base, TransferMode::FilesOnly, file) == name
        }),
{
    let file = trim_end(base, '/') + seq!['/'] + below;
    paths_are_named_below_the_base(base, file, below);
    assert(rel_of(base, file) == trim_start(below, '/'));
}

/// A source that is one file goes by its name on another host too.
pub proof fn a_single_file_is_relayed_by_its_name(mode: TransferMode, file: Seq<char>)
    requires
        file_name(file) is Some,
        file.last() != '/',
    ensures
        relay_rel(file, mode, file) == file_name(file)->0,
{
    let name = file_name(file)->0;
    a_file_name_has_no_slash(file);
    assert(with_slash(file) == file.push('/'));
    assert(!starts_with(file, with_slash(file)));
    assert(name[0] != '/') by {
        assert(name.contains(name[0]));
    }
    assert(rel_of(file, file) == name);
    a_name_is_its_own_name(file);
}

/// Slashes that a host puts before the name of a file below the base do not
/// count, and a file outside the base goes by its whole path.
pub proof fn slashes_before_a_name_do_not_count(base: Seq<char>, file: Seq<char>, rel: Seq<char>)
    ensures
        file == trim_end(base, '/') + seq!['/'] + rel ==> rel_of(base, file) == trim_start(
            rel,
            '/',
        ),
        below_base(base, file) is None ==> rel_of(base, file) == trim_start(file, '/'),
{
    paths_are_named_below_the_base(base, file, rel);
}

/// Where directories are kept, files at different places below the source on a
/// host get different targets, on this machine as on another host, and are never
/// staged at the same place.
pub proof fn files_from_a_host_are_kept_apart(
    base: Seq<char>,
    a: Seq<char>,
    b: Seq<char>,
    dst: Seq<u8>,
    target_base: Seq<char>,
)
    requires
        a.len() > 0,
        b.len() > 0,
        a[0] != '/',
        b[0] != '/',
        a != b,
    ensures
        ({
            let x = trim_end(base, '/') + seq!['/'] + a;
            let y = trim_end(base, '/') + seq!['/'] + b;
            &&& download_task(base, TransferMode::FoldersAndFiles, false, dst, x).target
                != download_task(base, TransferMode::FoldersAndFiles, false, dst, y).target
            &&& relay_task(base, TransferMode::FoldersAndFiles, false, target_base, x).target
                != relay_task(base, TransferMode::FoldersAndFiles, false, target_base, y).target
            &&& relay_task(base, TransferMode::FoldersAndFiles, false, target_base, x).staged
                != relay_task(base, TransferMode::FoldersAndFiles, false, target_base, y).staged
            &&& relay_task(base, TransferMode::FilesOnly, false, target_base, x).staged
                != relay_task(base, TransferMode::FilesOnly, false, target_base, y).staged
        }),
{
    let x = trim_end(base, '/') + seq!['/'] + a;
    let y = trim_end(base, '/') + seq!['/'] + b;
    files_from_a_host_keep_their_directories(base, a, dst);
    files_from_a_host_keep_their_directories(base, b, dst);
    slashes_before_a_name_do_not_count(base, x, a);
    slashes_before_a_name_do_not_count(base, y, b);
    assert(trim_start(a, '/') == a);
    assert(trim_start(b, '/') == b);
    if encode_utf8(a) == encode_utf8(b) {
        encoding_keeps_texts_apart(a, b);
    }
    encoding_keeps_the_root(a);
    encoding_keeps_the_root(b);
    let front = match file_name(trim_end(base, '/')) {
        Some(name) => join_path(dst, encode_utf8(name)),
        None => dst,
    };
    if join_path(front, encode_utf8(a)) == join_path(front, encode_utf8(b)) {
        joining_keeps_paths_apart(front, encode_utf8(a), encode_utf8(b));
    }
    let p = relay_rel(base, TransferMode::FoldersAndFiles, x);
    let q = relay_rel(base, TransferMode::FoldersAndFiles, y);
    if remote_goal(false, target_base, p) == remote_goal(false, target_base, q) {
        endings_keep_texts_apart(target_base + "/"@, p, q);
        if let Some(name) = file_name(trim_end(base, '/')) {
            endings_keep_texts_apart(name + seq!['/'], a, b);
        }
    }
}

/// Every file from a host is set out with, from where it is there; it goes to
/// its target, without spaces where they are to be removed, and is staged under
/// its path below the source.
pub proof fn tasks_from_a_host_go_from_the_file_to_its_target(
    base: Seq<char>,
    mode: TransferMode,
    strip_spaces: bool,
    dst: Seq<u8>,
    target_base: Seq<char>,
    file: Seq<char>,
)
    ensures
        ({
            let down = download_task(base, mode, strip_spaces, dst, file);
            let over = relay_task(base, mode, strip_spaces, target_base, file);
            &&& down.source == PlaceModel::There(file)
            &&& over.source == PlaceModel::There(file)
            &&& down.plan == Plan::Go
            &&& over.plan == Plan::Go
            &&& down.target is Here
            &&& !strip_spaces ==> down.target == PlaceModel::Here(
                download_target(base, mode, dst, file),
            )
            &&& strip_spaces ==> down.target == PlaceModel::Here(
                stripped_of_spaces(dst, download_target(base, mode, dst, file)),
            )
            &&& over.target == PlaceModel::There(
                remote_goal(strip_spaces, target_base, relay_rel(base, mode, file)),
            )
            &&& over.staged == encode_utf8(rel_of(base, file))
        }),
{
}

/// The directory for staged files lies below the one for temporary files, and
/// no two processes share it.
pub proof fn every_process_stages_for_itself(temp: Seq<u8>, a: nat, b: nat)
    ensures
        temp.is_prefix_of(staging_path(temp, a)),
        encode_utf8("kosmokopy_relay_"@ + decimal(a)).is_suffix_of(staging_path(temp, a)),
        staging_path(temp, a) == staging_path(temp, b) ==> a == b,
{
    reveal_strlit("kosmokopy_relay_");
    let x = "kosmokopy_relay_"@ + decimal(a);
    let y = "kosmokopy_relay_"@ + decimal(b);
    encoding_keeps_the_root(x);
    encoding_keeps_the_root(y);
    joined_below_the_base(temp, encode_utf8(x));
    if staging_path(temp, a) == staging_path(temp, b) {
        joining_keeps_paths_apart(temp, encode_utf8(x), encode_utf8(y));
        encoding_keeps_texts_apart(x, y);
        endings_keep_texts_apart("kosmokopy_relay_"@, decimal(a), decimal(b));
        decimal_is_injective(a, b);
    }
}

/// The base of the target is made first, and no directory is made on the host
/// that no file goes into.
pub proof fn no_needless_directory_is_made(base: Seq<char>, tasks: Seq<TaskModel>, dir: Seq<char>)
    requires
        remote_dirs(base, tasks).contains(dir),
    ensures
        remote_dirs(base, tasks)[0] == base,
        dir == base || exists|i: int|
            0 <= i < tasks.len() && parent((#[trigger] tasks[i]).target.there()) == Some(dir),
    decreases tasks.len(),
{
    if tasks.len() > 0 {
        let fewer = tasks.drop_last();
        let before = remote_dirs(base, fewer);
        the_base_is_made_first(base, fewer);
        let k = choose|k: int|
            0 <= k < remote_dirs(base, tasks).len() && remote_dirs(base, tasks)[k] == dir;
        if k < before.len() {
            assert(before[k] == dir);
            no_needless_directory_is_made(base, fewer, dir);
            if dir != base {
                let i = choose|i: int|
                    0 <= i < fewer.len() && parent((#[trigger] fewer[i]).target.there()) == Some(
                        dir,
                    );
                assert(tasks[i] == fewer[i]);
            }
        } else {
            assert(tasks[tasks.len() - 1] == tasks.last());
        }
    }
}

proof fn the_base_is_made_first(base: Seq<char>, tasks: Seq<TaskModel>)
    ensures
        remote_dirs(base, tasks).len() > 0,
        remote_dirs(base, tasks)[0] == base,
    decreases tasks.len(),
{
    if tasks.len() > 0 {
        the_base_is_made_first(base, tasks.drop_last());
    }
}

/// A place shows its path, and holds one at its own end alone.
pub proof fn places_show_their_paths(here: Seq<u8>, there: Seq<char>)
    ensures
        PlaceModel::Here(here).shown() == utf8_lossy(here),
        PlaceModel::There(there).shown() == there,
        PlaceModel::Here(here).here() == here,
        PlaceModel::There(there).there() == there,
        PlaceModel::Here(here).there().len() == 0,
        PlaceModel::There(there).here().len() == 0,
{
}

} // verus!
