//! What the window asks for: the source that was entered or picked, what is
//! missing, and the request that comes of it.

use vstd::prelude::*;
use vstd::utf8::*;

use crate::cli::Request;
#[allow(unused_imports)]
use crate::cli::RequestModel;
use crate::collect::copied_paths;
use crate::exclusion::Entry;
#[allow(unused_imports)]
use crate::exclusion::{entry_models, EntryModel};
#[allow(unused_imports)]
use crate::paths::parts;
use crate::plan::copied_path;
#[allow(unused_imports)]
use crate::plan::opt_path;
use crate::request::{
    parse_destination, ConflictMode, SourceSelection, TransferMethod, TransferMode,
};
#[allow(unused_imports)]
use crate::request::{
    destination, host_and_path_are_found, only_a_host_and_a_path_are_remote, SourceModel,
};
use crate::shell::bytes_of;
use crate::text::{concat2, concat3, decimal_text, lossy_text, owned, same_text, trim_text};
#[allow(unused_imports)]
use crate::text::{decimal, trimmed, utf8_lossy};

verus! {

// ---------------------------------------------------------------------------
// The source
// ---------------------------------------------------------------------------

/// How a source that was picked is shown in the field for it.
pub open spec fn picked_words(picked: SourceModel) -> Seq<char> {
    match picked {
        SourceModel::Nothing => Seq::empty(),
        SourceModel::Directory(dir) => utf8_lossy(dir),
        SourceModel::Files(files) => if files.len() == 1 {
            utf8_lossy(files[0])
        } else {
            decimal(files.len()) + " files selected"@
        },
        SourceModel::Remote(host, path) => host + ":"@ + path,
    }
}

/// Whether the field still shows what was picked, or nothing.
pub open spec fn is_as_picked(text: Seq<char>, picked: SourceModel) -> bool {
    trimmed(text).len() == 0 || trimmed(text) == trimmed(picked_words(picked))
}

/// The source: the one that was picked, where the field shows it or is empty,
/// and otherwise the one that was typed; `is_file` says whether the local path
/// that was typed is that of a file.
pub open spec fn chosen_source(text: Seq<char>, picked: SourceModel, is_file: bool)
    -> SourceModel {
    if is_as_picked(text, picked) {
        picked
    } else {
        match destination(trimmed(text)) {
            (Some(host), path) => SourceModel::Remote(host, path),
            (None, path) => if is_file {
                SourceModel::Files(seq![encode_utf8(path)])
            } else {
                SourceModel::Directory(encode_utf8(path))
            },
        }
    }
}

/// The local path that was typed, where one was.
pub open spec fn typed_path(text: Seq<char>, picked: SourceModel) -> Option<Seq<u8>> {
    if is_as_picked(text, picked) {
        None
    } else {
        match destination(trimmed(text)) {
            (Some(_), _) => None,
            (None, path) => Some(encode_utf8(path)),
        }
    }
}

/// How a source that was picked is shown in the field for it.
pub fn picked_text(picked: &SourceSelection) -> (r: String)
    ensures
        r@ == picked_words(picked@),
{
    match picked {
        SourceSelection::Nothing => {
            proof {
                reveal_strlit("");
                assert(""@ == Seq::<char>::empty());
            }
            owned("")
        },
        SourceSelection::Directory(dir) => lossy_text(dir),
        SourceSelection::Files(files) => {
            assert(parts(files@).len() == files@.len());
            if files.len() == 1 {
                assert(parts(files@)[0] == files@[0]@);
                lossy_text(&files[0])
            } else {
                concat2(decimal_text(files.len()).as_str(), " files selected")
            }
        },
        SourceSelection::Remote(host, path) => concat3(host.as_str(), ":", path.as_str()),
    }
}

fn shows_the_pick(text: &str, picked: &SourceSelection) -> (b: bool)
    ensures
        b == is_as_picked(text@, picked@),
{
    let typed = trim_text(text);
    if typed.as_str().is_empty() {
        return true;
    }
    let shown = trim_text(picked_text(picked).as_str());
    same_text(typed.as_str(), shown.as_str())
}

fn copied_source(s: &SourceSelection) -> (r: SourceSelection)
    ensures
        r@ == s@,
{
    match s {
        SourceSelection::Nothing => SourceSelection::Nothing,
        SourceSelection::Directory(dir) => SourceSelection::Directory(copied_path(dir)),
        SourceSelection::Files(files) => SourceSelection::Files(copied_paths(files)),
        SourceSelection::Remote(host, path) => SourceSelection::Remote(
            host.clone(),
            path.clone(),
        ),
    }
}

/// The local path that was typed, where one was: whether it is that of a file
/// decides on the source.
pub fn path_to_probe(text: &str, picked: &SourceSelection) -> (r: Option<Vec<u8>>)
    ensures
        opt_path(r) == typed_path(text@, picked@),
{
    if shows_the_pick(text, picked) {
        return None;
    }
    match parse_destination(trim_text(text).as_str()) {
        (Some(_), _) => None,
        (None, path) => Some(bytes_of(path.as_str())),
    }
}

/// The source that was entered or picked.
pub fn choose_source(text: &str, picked: &SourceSelection, is_file: bool) -> (r: SourceSelection)
    ensures
        r@ == chosen_source(text@, picked@, is_file),
{
    if shows_the_pick(text, picked) {
        return copied_source(picked);
    }
    match parse_destination(trim_text(text).as_str()) {
        (Some(host), path) => SourceSelection::Remote(host, path),
        (None, path) => {
            let bytes = bytes_of(path.as_str());
            if is_file {
                let mut files: Vec<Vec<u8>> = Vec::new();
                files.push(bytes);
                assert(parts(files@) == seq![bytes@]);
                SourceSelection::Files(files)
            } else {
                SourceSelection::Directory(bytes)
            }
        },
    }
}

/// What was picked is what is transferred, as long as the field shows it.
pub proof fn the_pick_is_kept(picked: SourceModel, is_file: bool)
    ensures
        chosen_source(picked_words(picked), picked, is_file) == picked,
{
}

/// A field that is empty, or shows what was picked, leaves the source at that,
/// whatever white space is around it, and no path has to be looked at.
pub proof fn an_untouched_field_keeps_the_pick(text: Seq<char>, picked: SourceModel, is_file: bool)
    requires
        trimmed(text).len() == 0 || trimmed(text) == trimmed(picked_words(picked)),
    ensures
        chosen_source(text, picked, is_file) == picked,
        typed_path(text, picked) is None,
{
}

/// What is typed over a pick goes before it: a host and a path make a remote
/// source, any other path the file or the directory that is there, and only
/// for such a path it has to be asked which of the two it is.
pub proof fn what_is_typed_is_the_source(
    text: Seq<char>,
    host: Seq<char>,
    path: Seq<char>,
    picked: SourceModel,
    is_file: bool,
)
    requires
        trimmed(text).len() > 0,
        trimmed(text) != trimmed(picked_words(picked)),
    ensures
        destination(trimmed(text)).0 is None ==> {
            let bytes = encode_utf8(trimmed(text));
            &&& typed_path(text, picked) == Some(bytes)
            &&& chosen_source(text, picked, true) == SourceModel::Files(seq![bytes])
            &&& chosen_source(text, picked, false) == SourceModel::Directory(bytes)
        },
        trimmed(text) == host.push(':') + path && host.len() > 0 && path.len() > 0
            && !host.contains(':') && !host.contains('/') ==> {
            &&& typed_path(text, picked) is None
            &&& chosen_source(text, picked, is_file) == SourceModel::Remote(host, path)
        },
{
    only_a_host_and_a_path_are_remote(trimmed(text));
    if host.len() > 0 && path.len() > 0 && !host.contains(':') && !host.contains('/') {
        host_and_path_are_found(host, path);
    }
}

/// What was picked is shown: the path of a directory or of one file, how many
/// files there are of several, and a host and a path with a colon between them.
pub proof fn picks_are_shown(dir: Seq<u8>, files: Seq<Seq<u8>>, host: Seq<char>, path: Seq<char>)
    ensures
        picked_words(SourceModel::Nothing).len() == 0,
        picked_words(SourceModel::Directory(dir)) == utf8_lossy(dir),
        picked_words(SourceModel::Files(seq![dir])) == utf8_lossy(dir),
        files.len() != 1 ==> picked_words(SourceModel::Files(files)) == decimal(files.len())
            + " files selected"@,
        picked_words(SourceModel::Remote(host, path)) == host + ":"@ + path,
{
}

// ---------------------------------------------------------------------------
// The request
// ---------------------------------------------------------------------------

/// What keeps a transfer from being started.
pub open spec fn obstacle(source: SourceModel, dst: Seq<char>) -> Option<Seq<char>> {
    if source is Nothing {
        Some("Please select a source (folder, files, or remote)."@)
    } else if source is Directory && utf8_lossy(source->Directory_0) == dst {
        Some("Source and destination must be different."@)
    } else if dst.len() == 0 {
        Some("Please select or type a destination directory."@)
    } else {
        None
    }
}

/// A transfer is started exactly when there is a source and a destination, and
/// the destination is not the source directory itself. A missing source is
/// told first.
pub proof fn a_transfer_needs_a_source_and_another_destination(
    source: SourceModel,
    dst: Seq<char>,
)
    ensures
        obstacle(source, dst) is None <==> !(source is Nothing) && dst.len() > 0 && !(
        source is Directory && utf8_lossy(source->Directory_0) == dst),
        source is Nothing <==> obstacle(source, dst) == Some(
            "Please select a source (folder, files, or remote)."@,
        ),
        source is Directory && utf8_lossy(source->Directory_0) == dst ==> obstacle(source, dst)
            == Some("Source and destination must be different."@),
        !(source is Nothing) && dst.len() == 0 && !(source is Directory && utf8_lossy(
            source->Directory_0,
        ) == dst) ==> obstacle(source, dst) == Some(
            "Please select or type a destination directory."@,
        ),
{
    reveal_strlit("Please select a source (folder, files, or remote).");
    reveal_strlit("Source and destination must be different.");
    reveal_strlit("Please select or type a destination directory.");
    assert("Please select a source (folder, files, or remote)."@.len()
        != "Source and destination must be different."@.len());
    assert("Please select a source (folder, files, or remote)."@.len()
        != "Please select or type a destination directory."@.len());
}

/// What keeps a transfer from being started.
pub fn find_obstacle(source: &SourceSelection, dst: &str) -> (r: Option<&'static str>)
    ensures
        (match r {
            Some(s) => Some(s@),
            None => None,
        }) == obstacle(source@, dst@),
{
    match source {
        SourceSelection::Nothing => {
            return Some("Please select a source (folder, files, or remote).");
        },
        SourceSelection::Directory(dir) => {
            if same_text(lossy_text(dir).as_str(), dst) {
                return Some("Source and destination must be different.");
            }
        },
        _ => {},
    }
    if dst.is_empty() {
        Some("Please select or type a destination directory.")
    } else {
        None
    }
}

/// The boxes that can be ticked.
#[derive(Clone, Copy, PartialEq, Eq, Structural, Debug)]
pub struct Ticks {
    pub moving: bool,
    pub overwrite: bool,
    pub rename: bool,
    pub strip_spaces: bool,
    pub folders: bool,
    pub rsync: bool,
}

/// The request that the window makes.
pub open spec fn ticked_request(
    source: SourceModel,
    dst: Seq<char>,
    ticks: Ticks,
    patterns: Seq<EntryModel>,
) -> RequestModel {
    RequestModel {
        source,
        dst,
        do_move: ticks.moving,
        conflict: if ticks.overwrite {
            ConflictMode::Overwrite
        } else if ticks.rename {
            ConflictMode::Rename
        } else {
            ConflictMode::Skip
        },
        strip_spaces: ticks.strip_spaces,
        mode: if ticks.folders {
            TransferMode::FoldersAndFiles
        } else {
            TransferMode::FilesOnly
        },
        method: if ticks.rsync {
            TransferMethod::Rsync
        } else {
            TransferMethod::Standard
        },
        patterns,
    }
}

/// The window moves files exactly when the box for that is ticked, overwrites
/// and renames, strips spaces, keeps folders and uses `rsync` each by its own
/// box, and leaves the source, the destination and the exclusions as they were
/// entered.
pub proof fn every_box_means_what_it_says(
    source: SourceModel,
    dst: Seq<char>,
    ticks: Ticks,
    patterns: Seq<EntryModel>,
)
    ensures
        ({
            let q = ticked_request(source, dst, ticks, patterns);
            &&& q.source == source
            &&& q.dst == dst
            &&& q.do_move == ticks.moving
            &&& q.conflict == ConflictMode::Overwrite <==> ticks.overwrite
            &&& q.conflict == ConflictMode::Rename <==> ticks.rename && !ticks.overwrite
            &&& q.conflict == ConflictMode::Skip <==> !ticks.rename && !ticks.overwrite
            &&& q.strip_spaces == ticks.strip_spaces
            &&& q.mode == TransferMode::FoldersAndFiles <==> ticks.folders
            &&& q.mode == TransferMode::FilesOnly <==> !ticks.folders
            &&& q.method == TransferMethod::Rsync <==> ticks.rsync
            &&& q.method == TransferMethod::Standard <==> !ticks.rsync
            &&& q.patterns == patterns
        }),
{
}

/// The request that the window makes.
pub fn make_request(source: SourceSelection, dst: String, ticks: Ticks, patterns: Vec<Entry>)
    -> (r: Request)
    ensures
        r@ == ticked_request(source@, dst@, ticks, entry_models(patterns@)),
        // Each part of the request comes from its own box or field.
        r.source@ == source@,
        r.dst@ == dst@,
        r.do_move == ticks.moving,
        r.conflict == ConflictMode::Overwrite <==> ticks.overwrite,
        r.conflict == ConflictMode::Rename <==> ticks.rename && !ticks.overwrite,
        r.conflict == ConflictMode::Skip <==> !ticks.rename && !ticks.overwrite,
        r.strip_spaces == ticks.strip_spaces,
        r.mode == TransferMode::FoldersAndFiles <==> ticks.folders,
        r.method == TransferMethod::Rsync <==> ticks.rsync,
        entry_models(r.patterns@) == entry_models(patterns@),
{
    Request {
        source,
        dst,
        do_move: ticks.moving,
        conflict: if ticks.overwrite {
            ConflictMode::Overwrite
        } else if ticks.rename {
            ConflictMode::Rename
        } else {
            ConflictMode::Skip
        },
        strip_spaces: ticks.strip_spaces,
        mode: if ticks.folders {
            TransferMode::FoldersAndFiles
        } else {
            TransferMode::FilesOnly
        },
        method: if ticks.rsync {
            TransferMethod::Rsync
        } else {
            TransferMethod::Standard
        },
        patterns,
    }
}

} // verus!
