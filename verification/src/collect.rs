//! Which files are transferred: those that a walk through the source finds, or
//! that a host lists, without those that are excluded.

use vstd::prelude::*;

use crate::exclusion::{add_once, copied_entries, dir_is_excluded, file_is_excluded, Entry};
#[allow(unused_imports)]
use crate::exclusion::{
    adding_keeps_the_list, entries_exclude_each_for_itself, entry_models, excludes_dir, excludes_file, with_entry,
    EntryModel,
};
use crate::paths::file_name_of;
#[allow(unused_imports)]
use crate::paths::{file_name, parts};
use crate::request::SourceSelection;
#[allow(unused_imports)]
use crate::request::SourceModel;
use crate::text::{
    chars_of, concat2, has_prefix, line_chars, lossy_text, owned, part, same_chars,
    split_chars, text_of, trim_chars, trim_end_chars, trim_text,
};
#[allow(unused_imports)]
use crate::text::{
    lines, pieces, split, split_pieces, starts_with, texts, trim_end, trimmed, utf8_lossy,
};

verus! {

// ---------------------------------------------------------------------------
// On this machine
// ---------------------------------------------------------------------------

/// What a walk has found so far.
#[verifier::ext_equal]
pub struct FoundModel {
    pub files: Seq<Seq<u8>>,
    pub excluded_files: nat,
    pub excluded_dirs: nat,
}

/// What a walk has found: the files, and how many files and directories were
/// left out.
#[derive(Debug)]
pub struct Found {
    pub files: Vec<Vec<u8>>,
    pub excluded_files: usize,
    pub excluded_dirs: usize,
}

impl View for Found {
    type V = FoundModel;

    open spec fn view(&self) -> FoundModel {
        FoundModel {
            files: parts(self.files@),
            excluded_files: self.excluded_files as nat,
            excluded_dirs: self.excluded_dirs as nat,
        }
    }
}

/// Nothing.
pub open spec fn nothing_found() -> FoundModel {
    FoundModel { files: Seq::empty(), excluded_files: 0, excluded_dirs: 0 }
}

/// Whether a walk goes into a directory, or past anything else.
pub open spec fn admits(
    patterns: Seq<EntryModel>,
    is_root: bool,
    is_dir: bool,
    name: Seq<u8>,
) -> bool {
    is_root || !is_dir || !excludes_dir(patterns, utf8_lossy(name))
}

/// What is found once a walk was asked to go into a directory.
pub open spec fn after_entry(m: FoundModel, admitted: bool) -> FoundModel {
    if admitted {
        m
    } else {
        FoundModel { excluded_dirs: m.excluded_dirs + 1, ..m }
    }
}

/// What is found once a walk has come upon a file.
pub open spec fn after_file(
    patterns: Seq<EntryModel>,
    m: FoundModel,
    name: Seq<u8>,
    path: Seq<u8>,
) -> FoundModel {
    if excludes_file(patterns, utf8_lossy(name)) {
        FoundModel { excluded_files: m.excluded_files + 1, ..m }
    } else {
        FoundModel { files: m.files.push(path), ..m }
    }
}

/// A walk through a directory.
#[derive(Debug)]
pub struct Walk {
    patterns: Vec<Entry>,
    found: Found,
}

impl Walk {
    /// The exclusions of the walk.
    pub closed spec fn patterns(&self) -> Seq<EntryModel> {
        entry_models(self.patterns@)
    }

    /// What the walk has found so far.
    pub closed spec fn found(&self) -> FoundModel {
        self.found@
    }

    /// Whether one more can be counted.
    pub open spec fn has_room(&self) -> bool {
        self.found().excluded_files < usize::MAX && self.found().excluded_dirs < usize::MAX
    }

    /// A walk that has found nothing.
    pub fn new(patterns: &[Entry]) -> (w: Walk)
        ensures
            w.patterns() == entry_models(patterns@),
            w.found() == nothing_found(),
            w.found().files.len() == 0,
            w.found().excluded_files == 0,
            w.found().excluded_dirs == 0,
    {
        let w = Walk {
            patterns: copied_entries(patterns),
            found: Found { files: Vec::new(), excluded_files: 0, excluded_dirs: 0 },
        };
        assert(w.found().files == Seq::<Seq<u8>>::empty());
        w
    }

    /// Whether one more can be counted.
    pub fn room(&self) -> (b: bool)
        ensures
            b == self.has_room(),
    {
        self.found.excluded_files < usize::MAX && self.found.excluded_dirs < usize::MAX
    }

    /// Tells whether the walk goes into a directory, or past anything else;
    /// a directory that it does not go into is counted.
    pub fn enter(&mut self, is_root: bool, is_dir: bool, name: &[u8]) -> (go: bool)
        requires
            old(self).has_room(),
        ensures
            go == admits(old(self).patterns(), is_root, is_dir, name@),
            final(self).patterns() == old(self).patterns(),
            final(self).found() == after_entry(old(self).found(), go),
            // Only directories below the root are refused, and only by name.
            !go <==> !is_root && is_dir && excludes_dir(old(self).patterns(), utf8_lossy(name@)),
            final(self).found().files == old(self).found().files,
            final(self).found().excluded_files == old(self).found().excluded_files,
            final(self).found().excluded_dirs == old(self).found().excluded_dirs + (if go {
                0int
            } else {
                1
            }),
    {
        if is_root || !is_dir {
            return true;
        }
        let text = lossy_text(name);
        if dir_is_excluded(&self.patterns, text.as_str()) {
            self.found.excluded_dirs = self.found.excluded_dirs + 1;
            false
        } else {
            true
        }
    }

    /// Takes in what the walk has come upon; only files matter.
    pub fn visit(&mut self, is_file: bool, name: &[u8], path: Vec<u8>)
        requires
            old(self).has_room(),
        ensures
            final(self).patterns() == old(self).patterns(),
            final(self).found() == (if is_file {
                after_file(old(self).patterns(), old(self).found(), name@, path@)
            } else {
                old(self).found()
            }),
            // A file is collected unless its name is excluded, and counted then.
            final(self).found().files == (if is_file && !excludes_file(
                old(self).patterns(),
                utf8_lossy(name@),
            ) {
                old(self).found().files.push(path@)
            } else {
                old(self).found().files
            }),
            final(self).found().excluded_files == old(self).found().excluded_files + (if is_file
                && excludes_file(old(self).patterns(), utf8_lossy(name@)) {
                1int
            } else {
                0
            }),
            final(self).found().excluded_dirs == old(self).found().excluded_dirs,
    {
        if !is_file {
            return;
        }
        let text = lossy_text(name);
        if file_is_excluded(&self.patterns, text.as_str()) {
            self.found.excluded_files = self.found.excluded_files + 1;
        } else {
            let ghost before = self.found.files@;
            self.found.files.push(path);
            assert(parts(self.found.files@) == parts(before).push(path@));
        }
    }

    /// What the walk has found.
    pub fn finish(self) -> (f: Found)
        ensures
            f@ == self.found(),
    {
        self.found
    }
}

/// What a walk finds that comes upon these files, given by name and path.
pub open spec fn found_among(
    patterns: Seq<EntryModel>,
    visits: Seq<(Seq<u8>, Seq<u8>)>,
) -> FoundModel
    decreases visits.len(),
{
    if visits.len() == 0 {
        nothing_found()
    } else {
        after_file(
            patterns,
            found_among(patterns, visits.drop_last()),
            visits.last().0,
            visits.last().1,
        )
    }
}

/// Every file that a walk comes upon is either collected or counted as
/// excluded, and none is both.
pub proof fn every_file_is_collected_or_counted(
    patterns: Seq<EntryModel>,
    visits: Seq<(Seq<u8>, Seq<u8>)>,
)
    ensures
        found_among(patterns, visits).files.len() + found_among(patterns, visits).excluded_files
            == visits.len(),
    decreases visits.len(),
{
    if visits.len() > 0 {
        every_file_is_collected_or_counted(patterns, visits.drop_last());
    }
}

/// A path is collected exactly when it is that of a file that the walk came
/// upon and that is not excluded.
pub proof fn what_is_collected_is_not_excluded(
    patterns: Seq<EntryModel>,
    visits: Seq<(Seq<u8>, Seq<u8>)>,
    path: Seq<u8>,
)
    ensures
        found_among(patterns, visits).files.contains(path) <==> exists|i: int|
            #![trigger visits[i]]
            0 <= i < visits.len() && visits[i].1 == path && !excludes_file(
                patterns,
                utf8_lossy(visits[i].0),
            ),
    decreases visits.len(),
{
    if visits.len() > 0 {
        let before = visits.drop_last();
        let fewer = found_among(patterns, before).files;
        let all = found_among(patterns, visits).files;
        what_is_collected_is_not_excluded(patterns, before, path);
        if all.contains(path) {
            let k = choose|k: int| 0 <= k < all.len() && all[k] == path;
            if k < fewer.len() {
                assert(fewer[k] == path);
                let i = choose|i: int|
                    #![trigger before[i]]
                    0 <= i < before.len() && before[i].1 == path && !excludes_file(
                        patterns,
                        utf8_lossy(before[i].0),
                    );
                assert(visits[i] == before[i]);
            } else {
                assert(visits[visits.len() - 1].1 == path);
            }
        }
        if exists|i: int|
            #![trigger visits[i]]
            0 <= i < visits.len() && visits[i].1 == path && !excludes_file(
                patterns,
                utf8_lossy(visits[i].0),
            ) {
            let i = choose|i: int|
                #![trigger visits[i]]
                0 <= i < visits.len() && visits[i].1 == path && !excludes_file(
                    patterns,
                    utf8_lossy(visits[i].0),
                );
            if i < before.len() {
                assert(before[i] == visits[i]);
                let k = choose|k: int| 0 <= k < fewer.len() && fewer[k] == path;
                assert(all[k] == path);
            } else {
                assert(all[all.len() - 1] == path);
            }
        }
    }
}

// ---------------------------------------------------------------------------
// A whole walk
// ---------------------------------------------------------------------------

/// A place in a directory tree: the names of the directories between the root
/// and it, and its own name and path.
pub struct Spot {
    pub above: Seq<Seq<u8>>,
    pub is_dir: bool,
    pub name: Seq<u8>,
    pub path: Seq<u8>,
}

/// Whether a walk comes to a place: it goes into every directory above it.
pub open spec fn is_reached(patterns: Seq<EntryModel>, spot: Spot) -> bool {
    forall|i: int|
        0 <= i < spot.above.len() ==> admits(patterns, false, true, #[trigger] spot.above[i])
}

/// Whether a walk collects the file at a place.
pub open spec fn is_collected(patterns: Seq<EntryModel>, spot: Spot) -> bool {
    !spot.is_dir && is_reached(patterns, spot) && !excludes_file(patterns, utf8_lossy(spot.name))
}

/// Whether a walk comes to the file at a place and leaves it out.
pub open spec fn is_left_out(patterns: Seq<EntryModel>, spot: Spot) -> bool {
    !spot.is_dir && is_reached(patterns, spot) && excludes_file(patterns, utf8_lossy(spot.name))
}

/// Whether a walk comes to the directory at a place and does not go into it.
pub open spec fn is_refused(patterns: Seq<EntryModel>, spot: Spot) -> bool {
    spot.is_dir && is_reached(patterns, spot) && !admits(patterns, false, true, spot.name)
}

/// What a walk finds in a tree of these places.
pub open spec fn found_in(patterns: Seq<EntryModel>, spots: Seq<Spot>) -> FoundModel
    decreases spots.len(),
{
    if spots.len() == 0 {
        nothing_found()
    } else {
        let m = found_in(patterns, spots.drop_last());
        let spot = spots.last();
        if !is_reached(patterns, spot) {
            m
        } else if spot.is_dir {
            after_entry(m, admits(patterns, false, true, spot.name))
        } else {
            after_file(patterns, m, spot.name, spot.path)
        }
    }
}

/// A walk collects exactly the files that are neither excluded themselves nor
/// anywhere below a directory that is, and counts each file that it leaves out
/// and each directory that it refuses once.
pub proof fn a_walk_leaves_out_what_is_excluded(
    patterns: Seq<EntryModel>,
    spots: Seq<Spot>,
    path: Seq<u8>,
)
    ensures
        found_in(patterns, spots).files.contains(path) <==> exists|i: int|
            0 <= i < spots.len() && (#[trigger] spots[i]).path == path && is_collected(
                patterns,
                spots[i],
            ),
        found_in(patterns, spots).excluded_files == spots.filter(
            |s: Spot| is_left_out(patterns, s),
        ).len(),
        found_in(patterns, spots).excluded_dirs == spots.filter(
            |s: Spot| is_refused(patterns, s),
        ).len(),
    decreases spots.len(),
{
    reveal(Seq::filter);
    if spots.len() > 0 {
        let before = spots.drop_last();
        let fewer = found_in(patterns, before).files;
        let all = found_in(patterns, spots).files;
        let last = spots.last();
        a_walk_leaves_out_what_is_excluded(patterns, before, path);
        assert(all == (if is_collected(patterns, last) {
            fewer.push(last.path)
        } else {
            fewer
        }));
        if all.contains(path) {
            let k = choose|k: int| 0 <= k < all.len() && all[k] == path;
            if k < fewer.len() {
                assert(fewer[k] == path);
                let i = choose|i: int|
                    0 <= i < before.len() && (#[trigger] before[i]).path == path && is_collected(
                        patterns,
                        before[i],
                    );
                assert(spots[i] == before[i]);
            } else {
                assert(spots[spots.len() - 1] == last);
            }
        }
        if exists|i: int|
            0 <= i < spots.len() && (#[trigger] spots[i]).path == path && is_collected(
                patterns,
                spots[i],
            ) {
            let i = choose|i: int|
                0 <= i < spots.len() && (#[trigger] spots[i]).path == path && is_collected(
                    patterns,
                    spots[i],
                );
            if i < before.len() {
                assert(before[i] == spots[i]);
                let k = choose|k: int| 0 <= k < fewer.len() && fewer[k] == path;
                assert(all[k] == path);
            } else {
                assert(all[all.len() - 1] == path);
            }
        }
    }
}

proof fn both_must_collect(p: Seq<EntryModel>, q: Seq<EntryModel>, spot: Spot)
    ensures
        is_collected(p + q, spot) == (is_collected(p, spot) && is_collected(q, spot)),
{
    entries_exclude_each_for_itself(p, q, utf8_lossy(spot.name));
    assert forall|i: int| 0 <= i < spot.above.len() implies #[trigger] admits(
        p + q,
        false,
        true,
        spot.above[i],
    ) == (admits(p, false, true, spot.above[i]) && admits(q, false, true, spot.above[i])) by {
        entries_exclude_each_for_itself(p, q, utf8_lossy(spot.above[i]));
    }
    if is_reached(p + q, spot) {
        assert forall|i: int| 0 <= i < spot.above.len() implies admits(
            p,
            false,
            true,
            #[trigger] spot.above[i],
        ) && admits(q, false, true, spot.above[i]) by {
            assert(admits(p + q, false, true, spot.above[i]));
        }
    }
    if is_reached(p, spot) && is_reached(q, spot) {
        assert forall|i: int| 0 <= i < spot.above.len() implies admits(
            p + q,
            false,
            true,
            #[trigger] spot.above[i],
        ) by {}
    }
}

/// With two lists of exclusions together, a walk collects exactly what it
/// collects with each of them: so adding one never adds a file. The paths in a
/// tree are all different.
pub proof fn more_exclusions_leave_the_intersection(
    p: Seq<EntryModel>,
    q: Seq<EntryModel>,
    spots: Seq<Spot>,
    path: Seq<u8>,
)
    requires
        forall|i: int, j: int|
            0 <= i < spots.len() && 0 <= j < spots.len() && (#[trigger] spots[i]).path == (
            #[trigger] spots[j]).path ==> i == j,
    ensures
        found_in(p + q, spots).files.contains(path) <==> found_in(p, spots).files.contains(path)
            && found_in(q, spots).files.contains(path),
{
    a_walk_leaves_out_what_is_excluded(p, spots, path);
    a_walk_leaves_out_what_is_excluded(q, spots, path);
    a_walk_leaves_out_what_is_excluded(p + q, spots, path);
    assert forall|i: int| 0 <= i < spots.len() implies is_collected(p + q, #[trigger] spots[i])
        == (is_collected(p, spots[i]) && is_collected(q, spots[i])) by {
        both_must_collect(p, q, spots[i]);
    }
}

// ---------------------------------------------------------------------------
// The files of a source
// ---------------------------------------------------------------------------

/// What is found among files that were picked one by one: those whose names
/// are not excluded.
pub open spec fn picked(patterns: Seq<EntryModel>, files: Seq<Seq<u8>>) -> FoundModel
    decreases files.len(),
{
    if files.len() == 0 {
        nothing_found()
    } else {
        let m = picked(patterns, files.drop_last());
        match file_name(files.last()) {
            Some(name) => after_file(patterns, m, name, files.last()),
            None => FoundModel { files: m.files.push(files.last()), ..m },
        }
    }
}

/// Every picked file is taken or counted as excluded, and none is taken whose
/// name is excluded.
pub proof fn excluded_names_are_skipped_among_picked_files(
    patterns: Seq<EntryModel>,
    files: Seq<Seq<u8>>,
    k: int,
)
    ensures
        picked(patterns, files).files.len() + picked(patterns, files).excluded_files
            == files.len(),
        0 <= k < picked(patterns, files).files.len() ==> match file_name(
            picked(patterns, files).files[k],
        ) {
            Some(name) => !excludes_file(patterns, utf8_lossy(name)),
            None => true,
        },
    decreases files.len(),
{
    if files.len() > 0 {
        excluded_names_are_skipped_among_picked_files(patterns, files.drop_last(), k);
    }
}

/// Whether a picked file is to be transferred: its name is not excluded, or it
/// has none.
pub open spec fn picks_to_take(patterns: Seq<EntryModel>) -> spec_fn(Seq<u8>) -> bool {
    |file: Seq<u8>|
        file_name(file) is Some ==> !excludes_file(patterns, utf8_lossy(file_name(file)->0))
}

/// Of the files that were picked, exactly those are taken whose names are not
/// excluded, in the order in which they were picked; no directory is counted.
pub proof fn every_picked_file_is_taken_unless_excluded(
    patterns: Seq<EntryModel>,
    files: Seq<Seq<u8>>,
)
    ensures
        picked(patterns, files).files == files.filter(picks_to_take(patterns)),
        picked(patterns, files).excluded_dirs == 0,
        patterns.len() == 0 ==> picked(patterns, files).files == files,
    decreases files.len(),
{
    reveal(Seq::filter);
    if files.len() > 0 {
        every_picked_file_is_taken_unless_excluded(patterns, files.drop_last());
        assert(files == files.drop_last().push(files.last()));
    }
}

/// A directory is transferred as the walk through it has found it, and what was
/// picked by hand never depends on a walk; there is nothing to collect without a
/// source on this machine.
pub proof fn files_come_from_the_source(
    source: SourceModel,
    patterns: Seq<EntryModel>,
    walked: FoundModel,
)
    ensures
        source is Directory ==> local_files(source, patterns, walked) == Ok::<_, Seq<char>>(walked),
        source is Files && patterns.len() == 0 ==> {
            &&& local_files(source, patterns, walked) is Ok
            &&& local_files(source, patterns, walked)->Ok_0.files == source->Files_0
        },
        local_files(source, patterns, walked) is Err <==> source is Nothing || source is Remote,
{
    if source is Files {
        every_picked_file_is_taken_unless_excluded(patterns, source->Files_0);
    }
}

/// The files of a source on this machine, without those that are excluded,
/// where `walked` is what a walk through the directory found, if the source is
/// one.
pub open spec fn local_files(
    source: SourceModel,
    patterns: Seq<EntryModel>,
    walked: FoundModel,
) -> Result<FoundModel, Seq<char>> {
    match source {
        SourceModel::Nothing => Err("No source selected."@),
        SourceModel::Remote(_, _) => Err("Remote source uses its own file listing."@),
        SourceModel::Files(files) => Ok(picked(patterns, files)),
        SourceModel::Directory(_) => Ok(walked),
    }
}

/// A copy of a list of paths.
pub fn copied_paths(v: &[Vec<u8>]) -> (r: Vec<Vec<u8>>)
    ensures
        parts(r@) == parts(v@),
{
    let mut r: Vec<Vec<u8>> = Vec::new();
    let mut i: usize = 0;
    while i < v.len()
        invariant
            i <= v@.len(),
            parts(r@) == parts(v@).take(i as int),
        decreases v@.len() - i,
    {
        let ghost before = r@;
        let path = part(&v[i], 0, v[i].len());
        assert(path@ == v@[i as int]@);
        r.push(path);
        assert(parts(r@) == parts(before).push(path@));
        assert(parts(v@).take(i + 1) == parts(v@).take(i as int).push(parts(v@)[i as int]));
        i += 1;
    }
    assert(parts(v@).take(i as int) == parts(v@));
    r
}

fn pick_files(patterns: &[Entry], files: &[Vec<u8>]) -> (r: Found)
    ensures
        r@ == picked(entry_models(patterns@), parts(files@)),
{
    let ghost all = parts(files@);
    let ghost p = entry_models(patterns@);
    let mut r = Found { files: Vec::new(), excluded_files: 0, excluded_dirs: 0 };
    assert(r@ == picked(p, all.take(0)));
    let mut i: usize = 0;
    while i < files.len()
        invariant
            i <= files@.len(),
            all == parts(files@),
            p == entry_models(patterns@),
            r.excluded_files <= i,
            r@ == picked(p, all.take(i as int)),
        decreases files@.len() - i,
    {
        assert(all.take(i + 1).drop_last() == all.take(i as int));
        assert(all.take(i + 1).last() == files@[i as int]@);
        let out = match file_name_of(&files[i]) {
            Some(name) => file_is_excluded(patterns, lossy_text(&name).as_str()),
            None => false,
        };
        if out {
            r.excluded_files = r.excluded_files + 1;
        } else {
            let ghost before = r.files@;
            let path = part(&files[i], 0, files[i].len());
            assert(path@ == files@[i as int]@);
            r.files.push(path);
            assert(parts(r.files@) == parts(before).push(path@));
        }
        assert(r@ == picked(p, all.take(i + 1)));
        i += 1;
    }
    assert(all.take(i as int) == all);
    r
}

/// The files of a source on this machine, without those that are excluded,
/// where `walked` is what a walk through the directory found, if the source is
/// one.
pub fn collect_files(source: &SourceSelection, patterns: &[Entry], walked: Found) -> (r: Result<
    Found,
    String,
>)
    ensures
        (match r {
            Ok(f) => Ok(f@),
            Err(e) => Err(e@),
        }) == local_files(source@, entry_models(patterns@), walked@),
{
    match source {
        SourceSelection::Nothing => Err(owned("No source selected.")),
        SourceSelection::Remote(_, _) => Err(owned("Remote source uses its own file listing.")),
        SourceSelection::Files(files) => Ok(pick_files(patterns, files)),
        SourceSelection::Directory(_) => Ok(walked),
    }
}

// ---------------------------------------------------------------------------
// On a host
// ---------------------------------------------------------------------------

/// What a host has listed.
#[verifier::ext_equal]
pub struct ListedModel {
    pub files: Seq<Seq<char>>,
    pub excluded_files: nat,
    pub excluded_dirs: Seq<Seq<char>>,
}

/// What a host has listed: the files, how many files were left out, and the
/// names of the directories that were.
#[derive(Debug)]
pub struct Listed {
    pub files: Vec<String>,
    pub excluded_files: usize,
    pub excluded_dirs: Vec<String>,
}

impl View for Listed {
    type V = ListedModel;

    open spec fn view(&self) -> ListedModel {
        ListedModel {
            files: texts(self.files@),
            excluded_files: self.excluded_files as nat,
            excluded_dirs: texts(self.excluded_dirs@),
        }
    }
}

/// A path on a host with one slash behind it.
pub open spec fn with_slash(base: Seq<char>) -> Seq<char> {
    trim_end(base, '/').push('/')
}

/// What a listed path is called below the base: the rest of it, or the name of
/// the file if the base is the file itself.
pub open spec fn below_base(base: Seq<char>, line: Seq<char>) -> Option<Seq<char>> {
    if starts_with(line, with_slash(base)) {
        Some(line.skip(with_slash(base).len() as int))
    } else if line == base {
        file_name(line)
    } else {
        None
    }
}

/// The first of these names that is an excluded directory.
pub open spec fn first_excluded(patterns: Seq<EntryModel>, names: Seq<Seq<char>>) -> Option<
    Seq<char>,
>
    decreases names.len(),
{
    if names.len() == 0 {
        None
    } else {
        match first_excluded(patterns, names.drop_last()) {
            Some(name) => Some(name),
            None => if excludes_dir(patterns, names.last()) {
                Some(names.last())
            } else {
                None
            },
        }
    }
}

/// What is listed once a file was found under this name below the base.
pub open spec fn after_rel(
    patterns: Seq<EntryModel>,
    m: ListedModel,
    line: Seq<char>,
    rel: Seq<char>,
) -> ListedModel {
    let names = split(rel, '/');
    match first_excluded(patterns, names.drop_last()) {
        Some(name) => ListedModel { excluded_dirs: with_entry(m.excluded_dirs, name), ..m },
        None => if excludes_file(patterns, names.last()) {
            ListedModel { excluded_files: m.excluded_files + 1, ..m }
        } else {
            ListedModel { files: m.files.push(line), ..m }
        },
    }
}

/// What is listed once a line was read.
pub open spec fn after_line(
    base: Seq<char>,
    patterns: Seq<EntryModel>,
    m: ListedModel,
    raw: Seq<char>,
) -> ListedModel {
    let line = trimmed(raw);
    if line.len() == 0 {
        m
    } else {
        match below_base(base, line) {
            None => m,
            Some(rel) => after_rel(patterns, m, line, rel),
        }
    }
}

/// What is listed on these lines.
pub open spec fn listed_on(
    base: Seq<char>,
    patterns: Seq<EntryModel>,
    all: Seq<Seq<char>>,
) -> ListedModel
    decreases all.len(),
{
    if all.len() == 0 {
        ListedModel { files: Seq::empty(), excluded_files: 0, excluded_dirs: Seq::empty() }
    } else {
        after_line(base, patterns, listed_on(base, patterns, all.drop_last()), all.last())
    }
}

fn excluded_dir_among(patterns: &[Entry], names: &[Vec<char>], n: usize) -> (r: Option<String>)
    requires
        n <= names@.len(),
    ensures
        (match r {
            Some(name) => Some(name@),
            None => None,
        }) == first_excluded(entry_models(patterns@), pieces(names@).take(n as int)),
{
    let mut i: usize = 0;
    while i < n
        invariant
            i <= n,
            n <= names@.len(),
            first_excluded(entry_models(patterns@), pieces(names@).take(i as int)) is None,
        decreases n - i,
    {
        let name = text_of(&names[i]);
        assert(pieces(names@).take(i + 1).drop_last() == pieces(names@).take(i as int));
        if dir_is_excluded(patterns, name.as_str()) {
            proof {
                first_stays(entry_models(patterns@), pieces(names@).take(n as int), i + 1);
                assert(pieces(names@).take(n as int).take(i + 1) == pieces(names@).take(i + 1));
            }
            return Some(name);
        }
        i += 1;
    }
    None
}

/// A directory that is found to be excluded stays the first one.
proof fn first_stays(patterns: Seq<EntryModel>, names: Seq<Seq<char>>, n: int)
    requires
        0 <= n <= names.len(),
        first_excluded(patterns, names.take(n)) is Some,
    ensures
        first_excluded(patterns, names) == first_excluded(patterns, names.take(n)),
    decreases names.len() - n,
{
    if n < names.len() {
        assert(names.take(n + 1).drop_last() == names.take(n));
        first_stays(patterns, names, n + 1);
    } else {
        assert(names.take(n) == names);
    }
}

/// A path on a host with one slash behind it.
pub fn base_with_slash(base: &str) -> (r: Vec<char>)
    ensures
        r@ == with_slash(base@),
{
    let s = chars_of(base);
    let mut r = trim_end_chars(&s, '/');
    r.push('/');
    r
}

/// What a listed path is called below the base.
pub fn name_below_base(base: &str, line: &str) -> (r: Option<String>)
    ensures
        (match r {
            Some(rel) => Some(rel@),
            None => None,
        }) == below_base(base@, line@),
{
    let s = chars_of(line);
    let front = base_with_slash(base);
    if has_prefix(&s, &front) {
        let rest = part(&s, front.len(), s.len());
        assert(rest@ == s@.skip(front@.len() as int));
        Some(text_of(&rest))
    } else {
        let b = chars_of(base);
        if same_chars(&s, &b) {
            match file_name_of(&s) {
                Some(name) => Some(text_of(&name)),
                None => None,
            }
        } else {
            None
        }
    }
}

fn take_line(base: &str, patterns: &[Entry], m: &mut Listed, raw: &[char])
    requires
        old(m).excluded_files < usize::MAX,
    ensures
        final(m)@ == after_line(base@, entry_models(patterns@), old(m)@, raw@),
        final(m).excluded_files <= old(m).excluded_files + 1,
{
    let line_units = trim_chars(raw);
    if line_units.len() == 0 {
        return;
    }
    let line = text_of(&line_units);
    let rel = match name_below_base(base, line.as_str()) {
        Some(rel) => rel,
        None => {
            return;
        },
    };
    let rel_units = chars_of(rel.as_str());
    let names = split_chars(&rel_units, '/');
    let ghost all = split(rel@, '/');
    proof {
        split_pieces(rel@, '/');
        assert(pieces(names@).len() == names@.len());
    }
    let last = names.len() - 1;
    assert(pieces(names@).take(last as int) == all.drop_last());
    assert(all.last() == names@[last as int]@);
    let ghost before = m@;
    match excluded_dir_among(patterns, &names, last) {
        Some(name) => {
            add_once(&mut m.excluded_dirs, name);
            assert(m@ == after_line(base@, entry_models(patterns@), before, raw@));
        },
        None => {
            let name = text_of(&names[last]);
            if file_is_excluded(patterns, name.as_str()) {
                m.excluded_files = m.excluded_files + 1;
                assert(m@ == after_line(base@, entry_models(patterns@), before, raw@));
            } else {
                let ghost files = m.files@;
                m.files.push(line);
                assert(texts(m.files@) == texts(files).push(line@));
                assert(m@ == after_line(base@, entry_models(patterns@), before, raw@));
            }
        },
    }
}

/// What a host has listed, from what it printed.
pub fn read_listing(base: &str, patterns: &[Entry], printed: &str) -> (r: Listed)
    ensures
        r@ == listed_on(base@, entry_models(patterns@), lines(printed@)),
{
    let s = chars_of(printed);
    let all = line_chars(&s);
    let mut r = Listed { files: Vec::new(), excluded_files: 0, excluded_dirs: Vec::new() };
    assert(r@ == listed_on(base@, entry_models(patterns@), pieces(all@).take(0)));
    let mut i: usize = 0;
    while i < all.len()
        invariant
            i <= all@.len(),
            r.excluded_files <= i,
            r@ == listed_on(base@, entry_models(patterns@), pieces(all@).take(i as int)),
        decreases all@.len() - i,
    {
        assert(pieces(all@).take(i + 1).drop_last() == pieces(all@).take(i as int));
        take_line(base, patterns, &mut r, &all[i]);
        i += 1;
    }
    assert(pieces(all@).take(i as int) == pieces(all@));
    r
}

/// What a host has listed, from how the command ended.
pub open spec fn remote_files(
    base: Seq<char>,
    patterns: Seq<EntryModel>,
    success: bool,
    stdout: Seq<u8>,
    stderr: Seq<u8>,
) -> Result<ListedModel, Seq<char>> {
    if success {
        Ok(listed_on(base, patterns, lines(utf8_lossy(stdout))))
    } else {
        Err("Failed to list remote files: "@ + trimmed(utf8_lossy(stderr)))
    }
}

/// What a host has listed, from how the command ended.
pub fn collect_remote_files(
    base: &str,
    patterns: &[Entry],
    success: bool,
    stdout: &[u8],
    stderr: &[u8],
) -> (r: Result<Listed, String>)
    ensures
        (match r {
            Ok(l) => Ok(l@),
            Err(e) => Err(e@),
        }) == remote_files(base@, entry_models(patterns@), success, stdout@, stderr@),
{
    if success {
        Ok(read_listing(base, patterns, lossy_text(stdout).as_str()))
    } else {
        let shown = trim_text(lossy_text(stderr).as_str());
        Err(concat2("Failed to list remote files: ", shown.as_str()))
    }
}

/// A directory is left out with all that is below it: no path is collected
/// that has an excluded directory anywhere between the base and the file.
pub proof fn excluded_directories_are_left_out_whole(
    base: Seq<char>,
    patterns: Seq<EntryModel>,
    all: Seq<Seq<char>>,
    k: int,
)
    requires
        0 <= k < listed_on(base, patterns, all).files.len(),
    ensures
        ({
            let line = listed_on(base, patterns, all).files[k];
            &&& below_base(base, line) is Some
            &&& {
                let names = split(below_base(base, line)->0, '/');
                &&& forall|i: int|
                    0 <= i < names.len() - 1 ==> !excludes_dir(patterns, #[trigger] names[i])
                &&& !excludes_file(patterns, names.last())
            }
        }),
    decreases all.len(),
{
    let before = listed_on(base, patterns, all.drop_last());
    if k < before.files.len() {
        excluded_directories_are_left_out_whole(base, patterns, all.drop_last(), k);
    } else {
        let line = trimmed(all.last());
        let rel = below_base(base, line)->0;
        let names = split(rel, '/');
        split_pieces(rel, '/');
        none_is_excluded(patterns, names.drop_last());
        assert forall|i: int| 0 <= i < names.len() - 1 implies !excludes_dir(
            patterns,
            #[trigger] names[i],
        ) by {
            assert(names.drop_last()[i] == names[i]);
        }
    }
}

proof fn none_is_excluded(patterns: Seq<EntryModel>, names: Seq<Seq<char>>)
    requires
        first_excluded(patterns, names) is None,
    ensures
        forall|i: int| 0 <= i < names.len() ==> !excludes_dir(patterns, #[trigger] names[i]),
    decreases names.len(),
{
    if names.len() > 0 {
        none_is_excluded(patterns, names.drop_last());
        assert forall|i: int| 0 <= i < names.len() implies !excludes_dir(
            patterns,
            #[trigger] names[i],
        ) by {
            if i < names.len() - 1 {
                assert(names.drop_last()[i] == names[i]);
            }
        }
    }
}

proof fn the_first_is_excluded(patterns: Seq<EntryModel>, names: Seq<Seq<char>>) -> (k: int)
    requires
        first_excluded(patterns, names) is Some,
    ensures
        0 <= k < names.len(),
        first_excluded(patterns, names) == Some(names[k]),
        excludes_dir(patterns, names[k]),
        forall|i: int| 0 <= i < k ==> !excludes_dir(patterns, #[trigger] names[i]),
    decreases names.len(),
{
    let front = names.drop_last();
    if first_excluded(patterns, front) is Some {
        let k = the_first_is_excluded(patterns, front);
        assert forall|i: int| 0 <= i < k implies !excludes_dir(patterns, #[trigger] names[i]) by {
            assert(front[i] == names[i]);
        }
        k
    } else {
        none_is_excluded(patterns, front);
        assert forall|i: int| 0 <= i < front.len() implies !excludes_dir(
            patterns,
            #[trigger] names[i],
        ) by {
            assert(front[i] == names[i]);
        }
        names.len() - 1
    }
}

/// Whether a line is the path of a file below the base, or of the base itself.
pub open spec fn is_below(base: Seq<char>, line: Seq<char>) -> bool {
    line.len() > 0 && below_base(base, line) is Some
}

/// Whether no directory between the base and the file on a line is excluded.
pub open spec fn way_is_open(base: Seq<char>, patterns: Seq<EntryModel>, line: Seq<char>) -> bool {
    forall|i: int|
        0 <= i < split(below_base(base, line)->0, '/').len() - 1 ==> !excludes_dir(
            patterns,
            #[trigger] split(below_base(base, line)->0, '/')[i],
        )
}

/// Whether the name of the file on a line is excluded.
pub open spec fn name_is_excluded(
    base: Seq<char>,
    patterns: Seq<EntryModel>,
    line: Seq<char>,
) -> bool {
    excludes_file(patterns, split(below_base(base, line)->0, '/').last())
}

/// The lines of a listing whose files are to be transferred.
pub open spec fn lines_to_take(base: Seq<char>, patterns: Seq<EntryModel>) -> spec_fn(
    Seq<char>,
) -> bool {
    |line: Seq<char>|
        is_below(base, line) && way_is_open(base, patterns, line) && !name_is_excluded(
            base,
            patterns,
            line,
        )
}

/// The lines of a listing whose files are left out by their names.
pub open spec fn lines_to_count(base: Seq<char>, patterns: Seq<EntryModel>) -> spec_fn(
    Seq<char>,
) -> bool {
    |line: Seq<char>|
        is_below(base, line) && way_is_open(base, patterns, line) && name_is_excluded(
            base,
            patterns,
            line,
        )
}

/// The lines of a listing whose files lie in an excluded directory.
pub open spec fn lines_cut_off(base: Seq<char>, patterns: Seq<EntryModel>) -> spec_fn(
    Seq<char>,
) -> bool {
    |line: Seq<char>| is_below(base, line) && !way_is_open(base, patterns, line)
}

/// The lines of a listing, without the white space around them.
pub open spec fn trimmed_lines(all: Seq<Seq<char>>) -> Seq<Seq<char>> {
    all.map_values(|raw: Seq<char>| trimmed(raw))
}

/// A listing is complete: it holds, in their order, the files of exactly those
/// lines that lie below the base, in no excluded directory and under a name
/// that is not excluded. It counts exactly those that only their names leave
/// out.
pub proof fn a_listing_holds_every_file_that_is_not_excluded(
    base: Seq<char>,
    patterns: Seq<EntryModel>,
    all: Seq<Seq<char>>,
)
    ensures
        listed_on(base, patterns, all).files == trimmed_lines(all).filter(
            lines_to_take(base, patterns),
        ),
        listed_on(base, patterns, all).excluded_files == trimmed_lines(all).filter(
            lines_to_count(base, patterns),
        ).len(),
    decreases all.len(),
{
    reveal(Seq::filter);
    let lines = trimmed_lines(all);
    if all.len() > 0 {
        a_listing_holds_every_file_that_is_not_excluded(base, patterns, all.drop_last());
        assert(trimmed_lines(all.drop_last()) == lines.drop_last());
        let line = trimmed(all.last());
        assert(lines.last() == line);
        if is_below(base, line) {
            the_way_is_open_or_cut(base, patterns, line);
        }
    }
}

proof fn the_way_is_open_or_cut(base: Seq<char>, patterns: Seq<EntryModel>, line: Seq<char>)
    requires
        is_below(base, line),
    ensures
        way_is_open(base, patterns, line) <==> first_excluded(
            patterns,
            split(below_base(base, line)->0, '/').drop_last(),
        ) is None,
{
    let names = split(below_base(base, line)->0, '/');
    split_pieces(below_base(base, line)->0, '/');
    let front = names.drop_last();
    if first_excluded(patterns, front) is None {
        none_is_excluded(patterns, front);
        assert forall|i: int| 0 <= i < names.len() - 1 implies !excludes_dir(
            patterns,
            #[trigger] names[i],
        ) by {
            assert(front[i] == names[i]);
        }
    } else {
        let k = the_first_is_excluded(patterns, front);
        assert(front[k] == names[k]);
    }
}

/// Every line below the base is accounted for: its file is in the listing, or
/// is counted as excluded, or lies in an excluded directory. Without exclusions
/// every one is in the listing.
pub proof fn no_line_below_the_base_is_lost(
    base: Seq<char>,
    patterns: Seq<EntryModel>,
    all: Seq<Seq<char>>,
)
    ensures
        listed_on(base, patterns, all).files.len() + listed_on(base, patterns, all).excluded_files
            + trimmed_lines(all).filter(lines_cut_off(base, patterns)).len() == trimmed_lines(
            all,
        ).filter(|line: Seq<char>| is_below(base, line)).len(),
        patterns.len() == 0 ==> listed_on(base, patterns, all).files == trimmed_lines(all).filter(
            |line: Seq<char>| is_below(base, line),
        ),
    decreases all.len(),
{
    reveal(Seq::filter);
    let lines = trimmed_lines(all);
    if all.len() > 0 {
        no_line_below_the_base_is_lost(base, patterns, all.drop_last());
        assert(trimmed_lines(all.drop_last()) == lines.drop_last());
        let line = trimmed(all.last());
        assert(lines.last() == line);
        if is_below(base, line) {
            the_way_is_open_or_cut(base, patterns, line);
        }
    }
}

/// A single line of a listing that lies below the base puts its file into the
/// listing unless it is excluded, wherever the line stands; the name of the
/// first excluded directory on its way is noted instead.
pub proof fn every_line_is_read(
    base: Seq<char>,
    patterns: Seq<EntryModel>,
    all: Seq<Seq<char>>,
    i: int,
)
    requires
        0 <= i < all.len(),
        is_below(base, trimmed(all[i])),
    ensures
        way_is_open(base, patterns, trimmed(all[i])) && !name_is_excluded(
            base,
            patterns,
            trimmed(all[i]),
        ) ==> listed_on(base, patterns, all).files.contains(trimmed(all[i])),
        way_is_open(base, patterns, trimmed(all[i])) && name_is_excluded(
            base,
            patterns,
            trimmed(all[i]),
        ) ==> listed_on(base, patterns, all).excluded_files > 0,
        ({
            let names = split(below_base(base, trimmed(all[i]))->0, '/');
            forall|k: int|
                0 <= k < names.len() - 1 && excludes_dir(patterns, #[trigger] names[k]) && (forall|
                    j: int,
                |
                    0 <= j < k ==> !excludes_dir(patterns, #[trigger] names[j]))
                    ==> listed_on(base, patterns, all).excluded_dirs.contains(names[k])
        }),
    decreases all.len(),
{
    let line = trimmed(all[i]);
    let names = split(below_base(base, line)->0, '/');
    split_pieces(below_base(base, line)->0, '/');
    let before = listed_on(base, patterns, all.drop_last());
    let after = listed_on(base, patterns, all);
    if i < all.len() - 1 {
        assert(all.drop_last()[i] == all[i]);
        every_line_is_read(base, patterns, all.drop_last(), i);
        listings_grow(base, patterns, all);
    } else {
        the_way_is_open_or_cut(base, patterns, line);
        if first_excluded(patterns, names.drop_last()) is Some {
            let first = the_first_is_excluded(patterns, names.drop_last());
            assert(names.drop_last()[first] == names[first]);
            adding_keeps_the_list(before.excluded_dirs, names[first]);
            assert forall|k: int|
                0 <= k < names.len() - 1 && excludes_dir(patterns, #[trigger] names[k]) && (forall|
                    j: int,
                |
                    0 <= j < k ==> !excludes_dir(patterns, #[trigger] names[j])) implies after
                .excluded_dirs.contains(names[k]) by {
                if k < first {
                    assert(names.drop_last()[k] == names[k]);
                }
                assert(k == first);
            }
        } else {
            assert(way_is_open(base, patterns, line));
            if !name_is_excluded(base, patterns, line) {
                assert(after.files == before.files.push(line));
                assert(after.files.last() == line);
            }
        }
    }
}

/// A listing only grows with the lines.
proof fn listings_grow(base: Seq<char>, patterns: Seq<EntryModel>, all: Seq<Seq<char>>)
    requires
        all.len() > 0,
    ensures
        ({
            let before = listed_on(base, patterns, all.drop_last());
            let after = listed_on(base, patterns, all);
            &&& forall|f: Seq<char>| #[trigger]
                before.files.contains(f) ==> after.files.contains(f)
            &&& forall|d: Seq<char>| #[trigger]
                before.excluded_dirs.contains(d) ==> after.excluded_dirs.contains(d)
            &&& before.excluded_files <= after.excluded_files
        }),
{
    let before = listed_on(base, patterns, all.drop_last());
    let after = listed_on(base, patterns, all);
    assert forall|f: Seq<char>| #[trigger] before.files.contains(f) implies after.files.contains(
        f,
    ) by {
        let k = choose|k: int| 0 <= k < before.files.len() && before.files[k] == f;
        assert(after.files[k] == f);
    }
    assert forall|d: Seq<char>| #[trigger] before.excluded_dirs.contains(d) implies after
        .excluded_dirs.contains(d) by {
        let k = choose|k: int| 0 <= k < before.excluded_dirs.len() && before.excluded_dirs[k] == d;
        assert(after.excluded_dirs[k] == d);
    }
}

/// Nothing else is noted as an excluded directory: each name that is noted is
/// excluded, and lies on the way to the file of some line.
pub proof fn only_excluded_directories_are_noted(
    base: Seq<char>,
    patterns: Seq<EntryModel>,
    all: Seq<Seq<char>>,
    name: Seq<char>,
)
    requires
        listed_on(base, patterns, all).excluded_dirs.contains(name),
    ensures
        excludes_dir(patterns, name),
        exists|i: int|
            0 <= i < all.len() && is_below(base, #[trigger] trimmed(all[i])) && split(
                below_base(base, trimmed(all[i]))->0,
                '/',
            ).drop_last().contains(name),
    decreases all.len(),
{
    let before = listed_on(base, patterns, all.drop_last());
    if before.excluded_dirs.contains(name) {
        only_excluded_directories_are_noted(base, patterns, all.drop_last(), name);
        let i = choose|i: int|
            0 <= i < all.drop_last().len() && is_below(
                base,
                #[trigger] trimmed(all.drop_last()[i]),
            ) && split(below_base(base, trimmed(all.drop_last()[i]))->0, '/').drop_last().contains(
                name,
            );
        assert(all[i] == all.drop_last()[i]);
        assert(is_below(base, trimmed(all[i])));
    } else {
        let line = trimmed(all.last());
        let names = split(below_base(base, line)->0, '/');
        let k = the_first_is_excluded(patterns, names.drop_last());
        let k2 = choose|j: int|
            0 <= j < listed_on(base, patterns, all).excluded_dirs.len() && listed_on(
                base,
                patterns,
                all,
            ).excluded_dirs[j] == name;
        assert(k2 >= before.excluded_dirs.len() || before.excluded_dirs[k2] == name);
        assert(name == names.drop_last()[k]);
        assert(trimmed(all[all.len() - 1]) == line);
    }
}

/// A path on a host lies below the base exactly when it goes on behind the base
/// and a slash, whether or not the base is written with slashes at its end; its
/// name below the base is all that follows, and the base itself goes by its
/// last name.
pub proof fn paths_are_named_below_the_base(base: Seq<char>, line: Seq<char>, rel: Seq<char>)
    ensures
        line == trim_end(base, '/') + seq!['/'] + rel ==> below_base(base, line) == Some(rel),
        below_base(base, line) == Some(rel) ==> line == trim_end(base, '/') + seq!['/'] + rel || (
        line == base && file_name(line) == Some(rel)),
        line == base && (base.len() == 0 || base.last() != '/') ==> below_base(base, line)
            == file_name(base),
{
    let front = trim_end(base, '/');
    assert(front.push('/') == front + seq!['/']);
    if line == front + seq!['/'] + rel {
        assert(line.take((front.len() + 1) as int) == front.push('/'));
        assert(line.skip((front.len() + 1) as int) == rel);
    }
    if starts_with(line, with_slash(base)) {
        assert(line == with_slash(base) + line.skip(with_slash(base).len() as int));
    }
    if line == base && (base.len() == 0 || base.last() != '/') {
        assert(front == base);
    }
}

/// The directories that a listing counts are counted once each.
pub proof fn excluded_directories_are_counted_once(
    base: Seq<char>,
    patterns: Seq<EntryModel>,
    all: Seq<Seq<char>>,
)
    ensures
        listed_on(base, patterns, all).excluded_dirs.no_duplicates(),
    decreases all.len(),
{
    if all.len() > 0 {
        excluded_directories_are_counted_once(base, patterns, all.drop_last());
    }
}

} // verus!
