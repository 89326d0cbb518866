//! Exclusions: which directories and files are left out, how the list of them
//! grows, and how it is shown.
//!
//! As a text, `/name` leaves out the directories called `name`, and `name` the
//! files called `name`; `~/pattern` and `~pattern` leave out the directories
//! and the files whose names fit the pattern.

use vstd::prelude::*;

use crate::text::{
    chars_of, concat2, concat3, join_strings, lists, owned, part, same_text, text_of,
    trim_start_chars, trim_text,
};
#[allow(unused_imports)]
use crate::text::{join, joining_two_lists, texts, trim_start, trimmed};
use crate::wildcard::wildcard_matches;
#[allow(unused_imports)]
use crate::wildcard::matches_name;

verus! {

// ---------------------------------------------------------------------------
// Entries
// ---------------------------------------------------------------------------

/// What an entry of the exclusion list leaves out.
#[derive(Clone, Copy, PartialEq, Eq, Structural, Debug)]
pub enum EntryKind {
    /// The directories of this name.
    Directory,
    /// The files of this name.
    File,
    /// The directories whose names fit the pattern.
    DirectoryPattern,
    /// The files whose names fit the pattern.
    FilePattern,
}

/// An entry of the exclusion list: a name or a pattern, and what it leaves out.
#[derive(Debug)]
pub struct Entry {
    pub kind: EntryKind,
    pub text: String,
}

/// The value of an `Entry`.
pub struct EntryModel {
    pub kind: EntryKind,
    pub text: Seq<char>,
}

impl View for Entry {
    type V = EntryModel;

    open spec fn view(&self) -> EntryModel {
        EntryModel { kind: self.kind, text: self.text@ }
    }
}

/// The values of a list of entries.
pub open spec fn entry_models(v: Seq<Entry>) -> Seq<EntryModel> {
    v.map_values(|e: Entry| e@)
}

/// The entry that a text stands for.
pub open spec fn entry_of(text: Seq<char>) -> EntryModel {
    if text.len() > 0 && text[0] == '/' {
        EntryModel { kind: EntryKind::Directory, text: trim_start(text, '/') }
    } else if text.len() > 1 && text[0] == '~' && text[1] == '/' {
        EntryModel { kind: EntryKind::DirectoryPattern, text: text.skip(2) }
    } else if text.len() > 0 && text[0] == '~' {
        EntryModel { kind: EntryKind::FilePattern, text: text.skip(1) }
    } else {
        EntryModel { kind: EntryKind::File, text }
    }
}

/// The entries that texts stand for.
pub open spec fn entries_of(v: Seq<Seq<char>>) -> Seq<EntryModel> {
    v.map_values(|s: Seq<char>| entry_of(s))
}

/// Whether the entry leaves out directories called `name`.
pub open spec fn entry_excludes_dir(entry: EntryModel, name: Seq<char>) -> bool {
    match entry.kind {
        EntryKind::Directory => entry.text == name,
        EntryKind::DirectoryPattern => matches_name(entry.text, name),
        _ => false,
    }
}

/// Whether the entry leaves out files called `name`.
pub open spec fn entry_excludes_file(entry: EntryModel, name: Seq<char>) -> bool {
    match entry.kind {
        EntryKind::File => entry.text == name,
        EntryKind::FilePattern => matches_name(entry.text, name),
        _ => false,
    }
}

/// Whether one of the entries leaves out directories called `name`.
pub open spec fn excludes_dir(entries: Seq<EntryModel>, name: Seq<char>) -> bool {
    exists|i: int| 0 <= i < entries.len() && entry_excludes_dir(#[trigger] entries[i], name)
}

/// Whether one of the entries leaves out files called `name`.
pub open spec fn excludes_file(entries: Seq<EntryModel>, name: Seq<char>) -> bool {
    exists|i: int| 0 <= i < entries.len() && entry_excludes_file(#[trigger] entries[i], name)
}

/// The characters of `s` behind the first `n`, as text.
fn behind(s: &[char], n: usize) -> (r: String)
    requires
        n <= s@.len(),
    ensures
        r@ == s@.skip(n as int),
{
    assert(s@.skip(n as int) == s@.subrange(n as int, s@.len() as int));
    text_of(&part(s, n, s.len()))
}

/// The entry that a text stands for.
pub fn parse_entry(text: &str) -> (r: Entry)
    ensures
        r@ == entry_of(text@),
{
    let s = chars_of(text);
    if s.len() > 0 && s[0] == '/' {
        Entry { kind: EntryKind::Directory, text: text_of(&trim_start_chars(&s, '/')) }
    } else if s.len() > 1 && s[0] == '~' && s[1] == '/' {
        Entry { kind: EntryKind::DirectoryPattern, text: behind(&s, 2) }
    } else if s.len() > 0 && s[0] == '~' {
        Entry { kind: EntryKind::FilePattern, text: behind(&s, 1) }
    } else {
        Entry { kind: EntryKind::File, text: owned(text) }
    }
}

/// The entries that texts stand for.
pub fn parse_entries(v: &[String]) -> (r: Vec<Entry>)
    ensures
        entry_models(r@) == entries_of(texts(v@)),
{
    let ghost all = entries_of(texts(v@));
    let mut r: Vec<Entry> = Vec::new();
    let mut i: usize = 0;
    assert(entry_models(r@) == all.take(0));
    while i < v.len()
        invariant
            i <= v@.len(),
            all == entries_of(texts(v@)),
            entry_models(r@) == all.take(i as int),
        decreases v@.len() - i,
    {
        let ghost before = r@;
        let e = parse_entry(v[i].as_str());
        r.push(e);
        assert(e@ == all[i as int]);
        assert(entry_models(r@) == entry_models(before).push(e@));
        assert(all.take(i + 1) == all.take(i as int).push(all[i as int]));
        i += 1;
    }
    assert(all.take(i as int) == all);
    r
}

/// A copy of a list of entries.
pub fn copied_entries(v: &[Entry]) -> (r: Vec<Entry>)
    ensures
        entry_models(r@) == entry_models(v@),
{
    let ghost all = entry_models(v@);
    let mut r: Vec<Entry> = Vec::new();
    let mut i: usize = 0;
    assert(entry_models(r@) == all.take(0));
    while i < v.len()
        invariant
            i <= v@.len(),
            all == entry_models(v@),
            entry_models(r@) == all.take(i as int),
        decreases v@.len() - i,
    {
        let ghost before = r@;
        let e = Entry { kind: v[i].kind, text: owned(v[i].text.as_str()) };
        r.push(e);
        assert(e@ == all[i as int]);
        assert(entry_models(r@) == entry_models(before).push(e@));
        assert(all.take(i + 1) == all.take(i as int).push(all[i as int]));
        i += 1;
    }
    assert(all.take(i as int) == all);
    r
}

/// Whether one of the entries leaves out directories called `name`.
pub fn dir_is_excluded(entries: &[Entry], name: &str) -> (b: bool)
    ensures
        b == excludes_dir(entry_models(entries@), name@),
{
    let ghost all = entry_models(entries@);
    let mut i: usize = 0;
    while i < entries.len()
        invariant
            i <= entries@.len(),
            all == entry_models(entries@),
            forall|j: int| 0 <= j < i ==> !entry_excludes_dir(#[trigger] all[j], name@),
        decreases entries@.len() - i,
    {
        assert(all[i as int] == entries@[i as int]@);
        let text = entries[i].text.as_str();
        let hit = match entries[i].kind {
            EntryKind::Directory => same_text(text, name),
            EntryKind::DirectoryPattern => wildcard_matches(text, name),
            _ => false,
        };
        if hit {
            assert(entry_excludes_dir(all[i as int], name@));
            return true;
        }
        i += 1;
    }
    false
}

/// Whether one of the entries leaves out files called `name`.
pub fn file_is_excluded(entries: &[Entry], name: &str) -> (b: bool)
    ensures
        b == excludes_file(entry_models(entries@), name@),
{
    let ghost all = entry_models(entries@);
    let mut i: usize = 0;
    while i < entries.len()
        invariant
            i <= entries@.len(),
            all == entry_models(entries@),
            forall|j: int| 0 <= j < i ==> !entry_excludes_file(#[trigger] all[j], name@),
        decreases entries@.len() - i,
    {
        assert(all[i as int] == entries@[i as int]@);
        let text = entries[i].text.as_str();
        let hit = match entries[i].kind {
            EntryKind::File => same_text(text, name),
            EntryKind::FilePattern => wildcard_matches(text, name),
            _ => false,
        };
        if hit {
            assert(entry_excludes_file(all[i as int], name@));
            return true;
        }
        i += 1;
    }
    false
}

/// A name leaves out nothing but itself, and a pattern what fits it: a
/// directory is left out exactly when its own name is listed as that of a
/// directory, or it fits a pattern for directories, and a file likewise.
pub proof fn entries_exclude_what_they_name(entries: Seq<EntryModel>, name: Seq<char>)
    ensures
        excludes_dir(entries, name) <==> entries.contains(
            EntryModel { kind: EntryKind::Directory, text: name },
        ) || exists|pattern: Seq<char>|
            entries.contains(EntryModel { kind: EntryKind::DirectoryPattern, text: pattern })
                && #[trigger] matches_name(pattern, name),
        excludes_file(entries, name) <==> entries.contains(
            EntryModel { kind: EntryKind::File, text: name },
        ) || exists|pattern: Seq<char>|
            entries.contains(EntryModel { kind: EntryKind::FilePattern, text: pattern })
                && #[trigger] matches_name(pattern, name),
{
    if excludes_dir(entries, name) {
        let i = choose|i: int|
            0 <= i < entries.len() && entry_excludes_dir(#[trigger] entries[i], name);
        assert(entries.contains(entries[i]));
        assert(entries[i] == EntryModel { kind: entries[i].kind, text: entries[i].text });
    }
    if excludes_file(entries, name) {
        let i = choose|i: int|
            0 <= i < entries.len() && entry_excludes_file(#[trigger] entries[i], name);
        assert(entries.contains(entries[i]));
        assert(entries[i] == EntryModel { kind: entries[i].kind, text: entries[i].text });
    }
    assert forall|e: EntryModel| #[trigger] entries.contains(e) implies (entry_excludes_dir(
        e,
        name,
    ) ==> excludes_dir(entries, name)) && (entry_excludes_file(e, name) ==> excludes_file(
        entries,
        name,
    )) by {
        a_listed_entry_excludes(entries, e, name);
    }
}

/// Where only names of directories are listed, the directories of exactly
/// these names are left out, and no file is.
pub proof fn directories_are_excluded_by_their_whole_names(
    entries: Seq<EntryModel>,
    name: Seq<char>,
)
    requires
        forall|i: int| 0 <= i < entries.len() ==> (#[trigger] entries[i]).kind
            == EntryKind::Directory,
    ensures
        excludes_dir(entries, name) <==> exists|i: int|
            0 <= i < entries.len() && (#[trigger] entries[i]).text == name,
        !excludes_file(entries, name),
{
}

/// Where only names of files are listed, the files of exactly these names are
/// left out, and no directory is.
pub proof fn files_are_excluded_by_their_whole_names(entries: Seq<EntryModel>, name: Seq<char>)
    requires
        forall|i: int| 0 <= i < entries.len() ==> (#[trigger] entries[i]).kind == EntryKind::File,
    ensures
        excludes_file(entries, name) <==> exists|i: int|
            0 <= i < entries.len() && (#[trigger] entries[i]).text == name,
        !excludes_dir(entries, name),
{
}

/// An entry is read as it is written: a slash stands before the name of a
/// directory, a tilde before a pattern for files, both before a pattern for
/// directories, and neither before the name of a file.
pub proof fn entries_are_read_as_written(text: Seq<char>)
    ensures
        text.len() == 0 || text[0] != '/' ==> entry_of(seq!['/'] + text) == (EntryModel {
            kind: EntryKind::Directory,
            text,
        }),
        text.len() > 0 && text[0] == '/' ==> entry_of(seq!['/'] + text) == entry_of(text),
        entry_of(seq!['~', '/'] + text) == (EntryModel { kind: EntryKind::DirectoryPattern, text }),
        text.len() == 0 || text[0] != '/' ==> entry_of(seq!['~'] + text) == (EntryModel {
            kind: EntryKind::FilePattern,
            text,
        }),
        text.len() == 0 || (text[0] != '/' && text[0] != '~') ==> entry_of(text) == (EntryModel {
            kind: EntryKind::File,
            text,
        }),
{
    assert((seq!['/'] + text).skip(1) == text);
    assert((seq!['~'] + text).skip(1) == text);
    assert((seq!['~', '/'] + text).skip(2) == text);
    reveal_with_fuel(trim_start, 2);
}

/// Every text of a list is read, in its order, and for itself.
pub proof fn every_entry_is_read(v: Seq<Seq<char>>, i: int)
    ensures
        entries_of(v).len() == v.len(),
        0 <= i < v.len() ==> entries_of(v)[i] == entry_of(v[i]),
{
}

/// No entry leaves out both directories and files.
pub proof fn an_entry_excludes_one_kind(entry: EntryModel, name: Seq<char>, other: Seq<char>)
    ensures
        !(entry_excludes_dir(entry, name) && entry_excludes_file(entry, other)),
{
}

/// Two lists of entries together leave out exactly what the one or the other
/// leaves out.
pub proof fn entries_exclude_each_for_itself(
    entries: Seq<EntryModel>,
    more: Seq<EntryModel>,
    name: Seq<char>,
)
    ensures
        excludes_dir(entries + more, name) == (excludes_dir(entries, name) || excludes_dir(
            more,
            name,
        )),
        excludes_file(entries + more, name) == (excludes_file(entries, name) || excludes_file(
            more,
            name,
        )),
{
    let all = entries + more;
    let n = entries.len() as int;
    assert forall|i: int| 0 <= i < n implies #[trigger] entries[i] == all[i] by {}
    assert forall|i: int| 0 <= i < more.len() implies #[trigger] more[i] == all[n + i] by {}
    if excludes_dir(all, name) {
        let i = choose|i: int| 0 <= i < all.len() && entry_excludes_dir(#[trigger] all[i], name);
        if i < n {
            assert(entry_excludes_dir(entries[i], name));
        } else {
            assert(entry_excludes_dir(more[i - n], name));
        }
    }
    if excludes_file(all, name) {
        let i = choose|i: int| 0 <= i < all.len() && entry_excludes_file(#[trigger] all[i], name);
        if i < n {
            assert(entry_excludes_file(entries[i], name));
        } else {
            assert(entry_excludes_file(more[i - n], name));
        }
    }
}

/// The order of the entries, and how often one is there, makes no difference.
pub proof fn only_which_entries_matters(
    entries: Seq<EntryModel>,
    other: Seq<EntryModel>,
    name: Seq<char>,
)
    requires
        forall|e: EntryModel| #[trigger] entries.contains(e) <==> other.contains(e),
    ensures
        excludes_dir(entries, name) == excludes_dir(other, name),
        excludes_file(entries, name) == excludes_file(other, name),
{
    fewer_entries_exclude_less(entries, other, name);
    fewer_entries_exclude_less(other, entries, name);
}

proof fn fewer_entries_exclude_less(
    entries: Seq<EntryModel>,
    other: Seq<EntryModel>,
    name: Seq<char>,
)
    requires
        forall|e: EntryModel| #[trigger] entries.contains(e) ==> other.contains(e),
    ensures
        excludes_dir(entries, name) ==> excludes_dir(other, name),
        excludes_file(entries, name) ==> excludes_file(other, name),
{
    if excludes_dir(entries, name) {
        let i = choose|i: int|
            0 <= i < entries.len() && entry_excludes_dir(#[trigger] entries[i], name);
        assert(entries.contains(entries[i]));
        let k = choose|k: int| 0 <= k < other.len() && other[k] == entries[i];
        assert(entry_excludes_dir(other[k], name));
    }
    if excludes_file(entries, name) {
        let i = choose|i: int|
            0 <= i < entries.len() && entry_excludes_file(#[trigger] entries[i], name);
        assert(entries.contains(entries[i]));
        let k = choose|k: int| 0 <= k < other.len() && other[k] == entries[i];
        assert(entry_excludes_file(other[k], name));
    }
}

// ---------------------------------------------------------------------------
// The list
// ---------------------------------------------------------------------------

/// `list` with `entry` behind it, unless it is there already.
pub open spec fn with_entry<A>(list: Seq<A>, entry: A) -> Seq<A> {
    if list.contains(entry) {
        list
    } else {
        list.push(entry)
    }
}

/// `list` with the pattern in `text` behind `mark`, unless the text is blank.
pub open spec fn with_pattern(
    list: Seq<EntryModel>,
    mark: Seq<char>,
    text: Seq<char>,
) -> Seq<EntryModel> {
    if trimmed(text).len() == 0 {
        list
    } else {
        with_entry(list, entry_of(mark + trimmed(text)))
    }
}

/// The exclusions that the user has picked, each of them once.
#[derive(Debug)]
pub struct ExclusionList {
    entries: Vec<Entry>,
}

impl View for ExclusionList {
    type V = Seq<EntryModel>;

    closed spec fn view(&self) -> Seq<EntryModel> {
        entry_models(self.entries@)
    }
}

/// Puts `s` behind the list, unless it is there already.
pub fn add_once(list: &mut Vec<String>, s: String)
    ensures
        texts(final(list)@) == with_entry(texts(old(list)@), s@),
{
    if !lists(list, s.as_str()) {
        let ghost before = list@;
        list.push(s);
        assert(texts(list@) == texts(before).push(s@));
    }
}

fn lists_entry(v: &[Entry], e: &Entry) -> (found: bool)
    ensures
        found == entry_models(v@).contains(e@),
{
    let mut i: usize = 0;
    while i < v.len()
        invariant
            i <= v@.len(),
            forall|j: int| 0 <= j < i ==> entry_models(v@)[j] != e@,
        decreases v@.len() - i,
    {
        if v[i].kind == e.kind && same_text(v[i].text.as_str(), e.text.as_str()) {
            assert(entry_models(v@)[i as int] == e@);
            return true;
        }
        i += 1;
    }
    false
}

impl ExclusionList {
    /// Whether no entry is there twice.
    pub open spec fn wf(&self) -> bool {
        self@.no_duplicates()
    }

    /// An empty list.
    pub fn new() -> (r: ExclusionList)
        ensures
            r@ == Seq::<EntryModel>::empty(),
            r.wf(),
    {
        let r = ExclusionList { entries: Vec::new() };
        assert(r@ == Seq::<EntryModel>::empty());
        r
    }

    fn add_entry(&mut self, entry: Entry)
        requires
            old(self).wf(),
        ensures
            final(self)@ == with_entry(old(self)@, entry@),
            final(self).wf(),
    {
        if !lists_entry(&self.entries, &entry) {
            let ghost before = self.entries@;
            self.entries.push(entry);
            assert(entry_models(self.entries@) == entry_models(before).push(entry@));
        }
    }

    /// Leaves out the directories called `name`.
    pub fn add_directory(&mut self, name: &str)
        requires
            old(self).wf(),
        ensures
            final(self)@ == with_entry(
                old(self)@,
                (EntryModel { kind: EntryKind::Directory, text: name@ }),
            ),
            final(self).wf(),
    {
        self.add_entry(Entry { kind: EntryKind::Directory, text: owned(name) });
    }

    /// Leaves out the files called `name`.
    pub fn add_file(&mut self, name: &str)
        requires
            old(self).wf(),
        ensures
            final(self)@ == with_entry(
                old(self)@,
                (EntryModel { kind: EntryKind::File, text: name@ }),
            ),
            final(self).wf(),
    {
        self.add_entry(Entry { kind: EntryKind::File, text: owned(name) });
    }

    /// Leaves out the files whose names fit the pattern in `text`, or the
    /// directories where it starts with a slash; a blank text adds nothing.
    pub fn add_file_pattern(&mut self, text: &str) -> (added: bool)
        requires
            old(self).wf(),
        ensures
            final(self)@ == with_pattern(old(self)@, "~"@, text@),
            added == (trimmed(text@).len() > 0),
            final(self).wf(),
    {
        let pattern = trim_text(text);
        if pattern.as_str().is_empty() {
            return false;
        }
        self.add_entry(parse_entry(concat2("~", pattern.as_str()).as_str()));
        true
    }

    /// Leaves out the directories whose names fit the pattern in `text`; a
    /// blank text adds nothing.
    pub fn add_dir_pattern(&mut self, text: &str) -> (added: bool)
        requires
            old(self).wf(),
        ensures
            final(self)@ == with_pattern(old(self)@, "~/"@, text@),
            added == (trimmed(text@).len() > 0),
            final(self).wf(),
    {
        let pattern = trim_text(text);
        if pattern.as_str().is_empty() {
            return false;
        }
        self.add_entry(parse_entry(concat2("~/", pattern.as_str()).as_str()));
        true
    }

    /// Takes every entry out.
    pub fn clear(&mut self)
        ensures
            final(self)@ == Seq::<EntryModel>::empty(),
            final(self).wf(),
    {
        self.entries = Vec::new();
        assert(self@ == Seq::<EntryModel>::empty());
    }

    /// The entries.
    pub fn entries(&self) -> (r: &Vec<Entry>)
        ensures
            entry_models(r@) == self@,
    {
        &self.entries
    }
}

proof fn an_added_entry_is_there(list: Seq<EntryModel>, entry: EntryModel)
    ensures
        with_entry(list, entry).contains(entry),
{
    if !list.contains(entry) {
        assert(with_entry(list, entry)[list.len() as int] == entry);
    }
}

proof fn a_listed_entry_excludes(entries: Seq<EntryModel>, entry: EntryModel, name: Seq<char>)
    requires
        entries.contains(entry),
    ensures
        entry_excludes_dir(entry, name) ==> excludes_dir(entries, name),
        entry_excludes_file(entry, name) ==> excludes_file(entries, name),
{
    let i = choose|i: int| 0 <= i < entries.len() && entries[i] == entry;
    assert(entries[i] == entry);
}

/// What is added to a list stands behind what was there, which stays as it is
/// and in its order; nothing is added twice, and nothing else is added.
pub proof fn adding_keeps_the_list<A>(list: Seq<A>, entry: A)
    ensures
        list.is_prefix_of(with_entry(list, entry)),
        with_entry(list, entry).contains(entry),
        list.contains(entry) ==> with_entry(list, entry) == list,
        !list.contains(entry) ==> with_entry(list, entry) == list + seq![entry],
        list.no_duplicates() ==> with_entry(list, entry).no_duplicates(),
{
    let all = with_entry(list, entry);
    assert(list == all.take(list.len() as int));
    if !list.contains(entry) {
        assert(all[list.len() as int] == entry);
        assert(all == list + seq![entry]);
    }
}

/// A directory that was picked is left out besides what was left out before,
/// and nothing else is: no other directory and no file.
pub proof fn picking_a_directory_excludes_it_alone(
    list: Seq<EntryModel>,
    name: Seq<char>,
    other: Seq<char>,
)
    ensures
        ({
            let more = with_entry(list, EntryModel { kind: EntryKind::Directory, text: name });
            &&& excludes_dir(more, other) <==> excludes_dir(list, other) || other == name
            &&& excludes_file(more, other) <==> excludes_file(list, other)
        }),
{
    let entry = EntryModel { kind: EntryKind::Directory, text: name };
    an_added_entry_excludes(list, entry, other);
}

/// A file that was picked is left out besides what was left out before, and
/// nothing else is: no other file and no directory.
pub proof fn picking_a_file_excludes_it_alone(
    list: Seq<EntryModel>,
    name: Seq<char>,
    other: Seq<char>,
)
    ensures
        ({
            let more = with_entry(list, EntryModel { kind: EntryKind::File, text: name });
            &&& excludes_file(more, other) <==> excludes_file(list, other) || other == name
            &&& excludes_dir(more, other) <==> excludes_dir(list, other)
        }),
{
    let entry = EntryModel { kind: EntryKind::File, text: name };
    an_added_entry_excludes(list, entry, other);
}

proof fn an_added_entry_excludes(list: Seq<EntryModel>, entry: EntryModel, name: Seq<char>)
    ensures
        excludes_dir(with_entry(list, entry), name) <==> excludes_dir(list, name)
            || entry_excludes_dir(entry, name),
        excludes_file(with_entry(list, entry), name) <==> excludes_file(list, name)
            || entry_excludes_file(entry, name),
{
    an_added_entry_is_there(list, entry);
    a_listed_entry_excludes(with_entry(list, entry), entry, name);
    if !list.contains(entry) {
        let one = seq![entry];
        assert(with_entry(list, entry) == list + one);
        entries_exclude_each_for_itself(list, one, name);
        if excludes_dir(one, name) || excludes_file(one, name) {
            assert(one[0] == entry);
        }
    }
}

/// A directory that was picked is left out, and stays so whatever is picked
/// later.
pub proof fn a_picked_directory_is_excluded(
    list: Seq<EntryModel>,
    name: Seq<char>,
    later: Seq<EntryModel>,
)
    ensures
        excludes_dir(
            with_entry(list, EntryModel { kind: EntryKind::Directory, text: name }) + later,
            name,
        ),
{
    let entry = EntryModel { kind: EntryKind::Directory, text: name };
    an_added_entry_is_there(list, entry);
    a_listed_entry_excludes(with_entry(list, entry), entry, name);
    entries_exclude_each_for_itself(with_entry(list, entry), later, name);
}

/// A file that was picked is left out, and stays so whatever is picked later.
pub proof fn a_picked_file_is_excluded(
    list: Seq<EntryModel>,
    name: Seq<char>,
    later: Seq<EntryModel>,
)
    ensures
        excludes_file(
            with_entry(list, EntryModel { kind: EntryKind::File, text: name }) + later,
            name,
        ),
{
    let entry = EntryModel { kind: EntryKind::File, text: name };
    an_added_entry_is_there(list, entry);
    a_listed_entry_excludes(with_entry(list, entry), entry, name);
    entries_exclude_each_for_itself(with_entry(list, entry), later, name);
}

/// A pattern that was typed leaves out the directories, or the files, whose
/// names fit it. A file pattern that starts with a slash leaves out the
/// directories that fit what stands behind the slash.
pub proof fn a_typed_pattern_excludes_what_fits(
    list: Seq<EntryModel>,
    text: Seq<char>,
    name: Seq<char>,
)
    requires
        trimmed(text).len() > 0,
    ensures
        matches_name(trimmed(text), name) ==> excludes_dir(with_pattern(list, "~/"@, text), name),
        trimmed(text)[0] != '/' && matches_name(trimmed(text), name) ==> excludes_file(
            with_pattern(list, "~"@, text),
            name,
        ),
        trimmed(text)[0] == '/' && matches_name(trimmed(text).skip(1), name) ==> excludes_dir(
            with_pattern(list, "~"@, text),
            name,
        ),
{
    reveal_strlit("~/");
    reveal_strlit("~");
    let pattern = trimmed(text);
    let dir_entry = entry_of("~/"@ + pattern);
    assert(("~/"@ + pattern).skip(2) == pattern);
    an_added_entry_is_there(list, dir_entry);
    a_listed_entry_excludes(with_entry(list, dir_entry), dir_entry, name);
    let file_entry = entry_of("~"@ + pattern);
    assert(("~"@ + pattern).skip(1) == pattern);
    assert(("~"@ + pattern).skip(2) == pattern.skip(1));
    an_added_entry_is_there(list, file_entry);
    a_listed_entry_excludes(with_entry(list, file_entry), file_entry, name);
}

/// A pattern that was typed leaves out, besides what was left out before, what
/// fits it without the white space around it, and nothing else. A blank text
/// leaves the list as it is.
pub proof fn a_typed_pattern_excludes_nothing_else(
    list: Seq<EntryModel>,
    text: Seq<char>,
    name: Seq<char>,
)
    ensures
        trimmed(text).len() == 0 ==> with_pattern(list, "~/"@, text) == list && with_pattern(
            list,
            "~"@,
            text,
        ) == list,
        trimmed(text).len() > 0 ==> {
            let dirs = with_pattern(list, "~/"@, text);
            &&& excludes_dir(dirs, name) <==> excludes_dir(list, name) || matches_name(
                trimmed(text),
                name,
            )
            &&& excludes_file(dirs, name) <==> excludes_file(list, name)
        },
        trimmed(text).len() > 0 && trimmed(text)[0] != '/' ==> {
            let files = with_pattern(list, "~"@, text);
            &&& excludes_file(files, name) <==> excludes_file(list, name) || matches_name(
                trimmed(text),
                name,
            )
            &&& excludes_dir(files, name) <==> excludes_dir(list, name)
        },
        trimmed(text).len() > 0 && trimmed(text)[0] == '/' ==> {
            let dirs = with_pattern(list, "~"@, text);
            &&& excludes_dir(dirs, name) <==> excludes_dir(list, name) || matches_name(
                trimmed(text).skip(1),
                name,
            )
            &&& excludes_file(dirs, name) <==> excludes_file(list, name)
        },
{
    reveal_strlit("~/");
    reveal_strlit("~");
    let pattern = trimmed(text);
    assert("~/"@ + pattern == seq!['~', '/'] + pattern);
    assert("~"@ + pattern == seq!['~'] + pattern);
    entries_are_read_as_written(pattern);
    if pattern.len() > 0 && pattern[0] == '/' {
        entries_are_read_as_written(pattern.skip(1));
        assert("~"@ + pattern == seq!['~', '/'] + pattern.skip(1));
    }
    an_added_entry_excludes(list, entry_of("~/"@ + pattern), name);
    an_added_entry_excludes(list, entry_of("~"@ + pattern), name);
}

// ---------------------------------------------------------------------------
// The list as it is shown
// ---------------------------------------------------------------------------

/// How an entry is shown.
pub open spec fn shown_entry(entry: EntryModel) -> Seq<char> {
    match entry.kind {
        EntryKind::DirectoryPattern => "/"@ + entry.text + "/ (dir pattern)"@,
        EntryKind::FilePattern => entry.text + " (file pattern)"@,
        EntryKind::Directory => "/"@ + entry.text + "/ (recursive)"@,
        EntryKind::File => entry.text,
    }
}

/// How a list is shown: one entry to a line.
pub open spec fn shown_list(entries: Seq<EntryModel>) -> Seq<char> {
    join(entries.map_values(|e: EntryModel| shown_entry(e)), "\n"@)
}

/// Every entry is shown on a line of its own, in the order of the list, by its
/// text and by what it leaves out.
pub proof fn entries_are_shown_one_to_a_line(
    entries: Seq<EntryModel>,
    more: Seq<EntryModel>,
    text: Seq<char>,
)
    ensures
        shown_list(Seq::empty()) == Seq::<char>::empty(),
        shown_list(seq![EntryModel { kind: EntryKind::File, text }]) == text,
        shown_list(seq![EntryModel { kind: EntryKind::FilePattern, text }]) == text
            + " (file pattern)"@,
        shown_list(seq![EntryModel { kind: EntryKind::Directory, text }]) == "/"@ + text
            + "/ (recursive)"@,
        shown_list(seq![EntryModel { kind: EntryKind::DirectoryPattern, text }]) == "/"@ + text
            + "/ (dir pattern)"@,
        entries.len() > 0 && more.len() > 0 ==> shown_list(entries + more) == shown_list(entries)
            + "\n"@ + shown_list(more),
{
    let f = |e: EntryModel| shown_entry(e);
    assert((entries + more).map_values(f) == entries.map_values(f) + more.map_values(f));
    if entries.len() > 0 && more.len() > 0 {
        joining_two_lists(entries.map_values(f), more.map_values(f), "\n"@);
    }
    assert(Seq::<EntryModel>::empty().map_values(f).len() == 0);
}

/// How a list of exclusions is shown.
pub fn exclusion_view(items: &[Entry]) -> (r: String)
    ensures
        r@ == shown_list(entry_models(items@)),
{
    let ghost all = entry_models(items@);
    let ghost shown = all.map_values(|e: EntryModel| shown_entry(e));
    let mut rows: Vec<String> = Vec::new();
    let mut i: usize = 0;
    assert(texts(rows@) == shown.take(0));
    while i < items.len()
        invariant
            i <= items@.len(),
            all == entry_models(items@),
            shown == all.map_values(|e: EntryModel| shown_entry(e)),
            texts(rows@) == shown.take(i as int),
        decreases items@.len() - i,
    {
        assert(all[i as int] == items@[i as int]@);
        let text = items[i].text.as_str();
        let row = match items[i].kind {
            EntryKind::DirectoryPattern => concat3("/", text, "/ (dir pattern)"),
            EntryKind::FilePattern => concat2(text, " (file pattern)"),
            EntryKind::Directory => concat3("/", text, "/ (recursive)"),
            EntryKind::File => owned(text),
        };
        assert(row@ == shown[i as int]);
        let ghost before = rows@;
        rows.push(row);
        assert(texts(rows@) == texts(before).push(row@));
        assert(shown.take(i + 1) == shown.take(i as int).push(shown[i as int]));
        i += 1;
    }
    assert(shown.take(i as int) == shown);
    join_strings(&rows, "\n")
}

} // verus!
