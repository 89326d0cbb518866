//! What is asked for: where files come from, where they go, and how.

use vstd::prelude::*;

#[allow(unused_imports)]
use crate::paths::parts;
use crate::text::{chars_of, has_char, owned, part, text_of};

verus! {

/// Whether the directories of the source are kept at the destination.
#[derive(Clone, Copy, PartialEq, Eq, Structural, Debug)]
pub enum TransferMode {
    FilesOnly,
    FoldersAndFiles,
}

/// The program that moves the bytes.
#[derive(Clone, Copy, PartialEq, Eq, Structural, Debug)]
pub enum TransferMethod {
    Standard,
    Rsync,
}

/// What happens to a file whose name is taken at the destination.
#[derive(Clone, Copy, PartialEq, Eq, Structural, Debug)]
pub enum ConflictMode {
    Skip,
    Overwrite,
    Rename,
}

/// Where the files come from. A local path is a sequence of bytes, a remote
/// one a host and a text.
#[derive(Debug)]
pub enum SourceSelection {
    Nothing,
    Directory(Vec<u8>),
    Files(Vec<Vec<u8>>),
    Remote(String, String),
}

/// The value of a `SourceSelection`.
pub enum SourceModel {
    Nothing,
    Directory(Seq<u8>),
    Files(Seq<Seq<u8>>),
    Remote(Seq<char>, Seq<char>),
}

impl View for SourceSelection {
    type V = SourceModel;

    open spec fn view(&self) -> SourceModel {
        match self {
            SourceSelection::Nothing => SourceModel::Nothing,
            SourceSelection::Directory(d) => SourceModel::Directory(d@),
            SourceSelection::Files(f) => SourceModel::Files(parts(f@)),
            SourceSelection::Remote(h, p) => SourceModel::Remote(h@, p@),
        }
    }
}

/// The text of an optional string.
pub open spec fn opt_text(o: Option<String>) -> Option<Seq<char>> {
    match o {
        Some(s) => Some(s@),
        None => None,
    }
}

// ---------------------------------------------------------------------------
// host:/path
// ---------------------------------------------------------------------------

/// How many characters stand before the first colon.
pub open spec fn before_colon(s: Seq<char>) -> nat
    decreases s.len(),
{
    if s.len() == 0 || s[0] == ':' {
        0
    } else {
        1 + before_colon(s.skip(1))
    }
}

/// Whether `dst` names a path on a host: a host without slashes, a colon and
/// a path, neither of them empty.
pub open spec fn is_remote(dst: Seq<char>) -> bool {
    let i = before_colon(dst) as int;
    0 < i < dst.len() - 1 && !dst.take(i).contains('/')
}

/// The host and the path of `host:/path`; a plain path has no host.
pub open spec fn destination(dst: Seq<char>) -> (Option<Seq<char>>, Seq<char>) {
    let i = before_colon(dst) as int;
    if is_remote(dst) {
        (Some(dst.take(i)), dst.skip(i + 1))
    } else {
        (None, dst)
    }
}

/// The first colon is the first one.
pub proof fn before_colon_bounds(s: Seq<char>)
    ensures
        before_colon(s) <= s.len(),
        before_colon(s) < s.len() ==> s[before_colon(s) as int] == ':',
        forall|k: int| 0 <= k < before_colon(s) ==> s[k] != ':',
    decreases s.len(),
{
    if s.len() > 0 && s[0] != ':' {
        before_colon_bounds(s.skip(1));
        assert forall|k: int| 0 <= k < before_colon(s) implies s[k] != ':' by {
            if k > 0 {
                assert(s.skip(1)[k - 1] == s[k]);
            }
        }
    }
}

/// Only a host and a path make a remote destination: what is before the first
/// colon is the host, which is not empty and has no slash, and all that follows
/// is the path, which is not empty. Anything else is a path as it stands.
pub proof fn only_a_host_and_a_path_are_remote(dst: Seq<char>)
    ensures
        match destination(dst).0 {
            Some(host) => {
                let path = destination(dst).1;
                &&& dst == host.push(':') + path
                &&& host.len() > 0
                &&& path.len() > 0
                &&& !host.contains(':')
                &&& !host.contains('/')
            },
            None => destination(dst).1 == dst,
        },
{
    before_colon_bounds(dst);
    let i = before_colon(dst) as int;
    if is_remote(dst) {
        assert(dst == dst.take(i).push(':') + dst.skip(i + 1));
    }
}

/// Splits `host:/path` into the host and the path; a plain path has no host.
pub fn parse_destination(dst: &str) -> (r: (Option<String>, String))
    ensures
        (opt_text(r.0), r.1@) == destination(dst@),
{
    let s = chars_of(dst);
    let mut i: usize = 0;
    assert(s@.skip(0) == s@);
    while i < s.len() && s[i] != ':'
        invariant
            i <= s@.len(),
            before_colon(s@) == i + before_colon(s@.skip(i as int)),
        decreases s@.len() - i,
    {
        assert(s@.skip(i as int).skip(1) == s@.skip(i + 1));
        i += 1;
    }
    if i > 0 && i < s.len() && i < s.len() - 1 {
        let host = part(&s, 0, i);
        assert(host@ == s@.take(i as int));
        if !has_char(&host, '/') {
            let path = part(&s, i + 1, s.len());
            assert(path@ == s@.skip(i + 1));
            return (Some(text_of(&host)), text_of(&path));
        }
    }
    (None, owned(dst))
}

/// A host, a colon and a path are taken apart into that host and that path,
/// where the host is not empty and holds neither a colon nor a slash, and the
/// path is not empty.
pub proof fn host_and_path_are_found(host: Seq<char>, path: Seq<char>)
    requires
        host.len() > 0,
        !host.contains(':'),
        !host.contains('/'),
        path.len() > 0,
    ensures
        destination(host.push(':') + path) == (Some(host), path),
{
    let s = host.push(':') + path;
    before_colon_bounds(s);
    let i = before_colon(s) as int;
    assert(s[host.len() as int] == ':');
    if i < host.len() {
        assert(s[i] == host[i]);
        assert(host.contains(host[i]));
    }
    assert(s.take(i) == host);
    assert(s.skip(i + 1) == path);
}

/// What a destination is taken apart into is the whole of it.
pub proof fn destination_loses_nothing(dst: Seq<char>)
    ensures
        match destination(dst) {
            (Some(host), path) => host.push(':') + path == dst && host.len() > 0 && path.len() > 0
                && !host.contains('/') && !host.contains(':'),
            (None, path) => path == dst,
        },
{
    before_colon_bounds(dst);
    if is_remote(dst) {
        let i = before_colon(dst) as int;
        assert(dst.take(i).push(':') + dst.skip(i + 1) == dst);
    }
}

/// A path that starts with a slash is never taken for a remote one.
pub proof fn absolute_paths_are_local(dst: Seq<char>)
    requires
        dst.len() > 0,
        dst[0] == '/',
    ensures
        destination(dst) == (None::<Seq<char>>, dst),
{
    before_colon_bounds(dst);
    let i = before_colon(dst) as int;
    if i > 0 {
        assert(dst.take(i)[0] == '/');
        assert(dst.take(i).contains('/'));
    }
}

} // verus!
