//! The commands that are run: programs with their arguments, and the command
//! lines that a remote shell reads.

use vstd::prelude::*;
use vstd::utf8::*;

#[allow(unused_imports)]
use crate::paths::parts;
use crate::text::{
    chars_of, concat2, concat3, extend_chars, join_strings, part, replace_char, text_of,
};
#[allow(unused_imports)]
use crate::request::{destination, host_and_path_are_found};
#[allow(unused_imports)]
use crate::text::{join, replaced, texts, utf8_lossy};

verus! {

// ---------------------------------------------------------------------------
// Quoting
// ---------------------------------------------------------------------------

/// What stands for a single quote inside single quotes: the quotes end, an
/// escaped quote follows, and they begin again.
pub open spec fn quoted_quote() -> Seq<char> {
    seq!['\'', '\\', '\'', '\'']
}

/// `s` in single quotes, for a shell.
pub open spec fn quoted(s: Seq<char>) -> Seq<char> {
    seq!['\''] + replaced(s, '\'', quoted_quote()) + seq!['\'']
}

/// Puts a string in single quotes, for a remote shell.
pub fn shell_quote(s: &str) -> (r: String)
    ensures
        r@ == quoted(s@),
{
    let v = chars_of(s);
    let mut q: Vec<char> = Vec::new();
    q.push('\'');
    q.push('\\');
    q.push('\'');
    q.push('\'');
    assert(q@ == quoted_quote());
    let mut r: Vec<char> = Vec::new();
    r.push('\'');
    extend_chars(&mut r, &replace_char(&v, '\'', &q));
    r.push('\'');
    assert(r@ == quoted(s@));
    text_of(&r)
}

/// How a POSIX shell reads a word of quoted and escaped characters:
/// `in_quotes` says whether single quotes are open. A character that is
/// neither quoted nor escaped makes no such word.
pub open spec fn shell_word(s: Seq<char>, in_quotes: bool) -> Option<Seq<char>>
    decreases s.len(),
{
    if s.len() == 0 {
        if in_quotes {
            None
        } else {
            Some(Seq::empty())
        }
    } else if s[0] == '\'' {
        shell_word(s.skip(1), !in_quotes)
    } else if in_quotes {
        match shell_word(s.skip(1), true) {
            Some(rest) => Some(seq![s[0]] + rest),
            None => None,
        }
    } else if s[0] == '\\' && s.len() > 1 {
        match shell_word(s.skip(2), false) {
            Some(rest) => Some(seq![s[1]] + rest),
            None => None,
        }
    } else {
        None
    }
}

/// Replacing characters goes through a text from its front as well.
proof fn replaced_from_the_front(s: Seq<char>, c: char, with: Seq<char>)
    requires
        s.len() > 0,
    ensures
        replaced(s, c, with) == (if s[0] == c {
            with
        } else {
            seq![s[0]]
        }) + replaced(s.skip(1), c, with),
    decreases s.len(),
{
    if s.len() == 1 {
        assert(s.drop_last() == Seq::<char>::empty());
        assert(s.skip(1) == Seq::<char>::empty());
        assert(replaced(s.skip(1), c, with) == Seq::<char>::empty());
    } else {
        replaced_from_the_front(s.drop_last(), c, with);
        assert(s.drop_last().skip(1) == s.skip(1).drop_last());
        assert(s.skip(1).last() == s.last());
    }
}

proof fn quoted_body_reads_back(s: Seq<char>)
    ensures
        shell_word(replaced(s, '\'', quoted_quote()) + seq!['\''], true) == Some(s),
    decreases s.len(),
{
    let end = seq!['\''];
    let body = replaced(s, '\'', quoted_quote());
    if s.len() == 0 {
        assert(body + end == end);
        assert(end.skip(1) == Seq::<char>::empty());
        assert(shell_word(end.skip(1), false) == Some(Seq::<char>::empty()));
        assert(s == Seq::<char>::empty());
    } else {
        replaced_from_the_front(s, '\'', quoted_quote());
        let rest = replaced(s.skip(1), '\'', quoted_quote()) + end;
        quoted_body_reads_back(s.skip(1));
        assert(seq![s[0]] + s.skip(1) == s);
        if s[0] == '\'' {
            let all = body + end;
            assert(all == quoted_quote() + rest);
            let a = all.skip(1);
            assert(a[0] == '\\' && a[1] == '\'');
            let b = a.skip(2);
            assert(b == seq!['\''] + rest);
            assert(b.skip(1) == rest);
            assert(shell_word(b, false) == Some(s.skip(1)));
            assert(shell_word(a, false) == Some(s));
        } else {
            let all = body + end;
            assert(all == seq![s[0]] + rest);
            assert(all.skip(1) == rest);
        }
    }
}

/// A shell reads a quoted string as one word, and the word is the string:
/// no character of it means anything to the shell.
pub proof fn quoting_hides_everything_from_the_shell(s: Seq<char>)
    ensures
        shell_word(quoted(s), false) == Some(s),
{
    quoted_body_reads_back(s);
    assert(quoted(s).skip(1) == replaced(s, '\'', quoted_quote()) + seq!['\'']);
}

// ---------------------------------------------------------------------------
// Command lines for a remote shell
// ---------------------------------------------------------------------------

/// The command line that only shows that the host can be reached.
pub open spec fn greeting_line() -> Seq<char> {
    "echo ok"@
}

/// Each text in single quotes.
pub open spec fn all_quoted(v: Seq<Seq<char>>) -> Seq<Seq<char>> {
    v.map_values(|s: Seq<char>| quoted(s))
}

/// The command line that makes directories.
pub open spec fn mkdir_line(dirs: Seq<Seq<char>>) -> Seq<char> {
    "mkdir -p "@ + join(all_quoted(dirs), " "@)
}

/// The command line that lists the files below a path.
pub open spec fn find_line(path: Seq<char>) -> Seq<char> {
    "find "@ + quoted(path) + " -type f 2>/dev/null"@
}

/// The command line that removes a file.
pub open spec fn remove_line(path: Seq<char>) -> Seq<char> {
    "rm -f "@ + quoted(path)
}

/// The command line that tells whether something is at a path.
pub open spec fn exists_line(path: Seq<char>) -> Seq<char> {
    "test -e "@ + quoted(path)
}

/// The command line that hashes a file, with either of two programs.
pub open spec fn hash_line(path: Seq<char>) -> Seq<char> {
    "sha256sum "@ + quoted(path) + " 2>/dev/null || shasum -a 256 "@ + quoted(path)
        + " 2>/dev/null"@
}

/// The command line that makes directories.
pub fn mkdir_text(dirs: &[String]) -> (r: String)
    ensures
        r@ == mkdir_line(texts(dirs@)),
{
    let mut words: Vec<String> = Vec::new();
    let mut i: usize = 0;
    while i < dirs.len()
        invariant
            i <= dirs@.len(),
            texts(words@) == all_quoted(texts(dirs@)).take(i as int),
        decreases dirs@.len() - i,
    {
        let ghost before = words@;
        let q = shell_quote(dirs[i].as_str());
        words.push(q);
        assert(texts(words@) == texts(before).push(q@));
        assert(texts(words@) == all_quoted(texts(dirs@)).take(i + 1));
        i += 1;
    }
    assert(all_quoted(texts(dirs@)).take(i as int) == all_quoted(texts(dirs@)));
    concat2("mkdir -p ", join_strings(&words, " ").as_str())
}

/// The command line that lists the files below a path.
pub fn find_text(path: &str) -> (r: String)
    ensures
        r@ == find_line(path@),
{
    concat3("find ", shell_quote(path).as_str(), " -type f 2>/dev/null")
}

/// The command line that removes a file.
pub fn remove_text(path: &str) -> (r: String)
    ensures
        r@ == remove_line(path@),
{
    concat2("rm -f ", shell_quote(path).as_str())
}

/// The command line that tells whether something is at a path.
pub fn exists_text(path: &str) -> (r: String)
    ensures
        r@ == exists_line(path@),
{
    concat2("test -e ", shell_quote(path).as_str())
}

/// The command line that hashes a file.
pub fn hash_text(path: &str) -> (r: String)
    ensures
        r@ == hash_line(path@),
{
    let q = shell_quote(path);
    let front = concat3("sha256sum ", q.as_str(), " 2>/dev/null || shasum -a 256 ");
    concat3(front.as_str(), q.as_str(), " 2>/dev/null")
}

// ---------------------------------------------------------------------------
// Programs and their arguments
// ---------------------------------------------------------------------------

/// The programs that are run.
#[derive(Clone, Copy, PartialEq, Eq, Structural, Debug)]
pub enum Program {
    Ssh,
    Scp,
    Rsync,
}

impl Program {
    /// The name of the program.
    pub open spec fn spec_name(self) -> Seq<char> {
        match self {
            Program::Ssh => "ssh"@,
            Program::Scp => "scp"@,
            Program::Rsync => "rsync"@,
        }
    }

    /// The name of the program.
    pub fn name(self) -> (r: &'static str)
        ensures
            r@ == self.spec_name(),
    {
        match self {
            Program::Ssh => "ssh",
            Program::Scp => "scp",
            Program::Rsync => "rsync",
        }
    }
}

/// A program and its arguments.
#[derive(Debug)]
pub struct Command {
    pub program: Program,
    pub args: Vec<Vec<u8>>,
}

/// The value of a `Command`.
#[verifier::ext_equal]
pub struct CommandModel {
    pub program: Program,
    pub args: Seq<Seq<u8>>,
}

impl View for Command {
    type V = CommandModel;

    open spec fn view(&self) -> CommandModel {
        CommandModel { program: self.program, args: parts(self.args@) }
    }
}

/// The arguments by which all the calls to a host share one connection.
pub open spec fn sharing_args() -> Seq<Seq<u8>> {
    seq![
        encode_utf8("-o"@),
        encode_utf8("ControlMaster=auto"@),
        encode_utf8("-o"@),
        encode_utf8("ControlPath=/tmp/kosmokopy_ssh_%h_%p_%r"@),
        encode_utf8("-o"@),
        encode_utf8("ControlPersist=60"@),
    ]
}

/// The command by which `rsync` reaches a host over the shared connection.
pub open spec fn sharing_shell() -> Seq<char> {
    "ssh -o ControlMaster=auto -o ControlPath=/tmp/kosmokopy_ssh_%h_%p_%r -o ControlPersist=60"@
}

/// Runs a command line on a host.
pub open spec fn ssh_command(host: Seq<char>, line: Seq<char>) -> CommandModel {
    CommandModel {
        program: Program::Ssh,
        args: sharing_args().push(encode_utf8(host)).push(encode_utf8(line)),
    }
}

/// A path on a host, as `scp` and `rsync` take it.
pub open spec fn endpoint(host: Seq<char>, path: Seq<char>) -> Seq<u8> {
    encode_utf8(host + ":"@ + path)
}

/// Copies a file from or to a host with `scp`.
pub open spec fn scp_command(from: Seq<u8>, to: Seq<u8>) -> CommandModel {
    CommandModel {
        program: Program::Scp,
        args: sharing_args().push(encode_utf8("-q"@)).push(from).push(to),
    }
}

/// Copies a file from or to a host with `rsync`.
pub open spec fn rsync_command(from: Seq<u8>, to: Seq<u8>) -> CommandModel {
    CommandModel {
        program: Program::Rsync,
        args: seq![
            encode_utf8("-az"@),
            encode_utf8("--checksum"@),
            encode_utf8("-e"@),
            encode_utf8(sharing_shell()),
            from,
            to,
        ],
    }
}

/// Copies a file on this machine with `rsync`.
pub open spec fn local_rsync_command(from: Seq<u8>, to: Seq<u8>) -> CommandModel {
    CommandModel {
        program: Program::Rsync,
        args: seq![encode_utf8("-a"@), encode_utf8("--checksum"@), from, to],
    }
}

/// Shows that `rsync` is there.
pub open spec fn rsync_version_command() -> CommandModel {
    CommandModel { program: Program::Rsync, args: seq![encode_utf8("--version"@)] }
}

/// The bytes of a text.
pub fn bytes_of(s: &str) -> (r: Vec<u8>)
    ensures
        r@ == encode_utf8(s@),
{
    let bytes = s.as_bytes();
    let r = part(bytes, 0, bytes.len());
    assert(r@ == bytes@);
    r
}

fn push_bytes(args: &mut Vec<Vec<u8>>, bytes: &[u8])
    ensures
        parts(final(args)@) == parts(old(args)@).push(bytes@),
{
    let ghost before = args@;
    let arg = part(bytes, 0, bytes.len());
    assert(arg@ == bytes@);
    args.push(arg);
    assert(parts(args@) == parts(before).push(bytes@));
}

fn push_text(args: &mut Vec<Vec<u8>>, s: &str)
    ensures
        parts(final(args)@) == parts(old(args)@).push(encode_utf8(s@)),
{
    push_bytes(args, s.as_bytes());
}

fn sharing() -> (args: Vec<Vec<u8>>)
    ensures
        parts(args@) == sharing_args(),
{
    let mut args: Vec<Vec<u8>> = Vec::new();
    push_text(&mut args, "-o");
    push_text(&mut args, "ControlMaster=auto");
    push_text(&mut args, "-o");
    push_text(&mut args, "ControlPath=/tmp/kosmokopy_ssh_%h_%p_%r");
    push_text(&mut args, "-o");
    push_text(&mut args, "ControlPersist=60");
    assert(parts(args@) == sharing_args());
    args
}

/// Runs a command line on a host.
pub fn ssh(host: &str, line: &str) -> (c: Command)
    ensures
        c@ == ssh_command(host@, line@),
{
    let mut args = sharing();
    push_text(&mut args, host);
    push_text(&mut args, line);
    Command { program: Program::Ssh, args }
}

/// A path on a host, as `scp` and `rsync` take it.
pub fn endpoint_bytes(host: &str, path: &str) -> (r: Vec<u8>)
    ensures
        r@ == endpoint(host@, path@),
{
    bytes_of(concat3(host, ":", path).as_str())
}

/// Copies a file from or to a host with `scp`.
pub fn scp(from: &[u8], to: &[u8]) -> (c: Command)
    ensures
        c@ == scp_command(from@, to@),
{
    let mut args = sharing();
    push_text(&mut args, "-q");
    push_bytes(&mut args, from);
    push_bytes(&mut args, to);
    Command { program: Program::Scp, args }
}

/// Copies a file from or to a host with `rsync`.
pub fn rsync(from: &[u8], to: &[u8]) -> (c: Command)
    ensures
        c@ == rsync_command(from@, to@),
{
    let mut args: Vec<Vec<u8>> = Vec::new();
    push_text(&mut args, "-az");
    push_text(&mut args, "--checksum");
    push_text(&mut args, "-e");
    push_text(
        &mut args,
        "ssh -o ControlMaster=auto -o ControlPath=/tmp/kosmokopy_ssh_%h_%p_%r -o ControlPersist=60",
    );
    push_bytes(&mut args, from);
    push_bytes(&mut args, to);
    assert(parts(args@) == rsync_command(from@, to@).args);
    Command { program: Program::Rsync, args }
}

/// Copies a file on this machine with `rsync`.
pub fn local_rsync(from: &[u8], to: &[u8]) -> (c: Command)
    ensures
        c@ == local_rsync_command(from@, to@),
{
    let mut args: Vec<Vec<u8>> = Vec::new();
    push_text(&mut args, "-a");
    push_text(&mut args, "--checksum");
    push_bytes(&mut args, from);
    push_bytes(&mut args, to);
    assert(parts(args@) == local_rsync_command(from@, to@).args);
    Command { program: Program::Rsync, args }
}

/// Shows that `rsync` is there.
pub fn rsync_version() -> (c: Command)
    ensures
        c@ == rsync_version_command(),
{
    let mut args: Vec<Vec<u8>> = Vec::new();
    push_text(&mut args, "--version");
    assert(parts(args@) == rsync_version_command().args);
    Command { program: Program::Rsync, args }
}

// ---------------------------------------------------------------------------
// What holds of every command
// ---------------------------------------------------------------------------

/// A file is removed on a host by a command line in which the shell reads, behind
/// the words of the command, the path and nothing else.
pub proof fn a_removal_names_its_path_alone(path: Seq<char>) -> (word: Seq<char>)
    ensures
        remove_line(path) == "rm -f "@ + word,
        shell_word(word, false) == Some(path),
{
    quoting_hides_everything_from_the_shell(path);
    quoted(path)
}

/// The files below a path are listed by a command line in which the shell reads
/// the path as one word; only files are listed, and complaints are dropped.
pub proof fn a_listing_names_its_path_alone(path: Seq<char>) -> (word: Seq<char>)
    ensures
        find_line(path) == "find "@ + word + " -type f 2>/dev/null"@,
        shell_word(word, false) == Some(path),
{
    quoting_hides_everything_from_the_shell(path);
    quoted(path)
}

/// Whether something is at a path is asked by a command line in which the shell
/// reads the path as one word.
pub proof fn a_question_names_its_path_alone(path: Seq<char>) -> (word: Seq<char>)
    ensures
        exists_line(path) == "test -e "@ + word,
        shell_word(word, false) == Some(path),
{
    quoting_hides_everything_from_the_shell(path);
    quoted(path)
}

/// A file is hashed by a command line in which the shell reads the path as one
/// word, for the one program as for the other, which is run if the first fails.
pub proof fn a_hashing_names_its_path_twice(path: Seq<char>) -> (word: Seq<char>)
    ensures
        hash_line(path) == "sha256sum "@ + word + " 2>/dev/null || shasum -a 256 "@ + word
            + " 2>/dev/null"@,
        shell_word(word, false) == Some(path),
{
    quoting_hides_everything_from_the_shell(path);
    quoted(path)
}

/// Directories are made by a command line in which the shell reads each of them
/// as one word, in their order.
pub proof fn directories_are_named_one_by_one(dirs: Seq<Seq<char>>) -> (words: Seq<Seq<char>>)
    ensures
        words.len() == dirs.len(),
        mkdir_line(dirs) == "mkdir -p "@ + join(words, " "@),
        forall|i: int|
            0 <= i < dirs.len() ==> shell_word(#[trigger] words[i], false) == Some(dirs[i]),
{
    let words = all_quoted(dirs);
    assert forall|i: int| 0 <= i < dirs.len() implies shell_word(#[trigger] words[i], false)
        == Some(dirs[i]) by {
        quoting_hides_everything_from_the_shell(dirs[i]);
    }
    words
}

/// A command line is run on the host that is named, over the connection that all
/// calls share.
pub proof fn a_command_line_runs_on_its_host(host: Seq<char>, line: Seq<char>)
    ensures
        greeting_line() == "echo ok"@,
        ssh_command(host, line).program == Program::Ssh,
        ssh_command(host, line).args == seq![
            encode_utf8("-o"@),
            encode_utf8("ControlMaster=auto"@),
            encode_utf8("-o"@),
            encode_utf8("ControlPath=/tmp/kosmokopy_ssh_%h_%p_%r"@),
            encode_utf8("-o"@),
            encode_utf8("ControlPersist=60"@),
            encode_utf8(host),
            encode_utf8(line),
        ],
{
}

/// Bytes go from the first path to the second, whichever program moves them, and
/// over the shared connection where there is a host.
pub proof fn bytes_go_from_the_first_path_to_the_second(from: Seq<u8>, to: Seq<u8>)
    ensures
        scp_command(from, to).program == Program::Scp,
        scp_command(from, to).args == seq![
            encode_utf8("-o"@),
            encode_utf8("ControlMaster=auto"@),
            encode_utf8("-o"@),
            encode_utf8("ControlPath=/tmp/kosmokopy_ssh_%h_%p_%r"@),
            encode_utf8("-o"@),
            encode_utf8("ControlPersist=60"@),
            encode_utf8("-q"@),
            from,
            to,
        ],
        rsync_command(from, to).program == Program::Rsync,
        rsync_command(from, to).args == seq![
            encode_utf8("-az"@),
            encode_utf8("--checksum"@),
            encode_utf8("-e"@),
            encode_utf8(
                "ssh -o ControlMaster=auto -o ControlPath=/tmp/kosmokopy_ssh_%h_%p_%r -o ControlPersist=60"@,
            ),
            from,
            to,
        ],
        local_rsync_command(from, to).program == Program::Rsync,
        local_rsync_command(from, to).args == seq![
            encode_utf8("-a"@),
            encode_utf8("--checksum"@),
            from,
            to,
        ],
        rsync_version_command().program == Program::Rsync,
        rsync_version_command().args == seq![encode_utf8("--version"@)],
{
}

/// Programs are run under their names.
pub proof fn programs_go_by_their_names()
    ensures
        Program::Ssh.spec_name() == "ssh"@,
        Program::Scp.spec_name() == "scp"@,
        Program::Rsync.spec_name() == "rsync"@,
{
}

/// A path on a host is handed to programs as it is typed in: host and path are
/// found in it again.
pub proof fn endpoints_read_back(host: Seq<char>, path: Seq<char>)
    requires
        host.len() > 0,
        path.len() > 0,
        !host.contains(':'),
        !host.contains('/'),
    ensures
        endpoint(host, path) == encode_utf8(host + seq![':'] + path),
        destination(utf8_lossy(endpoint(host, path))) == (Some(host), path),
{
    reveal_strlit(":");
    assert(":"@ == seq![':']);
    let text = host + ":"@ + path;
    assert(text == host.push(':') + path);
    encode_utf8_valid_utf8(text);
    encode_utf8_decode_utf8(text);
    host_and_path_are_found(host, path);
}

} // verus!
