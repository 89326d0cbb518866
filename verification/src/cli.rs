//! The command line: its options, and the request that they make.

use vstd::prelude::*;
use vstd::utf8::*;

use crate::exclusion::{parse_entries, Entry};
#[allow(unused_imports)]
use crate::exclusion::{entries_of, entry_models, EntryModel};
#[allow(unused_imports)]
use crate::paths::parts;
use crate::request::{
    parse_destination, ConflictMode, SourceSelection, TransferMethod, TransferMode,
};
#[allow(unused_imports)]
use crate::request::{destination, opt_text, SourceModel};
use crate::text::{chars_of, concat2, owned, same_text, split_chars, text_of, trim_chars};
#[allow(unused_imports)]
use crate::text::{pieces, split, texts, trimmed};

verus! {

/// What the options on the command line have set.
#[derive(Debug)]
pub struct Options {
    pub src: Option<String>,
    pub dst: Option<String>,
    pub do_move: bool,
    pub conflict: ConflictMode,
    pub strip_spaces: bool,
    pub mode: TransferMode,
    pub method: TransferMethod,
    pub patterns: Vec<String>,
    pub src_files: Option<Vec<Vec<u8>>>,
}

/// The value of `Options`.
pub struct OptionsModel {
    pub src: Option<Seq<char>>,
    pub dst: Option<Seq<char>>,
    pub do_move: bool,
    pub conflict: ConflictMode,
    pub strip_spaces: bool,
    pub mode: TransferMode,
    pub method: TransferMethod,
    pub patterns: Seq<Seq<char>>,
    pub src_files: Option<Seq<Seq<u8>>>,
}

/// The paths of an optional list.
pub open spec fn opt_parts(o: Option<Vec<Vec<u8>>>) -> Option<Seq<Seq<u8>>> {
    match o {
        Some(v) => Some(parts(v@)),
        None => None,
    }
}

impl View for Options {
    type V = OptionsModel;

    open spec fn view(&self) -> OptionsModel {
        OptionsModel {
            src: opt_text(self.src),
            dst: opt_text(self.dst),
            do_move: self.do_move,
            conflict: self.conflict,
            strip_spaces: self.strip_spaces,
            mode: self.mode,
            method: self.method,
            patterns: texts(self.patterns@),
            src_files: opt_parts(self.src_files),
        }
    }
}

/// What holds before any option is read.
pub open spec fn defaults() -> OptionsModel {
    OptionsModel {
        src: None,
        dst: None,
        do_move: false,
        conflict: ConflictMode::Skip,
        strip_spaces: false,
        mode: TransferMode::FoldersAndFiles,
        method: TransferMethod::Standard,
        patterns: Seq::empty(),
        src_files: None,
    }
}

/// The conflict mode that a word names.
pub open spec fn conflict_named(word: Seq<char>) -> ConflictMode {
    if word == "overwrite"@ {
        ConflictMode::Overwrite
    } else if word == "rename"@ {
        ConflictMode::Rename
    } else {
        ConflictMode::Skip
    }
}

/// The transfer mode that a word names.
pub open spec fn mode_named(word: Seq<char>) -> TransferMode {
    if word == "files"@ {
        TransferMode::FilesOnly
    } else {
        TransferMode::FoldersAndFiles
    }
}

/// The transfer method that a word names.
pub open spec fn method_named(word: Seq<char>) -> TransferMethod {
    if word == "rsync"@ {
        TransferMethod::Rsync
    } else {
        TransferMethod::Standard
    }
}

/// The paths in a list with commas between them.
pub open spec fn listed_files(list: Seq<char>) -> Seq<Seq<u8>> {
    split(list, ',').map_values(|piece: Seq<char>| encode_utf8(trimmed(piece)))
}

/// Whether the word is an option that takes the next argument.
pub open spec fn takes_value(word: Seq<char>) -> bool {
    ||| word == "--src"@
    ||| word == "--dst"@
    ||| word == "--conflict"@
    ||| word == "--mode"@
    ||| word == "--method"@
    ||| word == "--exclude"@
    ||| word == "--src-files"@
}

/// Whether the word is an option that stands alone.
pub open spec fn is_switch(word: Seq<char>) -> bool {
    word == "--move"@ || word == "--strip-spaces"@
}

/// What an option that stands alone sets.
pub open spec fn with_switch(o: OptionsModel, word: Seq<char>) -> OptionsModel {
    if word == "--move"@ {
        OptionsModel { do_move: true, ..o }
    } else {
        OptionsModel { strip_spaces: true, ..o }
    }
}

/// What an option sets with the argument behind it, if there is one.
pub open spec fn with_value(
    o: OptionsModel,
    word: Seq<char>,
    value: Option<Seq<char>>,
) -> OptionsModel {
    if word == "--src"@ {
        OptionsModel { src: value, ..o }
    } else if word == "--dst"@ {
        OptionsModel { dst: value, ..o }
    } else {
        match value {
            None => o,
            Some(v) => if word == "--conflict"@ {
                OptionsModel { conflict: conflict_named(v), ..o }
            } else if word == "--mode"@ {
                OptionsModel { mode: mode_named(v), ..o }
            } else if word == "--method"@ {
                OptionsModel { method: method_named(v), ..o }
            } else if word == "--exclude"@ {
                OptionsModel { patterns: o.patterns.push(v), ..o }
            } else {
                OptionsModel { src_files: Some(listed_files(v)), ..o }
            },
        }
    }
}

/// What the arguments from the `i`th on set, or the first one that is no option.
pub open spec fn read_options(args: Seq<Seq<char>>, i: nat, o: OptionsModel) -> Result<
    OptionsModel,
    Seq<char>,
>
    decreases args.len() + 1 - i,
{
    if i >= args.len() {
        Ok(o)
    } else if is_switch(args[i as int]) {
        read_options(args, i + 1, with_switch(o, args[i as int]))
    } else if takes_value(args[i as int]) {
        let value = if i + 1 < args.len() {
            Some(args[i as int + 1])
        } else {
            None
        };
        read_options(args, i + 2, with_value(o, args[i as int], value))
    } else {
        Err(args[i as int])
    }
}

/// The paths in a list with commas between them.
pub fn listed_paths(list: &str) -> (r: Vec<Vec<u8>>)
    ensures
        parts(r@) == listed_files(list@),
{
    let s = chars_of(list);
    let words = split_chars(&s, ',');
    let ghost all = split(list@, ',');
    assert(all.len() == words@.len()) by {
        assert(pieces(words@).len() == words@.len());
    }
    let mut r: Vec<Vec<u8>> = Vec::new();
    let mut i: usize = 0;
    assert(parts(r@) == listed_files(list@).take(0));
    while i < words.len()
        invariant
            i <= words@.len(),
            all == split(list@, ','),
            all == pieces(words@),
            all.len() == words@.len(),
            parts(r@) == listed_files(list@).take(i as int),
        decreases words@.len() - i,
    {
        let name = text_of(&trim_chars(&words[i]));
        let bytes = name.as_str().as_bytes();
        assert(all[i as int] == words@[i as int]@);
        assert(bytes@ == listed_files(list@)[i as int]);
        let ghost before = r@;
        let path = crate::text::part(bytes, 0, bytes.len());
        assert(path@ == bytes@);
        r.push(path);
        assert(parts(r@) == parts(before).push(path@));
        assert(listed_files(list@).take(i + 1) == listed_files(list@).take(i as int).push(
            listed_files(list@)[i as int],
        ));
        i += 1;
    }
    assert(listed_files(list@).take(i as int) == listed_files(list@));
    r
}

fn value_at(args: &[String], i: usize) -> (r: Option<String>)
    ensures
        opt_text(r) == (if i < args@.len() {
            Some(texts(args@)[i as int])
        } else {
            None
        }),
{
    if i < args.len() {
        Some(args[i].clone())
    } else {
        None
    }
}

fn conflict_of(word: &str) -> (r: ConflictMode)
    ensures
        r == conflict_named(word@),
{
    if same_text(word, "overwrite") {
        ConflictMode::Overwrite
    } else if same_text(word, "rename") {
        ConflictMode::Rename
    } else {
        ConflictMode::Skip
    }
}

/// What the arguments set, or the first one that is no option.
pub fn parse_options(args: &[String]) -> (r: Result<Options, String>)
    ensures
        (match r {
            Ok(o) => Ok(o@),
            Err(e) => Err(e@),
        }) == read_options(texts(args@), 0, defaults()),
{
    let mut o = Options {
        src: None,
        dst: None,
        do_move: false,
        conflict: ConflictMode::Skip,
        strip_spaces: false,
        mode: TransferMode::FoldersAndFiles,
        method: TransferMethod::Standard,
        patterns: Vec::new(),
        src_files: None,
    };
    assert(texts(o.patterns@) == Seq::<Seq<char>>::empty());
    let ghost all = texts(args@);
    assert(all.len() == args@.len());
    let mut i: usize = 0;
    while i < args.len()
        invariant
            all == texts(args@),
            all.len() == args@.len(),
            read_options(all, 0, defaults()) == read_options(all, i as nat, o@),
        decreases args@.len() - i,
    {
        proof {
            reveal_strlit("--src");
            reveal_strlit("--dst");
            reveal_strlit("--move");
            reveal_strlit("--conflict");
            reveal_strlit("--strip-spaces");
            reveal_strlit("--mode");
            reveal_strlit("--method");
            reveal_strlit("--exclude");
            reveal_strlit("--src-files");
        }
        let word = args[i].as_str();
        assert(all[i as int] == word@);
        let ghost before = o@;
        if same_text(word, "--move") {
            o.do_move = true;
            assert(o@ == with_switch(before, word@));
            i += 1;
            continue;
        }
        if same_text(word, "--strip-spaces") {
            o.strip_spaces = true;
            assert(o@ == with_switch(before, word@));
            i += 1;
            continue;
        }
        let next = value_at(args, i + 1);
        let ghost value = opt_text(next);
        if same_text(word, "--src") {
            o.src = next;
        } else if same_text(word, "--dst") {
            o.dst = next;
        } else if same_text(word, "--conflict") {
            if let Some(v) = &next {
                o.conflict = conflict_of(v.as_str());
            }
        } else if same_text(word, "--mode") {
            if let Some(v) = &next {
                o.mode = if same_text(v.as_str(), "files") {
                    TransferMode::FilesOnly
                } else {
                    TransferMode::FoldersAndFiles
                };
            }
        } else if same_text(word, "--method") {
            if let Some(v) = &next {
                o.method = if same_text(v.as_str(), "rsync") {
                    TransferMethod::Rsync
                } else {
                    TransferMethod::Standard
                };
            }
        } else if same_text(word, "--exclude") {
            if let Some(v) = next {
                let ghost so_far = o.patterns@;
                o.patterns.push(v);
                assert(texts(o.patterns@) == texts(so_far).push(v@));
            }
        } else if same_text(word, "--src-files") {
            if let Some(v) = &next {
                o.src_files = Some(listed_paths(v.as_str()));
            }
        } else {
            return Err(owned(word));
        }
        assert(o@ == with_value(before, word@, value));
        if args.len() - i <= 1 {
            assert(read_options(all, (i + 2) as nat, o@) == Ok::<OptionsModel, Seq<char>>(o@));
            assert(read_options(all, 0, defaults()) == Ok::<OptionsModel, Seq<char>>(o@));
            return Ok(o);
        }
        i += 2;
    }
    Ok(o)
}

// ---------------------------------------------------------------------------
// The request
// ---------------------------------------------------------------------------

/// Why a command line makes no request.
#[derive(Debug)]
pub enum UsageError {
    UnknownOption(String),
    NoDestination,
    NoSource,
}

/// The value of a `UsageError`.
pub enum UsageErrorModel {
    UnknownOption(Seq<char>),
    NoDestination,
    NoSource,
}

impl View for UsageError {
    type V = UsageErrorModel;

    open spec fn view(&self) -> UsageErrorModel {
        match self {
            UsageError::UnknownOption(o) => UsageErrorModel::UnknownOption(o@),
            UsageError::NoDestination => UsageErrorModel::NoDestination,
            UsageError::NoSource => UsageErrorModel::NoSource,
        }
    }
}

/// What the user is told of a command line that makes no request.
pub open spec fn usage_message(e: UsageErrorModel) -> Seq<char> {
    match e {
        UsageErrorModel::UnknownOption(o) => "Unknown option: "@ + o,
        UsageErrorModel::NoDestination => "--dst is required"@,
        UsageErrorModel::NoSource => "--src or --src-files is required"@,
    }
}

impl UsageError {
    /// What the user is told.
    pub fn message(&self) -> (r: String)
        ensures
            r@ == usage_message(self@),
    {
        match self {
            UsageError::UnknownOption(o) => concat2("Unknown option: ", o.as_str()),
            UsageError::NoDestination => owned("--dst is required"),
            UsageError::NoSource => owned("--src or --src-files is required"),
        }
    }
}

/// Where the source of a request is taken from: a list of files goes before
/// a directory or a remote path.
pub open spec fn source_of(o: OptionsModel) -> Option<SourceModel> {
    match o.src_files {
        Some(files) => Some(SourceModel::Files(files)),
        None => match o.src {
            None => None,
            Some(s) => match destination(s) {
                (Some(host), path) => Some(SourceModel::Remote(host, path)),
                (None, path) => Some(SourceModel::Directory(encode_utf8(path))),
            },
        },
    }
}

/// A request: the source, the text of the destination, and the options.
#[derive(Debug)]
pub struct Request {
    pub source: SourceSelection,
    pub dst: String,
    pub do_move: bool,
    pub conflict: ConflictMode,
    pub strip_spaces: bool,
    pub mode: TransferMode,
    pub method: TransferMethod,
    pub patterns: Vec<Entry>,
}

/// The value of a `Request`.
pub struct RequestModel {
    pub source: SourceModel,
    pub dst: Seq<char>,
    pub do_move: bool,
    pub conflict: ConflictMode,
    pub strip_spaces: bool,
    pub mode: TransferMode,
    pub method: TransferMethod,
    pub patterns: Seq<EntryModel>,
}

impl View for Request {
    type V = RequestModel;

    open spec fn view(&self) -> RequestModel {
        RequestModel {
            source: self.source@,
            dst: self.dst@,
            do_move: self.do_move,
            conflict: self.conflict,
            strip_spaces: self.strip_spaces,
            mode: self.mode,
            method: self.method,
            patterns: entry_models(self.patterns@),
        }
    }
}

/// The request that a command line makes.
pub open spec fn request_of(args: Seq<Seq<char>>) -> Result<RequestModel, UsageErrorModel> {
    match read_options(args, 0, defaults()) {
        Err(word) => Err(UsageErrorModel::UnknownOption(word)),
        Ok(o) => match o.dst {
            None => Err(UsageErrorModel::NoDestination),
            Some(dst) => match source_of(o) {
                None => Err(UsageErrorModel::NoSource),
                Some(source) => Ok(
                    RequestModel {
                        source,
                        dst,
                        do_move: o.do_move,
                        conflict: o.conflict,
                        strip_spaces: o.strip_spaces,
                        mode: o.mode,
                        method: o.method,
                        patterns: entries_of(o.patterns),
                    },
                ),
            },
        },
    }
}

/// The request that a command line makes.
pub fn parse_request(args: &[String]) -> (r: Result<Request, UsageError>)
    ensures
        (match r {
            Ok(q) => Ok(q@),
            Err(e) => Err(e@),
        }) == request_of(texts(args@)),
{
    let o = match parse_options(args) {
        Ok(o) => o,
        Err(word) => {
            return Err(UsageError::UnknownOption(word));
        },
    };
    let ghost set = o@;
    let dst = match o.dst {
        Some(d) => d,
        None => {
            return Err(UsageError::NoDestination);
        },
    };
    let source = match o.src_files {
        Some(files) => SourceSelection::Files(files),
        None => match o.src {
            None => {
                return Err(UsageError::NoSource);
            },
            Some(s) => {
                let (host, path) = parse_destination(s.as_str());
                match host {
                    Some(h) => SourceSelection::Remote(h, path),
                    None => {
                        let bytes = path.as_str().as_bytes();
                        let dir = crate::text::part(bytes, 0, bytes.len());
                        assert(dir@ == bytes@);
                        SourceSelection::Directory(dir)
                    },
                }
            },
        },
    };
    assert(source_of(set) == Some(source@));
    Ok(
        Request {
            source,
            dst,
            do_move: o.do_move,
            conflict: o.conflict,
            strip_spaces: o.strip_spaces,
            mode: o.mode,
            method: o.method,
            patterns: parse_entries(&o.patterns),
        },
    )
}

// ---------------------------------------------------------------------------
// What holds of every command line
// ---------------------------------------------------------------------------

/// What the arguments from one on set is what these arguments set by themselves.
proof fn options_go_by_what_follows(args: Seq<Seq<char>>, i: nat, o: OptionsModel)
    requires
        i <= args.len(),
    ensures
        read_options(args, i, o) == read_options(args.skip(i as int), 0, o),
    decreases args.len() - i,
{
    let rest = args.skip(i as int);
    if i < args.len() {
        let word = args[i as int];
        assert(rest[0] == word);
        if is_switch(word) {
            let set = with_switch(o, word);
            options_go_by_what_follows(args, i + 1, set);
            options_go_by_what_follows(rest, 1, set);
            assert(rest.skip(1) == args.skip((i + 1) as int));
            assert(read_options(args, i, o) == read_options(args, i + 1, set));
            assert(read_options(rest, 0, o) == read_options(rest, 1, set));
        } else if takes_value(word) {
            let value = if i + 1 < args.len() {
                Some(args[i as int + 1])
            } else {
                None
            };
            let set = with_value(o, word, value);
            if i + 1 < args.len() {
                assert(rest[1] == args[i as int + 1]);
                options_go_by_what_follows(args, i + 2, set);
                options_go_by_what_follows(rest, 2, set);
                assert(rest.skip(2) == args.skip((i + 2) as int));
            } else {
                assert(read_options(args, i + 2, set) == Ok::<OptionsModel, Seq<char>>(set));
                assert(read_options(rest, 2, set) == Ok::<OptionsModel, Seq<char>>(set));
            }
            assert(read_options(args, i, o) == read_options(args, i + 2, set));
            assert(read_options(rest, 0, o) == read_options(rest, 2, set));
        } else {
            assert(read_options(args, i, o) == Err::<OptionsModel, Seq<char>>(word));
            assert(read_options(rest, 0, o) == Err::<OptionsModel, Seq<char>>(word));
        }
    } else {
        assert(rest.len() == 0);
    }
}

proof fn options_are_different_words()
    ensures
        "--src"@.len() == 5,
        "--dst"@.len() == 5,
        "--src"@[2] != "--dst"@[2],
        "--move"@.len() == 6,
        "--mode"@.len() == 6,
        "--move"@[4] != "--mode"@[4],
        "--method"@.len() == 8,
        "--exclude"@.len() == 9,
        "--conflict"@.len() == 10,
        "--src-files"@.len() == 11,
        "--strip-spaces"@.len() == 14,
{
    reveal_strlit("--src");
    reveal_strlit("--dst");
    reveal_strlit("--move");
    reveal_strlit("--mode");
    reveal_strlit("--method");
    reveal_strlit("--exclude");
    reveal_strlit("--conflict");
    reveal_strlit("--src-files");
    reveal_strlit("--strip-spaces");
}

/// Without options files are copied, not moved, nothing that is there is touched,
/// names stay as they are, directories are kept, and nothing is left out.
pub proof fn without_options_files_are_copied_beside_what_is_there()
    ensures
        read_options(Seq::empty(), 0, defaults()) == Ok::<OptionsModel, Seq<char>>(defaults()),
        !defaults().do_move,
        defaults().conflict == ConflictMode::Skip,
        !defaults().strip_spaces,
        defaults().mode == TransferMode::FoldersAndFiles,
        defaults().method == TransferMethod::Standard,
        defaults().patterns.len() == 0,
        defaults().src is None,
        defaults().dst is None,
        defaults().src_files is None,
{
}

/// An option that stands alone sets its own part of the options and leaves the
/// rest to what follows.
pub proof fn switches_set_what_they_name(rest: Seq<Seq<char>>, o: OptionsModel)
    ensures
        read_options(seq!["--move"@] + rest, 0, o) == read_options(
            rest,
            0,
            OptionsModel { do_move: true, ..o },
        ),
        read_options(seq!["--strip-spaces"@] + rest, 0, o) == read_options(
            rest,
            0,
            OptionsModel { strip_spaces: true, ..o },
        ),
{
    options_are_different_words();
    let a = seq!["--move"@] + rest;
    let b = seq!["--strip-spaces"@] + rest;
    assert(a[0] == "--move"@);
    assert(b[0] == "--strip-spaces"@);
    options_go_by_what_follows(a, 1, OptionsModel { do_move: true, ..o });
    options_go_by_what_follows(b, 1, OptionsModel { strip_spaces: true, ..o });
    assert(a.skip(1) == rest);
    assert(b.skip(1) == rest);
}

proof fn an_option_takes_the_next_argument(
    word: Seq<char>,
    v: Seq<char>,
    rest: Seq<Seq<char>>,
    o: OptionsModel,
)
    requires
        takes_value(word),
        !is_switch(word),
    ensures
        read_options(seq![word, v] + rest, 0, o) == read_options(
            rest,
            0,
            with_value(o, word, Some(v)),
        ),
{
    let a = seq![word, v] + rest;
    assert(a[0] == word);
    assert(a[1] == v);
    options_go_by_what_follows(a, 2, with_value(o, word, Some(v)));
    assert(a.skip(2) == rest);
}

/// An option that takes the next argument sets its own part of the options to
/// it, and leaves the rest to what follows.
pub proof fn options_set_what_they_name(v: Seq<char>, rest: Seq<Seq<char>>, o: OptionsModel)
    ensures
        read_options(seq!["--src"@, v] + rest, 0, o) == read_options(
            rest,
            0,
            OptionsModel { src: Some(v), ..o },
        ),
        read_options(seq!["--dst"@, v] + rest, 0, o) == read_options(
            rest,
            0,
            OptionsModel { dst: Some(v), ..o },
        ),
        read_options(seq!["--exclude"@, v] + rest, 0, o) == read_options(
            rest,
            0,
            OptionsModel { patterns: o.patterns + seq![v], ..o },
        ),
        read_options(seq!["--src-files"@, v] + rest, 0, o) == read_options(
            rest,
            0,
            OptionsModel { src_files: Some(listed_files(v)), ..o },
        ),
        read_options(seq!["--conflict"@, v] + rest, 0, o) == read_options(
            rest,
            0,
            OptionsModel {
                conflict: if v == "overwrite"@ {
                    ConflictMode::Overwrite
                } else if v == "rename"@ {
                    ConflictMode::Rename
                } else {
                    ConflictMode::Skip
                },
                ..o
            },
        ),
        read_options(seq!["--mode"@, v] + rest, 0, o) == read_options(
            rest,
            0,
            OptionsModel {
                mode: if v == "files"@ {
                    TransferMode::FilesOnly
                } else {
                    TransferMode::FoldersAndFiles
                },
                ..o
            },
        ),
        read_options(seq!["--method"@, v] + rest, 0, o) == read_options(
            rest,
            0,
            OptionsModel {
                method: if v == "rsync"@ {
                    TransferMethod::Rsync
                } else {
                    TransferMethod::Standard
                },
                ..o
            },
        ),
{
    options_are_different_words();
    an_option_takes_the_next_argument("--src"@, v, rest, o);
    an_option_takes_the_next_argument("--dst"@, v, rest, o);
    an_option_takes_the_next_argument("--exclude"@, v, rest, o);
    an_option_takes_the_next_argument("--src-files"@, v, rest, o);
    an_option_takes_the_next_argument("--conflict"@, v, rest, o);
    an_option_takes_the_next_argument("--mode"@, v, rest, o);
    an_option_takes_the_next_argument("--method"@, v, rest, o);
    assert(o.patterns.push(v) == o.patterns + seq![v]);
}

/// An option that stands last and lacks its argument sets nothing; a source or a
/// destination that was given before it is given no more.
pub proof fn an_option_without_its_argument_sets_nothing(word: Seq<char>, o: OptionsModel)
    ensures
        word == "--src"@ ==> read_options(seq![word], 0, o) == Ok::<OptionsModel, Seq<char>>(
            OptionsModel { src: None, ..o },
        ),
        word == "--dst"@ ==> read_options(seq![word], 0, o) == Ok::<OptionsModel, Seq<char>>(
            OptionsModel { dst: None, ..o },
        ),
        word == "--conflict"@ || word == "--mode"@ || word == "--method"@ || word == "--exclude"@
            || word == "--src-files"@ ==> read_options(seq![word], 0, o) == Ok::<
            OptionsModel,
            Seq<char>,
        >(o),
{
    options_are_different_words();
    let a = seq![word];
    assert(a[0] == word);
    reveal_with_fuel(read_options, 2);
}

/// The first word that is no option is refused, wherever it stands.
pub proof fn words_that_are_no_options_are_refused(
    word: Seq<char>,
    rest: Seq<Seq<char>>,
    o: OptionsModel,
)
    requires
        word != "--src"@,
        word != "--dst"@,
        word != "--move"@,
        word != "--mode"@,
        word != "--method"@,
        word != "--exclude"@,
        word != "--conflict"@,
        word != "--src-files"@,
        word != "--strip-spaces"@,
    ensures
        read_options(seq![word] + rest, 0, o) == Err::<OptionsModel, Seq<char>>(word),
{
    assert((seq![word] + rest)[0] == word);
}

/// Nothing happens to files that was not asked for: they are moved only with
/// `--move` on the command line, something is overwritten or renamed only with
/// `--conflict`, and spaces are removed only with `--strip-spaces`.
pub proof fn nothing_is_done_unasked(args: Seq<Seq<char>>)
    requires
        request_of(args) is Ok,
    ensures
        request_of(args)->Ok_0.do_move ==> args.contains("--move"@),
        request_of(args)->Ok_0.conflict != ConflictMode::Skip ==> args.contains("--conflict"@),
        request_of(args)->Ok_0.strip_spaces ==> args.contains("--strip-spaces"@),
        request_of(args)->Ok_0.mode != TransferMode::FoldersAndFiles ==> args.contains("--mode"@),
        request_of(args)->Ok_0.method != TransferMethod::Standard ==> args.contains("--method"@),
        request_of(args)->Ok_0.patterns.len() > 0 ==> args.contains("--exclude"@),
{
    options_change_only_by_their_words(args, 0, defaults());
}

proof fn options_change_only_by_their_words(args: Seq<Seq<char>>, i: nat, o: OptionsModel)
    requires
        read_options(args, i, o) is Ok,
    ensures
        ({
            let r = read_options(args, i, o)->Ok_0;
            &&& r.do_move != o.do_move ==> args.contains("--move"@)
            &&& r.conflict != o.conflict ==> args.contains("--conflict"@)
            &&& r.strip_spaces != o.strip_spaces ==> args.contains("--strip-spaces"@)
            &&& r.mode != o.mode ==> args.contains("--mode"@)
            &&& r.method != o.method ==> args.contains("--method"@)
            &&& r.patterns != o.patterns ==> args.contains("--exclude"@)
        }),
    decreases args.len() + 1 - i,
{
    if i < args.len() {
        options_are_different_words();
        let word = args[i as int];
        assert(args.contains(word));
        if is_switch(word) {
            options_change_only_by_their_words(args, i + 1, with_switch(o, word));
        } else {
            let value = if i + 1 < args.len() {
                Some(args[i as int + 1])
            } else {
                None
            };
            options_change_only_by_their_words(args, i + 2, with_value(o, word, value));
        }
    }
}

/// A request holds what the options have set; a list of files goes before a
/// source that is a directory or on a host.
pub proof fn a_request_holds_what_the_options_set(
    args: Seq<Seq<char>>,
    o: OptionsModel,
    host: Seq<char>,
    path: Seq<char>,
)
    requires
        read_options(args, 0, defaults()) == Ok::<OptionsModel, Seq<char>>(o),
    ensures
        o.dst is None ==> request_of(args) == Err::<RequestModel, UsageErrorModel>(
            UsageErrorModel::NoDestination,
        ),
        o.dst is Some && o.src is None && o.src_files is None ==> request_of(args) == Err::<
            RequestModel,
            UsageErrorModel,
        >(UsageErrorModel::NoSource),
        o.dst is Some && (o.src is Some || o.src_files is Some) ==> request_of(args) is Ok,
        request_of(args) is Ok ==> {
            let q = request_of(args)->Ok_0;
            &&& Some(q.dst) == o.dst
            &&& q.do_move == o.do_move
            &&& q.conflict == o.conflict
            &&& q.strip_spaces == o.strip_spaces
            &&& q.mode == o.mode
            &&& q.method == o.method
            &&& q.patterns == entries_of(o.patterns)
            &&& o.src_files is Some ==> q.source == SourceModel::Files(o.src_files->0)
            &&& o.src_files is None && destination(o.src->0) == (Some(host), path) ==> q.source
                == SourceModel::Remote(host, path)
            &&& o.src_files is None && destination(o.src->0) == (None::<Seq<char>>, path)
                ==> q.source == SourceModel::Directory(encode_utf8(path))
        },
{
}

/// A command line with a word that is no option makes no request, and the word
/// is told.
pub proof fn what_is_wrong_with_a_command_line_is_told(args: Seq<Seq<char>>, word: Seq<char>)
    ensures
        read_options(args, 0, defaults()) == Err::<OptionsModel, Seq<char>>(word) ==> request_of(
            args,
        ) == Err::<RequestModel, UsageErrorModel>(UsageErrorModel::UnknownOption(word)),
        usage_message(UsageErrorModel::UnknownOption(word)) == "Unknown option: "@ + word,
        usage_message(UsageErrorModel::NoDestination) == "--dst is required"@,
        usage_message(UsageErrorModel::NoSource) == "--src or --src-files is required"@,
{
}

/// A list of files holds one path for each piece between commas, without the
/// white space around it.
pub proof fn listed_files_are_the_pieces_between_commas(list: Seq<char>, i: int)
    ensures
        listed_files(list).len() == split(list, ',').len(),
        0 <= i < listed_files(list).len() ==> listed_files(list)[i] == encode_utf8(
            trimmed(split(list, ',')[i]),
        ),
{
}

} // verus!
