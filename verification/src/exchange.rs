//! What a transfer and the world say to each other: the actions that it asks
//! for, the replies to them, and the messages about how it goes.

use vstd::prelude::*;

use crate::collect::Found;
#[allow(unused_imports)]
use crate::collect::FoundModel;
use crate::exclusion::Entry;
#[allow(unused_imports)]
use crate::exclusion::{entry_models, EntryModel};
use crate::shell::Command;
#[allow(unused_imports)]
use crate::shell::CommandModel;
use crate::text::copied_list;
#[allow(unused_imports)]
use crate::text::texts;

verus! {

// ---------------------------------------------------------------------------
// Messages
// ---------------------------------------------------------------------------

/// How many files were copied, and the notes about the others.
#[derive(Debug)]
pub struct Tally {
    pub copied: usize,
    pub skipped: Vec<String>,
    pub excluded_files: usize,
    pub excluded_dirs: usize,
    pub errors: Vec<String>,
}

/// The value of a `Tally`.
#[verifier::ext_equal]
pub struct TallyModel {
    pub copied: nat,
    pub skipped: Seq<Seq<char>>,
    pub excluded_files: nat,
    pub excluded_dirs: nat,
    pub errors: Seq<Seq<char>>,
}

impl View for Tally {
    type V = TallyModel;

    open spec fn view(&self) -> TallyModel {
        TallyModel {
            copied: self.copied as nat,
            skipped: texts(self.skipped@),
            excluded_files: self.excluded_files as nat,
            excluded_dirs: self.excluded_dirs as nat,
            errors: texts(self.errors@),
        }
    }
}

/// A tally of nothing.
pub open spec fn empty_tally() -> TallyModel {
    TallyModel {
        copied: 0,
        skipped: Seq::empty(),
        excluded_files: 0,
        excluded_dirs: 0,
        errors: Seq::empty(),
    }
}

impl Tally {
    /// A tally of nothing.
    pub fn new() -> (r: Tally)
        ensures
            r@ == empty_tally(),
    {
        let r = Tally {
            copied: 0,
            skipped: Vec::new(),
            excluded_files: 0,
            excluded_dirs: 0,
            errors: Vec::new(),
        };
        assert(r@ == empty_tally());
        r
    }

    /// A copy of a tally.
    pub fn copied_tally(&self) -> (r: Tally)
        ensures
            r@ == self@,
    {
        Tally {
            copied: self.copied,
            skipped: copied_list(&self.skipped),
            excluded_files: self.excluded_files,
            excluded_dirs: self.excluded_dirs,
            errors: copied_list(&self.errors),
        }
    }
}

/// What a transfer tells of itself. It ends with one of the last three.
#[derive(Debug)]
pub enum WorkerMsg {
    Progress { done: usize, total: usize, file: String },
    Finished(Tally),
    Cancelled(Tally),
    Error(String),
}

/// The value of a `WorkerMsg`.
pub enum MessageModel {
    Progress { done: nat, total: nat, file: Seq<char> },
    Finished(TallyModel),
    Cancelled(TallyModel),
    Error(Seq<char>),
}

impl View for WorkerMsg {
    type V = MessageModel;

    open spec fn view(&self) -> MessageModel {
        match self {
            WorkerMsg::Progress { done, total, file } => MessageModel::Progress {
                done: *done as nat,
                total: *total as nat,
                file: file@,
            },
            WorkerMsg::Finished(t) => MessageModel::Finished(t@),
            WorkerMsg::Cancelled(t) => MessageModel::Cancelled(t@),
            WorkerMsg::Error(e) => MessageModel::Error(e@),
        }
    }
}

// ---------------------------------------------------------------------------
// Actions and replies
// ---------------------------------------------------------------------------

/// What a transfer asks for. Paths are those of this machine.
#[derive(Debug)]
pub enum Action {
    /// Nothing is to be done.
    Pass,
    /// Run a command and hand back what it prints.
    Capture(Command),
    /// Run a command and hand back how it ends.
    Run(Command),
    /// Tell whether something is at a path.
    Exists(Vec<u8>),
    /// Make a directory and those that it lies in.
    MakeDirs(Vec<u8>),
    /// Tell whether two files hold the same bytes.
    SameContents(Vec<u8>, Vec<u8>),
    /// Tell whether two paths lead to the same file.
    SamePlace(Vec<u8>, Vec<u8>),
    /// Remove a file.
    RemoveFile(Vec<u8>),
    /// Rename a file.
    Rename(Vec<u8>, Vec<u8>),
    /// Copy a file.
    CopyFile(Vec<u8>, Vec<u8>),
    /// Hash a file.
    HashFile(Vec<u8>),
    /// Walk through a directory, with exclusions.
    Walk(Vec<u8>, Vec<Entry>),
    /// Make the directory in which files are staged.
    MakeStaging,
    /// Remove a directory and all that is in it.
    RemoveTree(Vec<u8>),
    /// Tell whether the transfer was cancelled.
    Poll,
    /// Pass a message on.
    Send(WorkerMsg),
    /// Stop asking.
    Stop,
}

/// The value of an `Action`.
pub enum ActionModel {
    Pass,
    Capture(CommandModel),
    Run(CommandModel),
    Exists(Seq<u8>),
    MakeDirs(Seq<u8>),
    SameContents(Seq<u8>, Seq<u8>),
    SamePlace(Seq<u8>, Seq<u8>),
    RemoveFile(Seq<u8>),
    Rename(Seq<u8>, Seq<u8>),
    CopyFile(Seq<u8>, Seq<u8>),
    HashFile(Seq<u8>),
    Walk(Seq<u8>, Seq<EntryModel>),
    MakeStaging,
    RemoveTree(Seq<u8>),
    Poll,
    Send(MessageModel),
    Stop,
}

impl View for Action {
    type V = ActionModel;

    open spec fn view(&self) -> ActionModel {
        match self {
            Action::Pass => ActionModel::Pass,
            Action::Capture(c) => ActionModel::Capture(c@),
            Action::Run(c) => ActionModel::Run(c@),
            Action::Exists(p) => ActionModel::Exists(p@),
            Action::MakeDirs(p) => ActionModel::MakeDirs(p@),
            Action::SameContents(a, b) => ActionModel::SameContents(a@, b@),
            Action::SamePlace(a, b) => ActionModel::SamePlace(a@, b@),
            Action::RemoveFile(p) => ActionModel::RemoveFile(p@),
            Action::Rename(a, b) => ActionModel::Rename(a@, b@),
            Action::CopyFile(a, b) => ActionModel::CopyFile(a@, b@),
            Action::HashFile(p) => ActionModel::HashFile(p@),
            Action::Walk(d, v) => ActionModel::Walk(d@, entry_models(v@)),
            Action::MakeStaging => ActionModel::MakeStaging,
            Action::RemoveTree(p) => ActionModel::RemoveTree(p@),
            Action::Poll => ActionModel::Poll,
            Action::Send(w) => ActionModel::Send(w@),
            Action::Stop => ActionModel::Stop,
        }
    }
}

/// What the world replies to an action.
#[derive(Debug)]
pub enum Reply {
    /// It was done.
    Did,
    /// It could not be done, for this reason.
    DidNot(String),
    /// It is so, or it is not.
    Told(bool),
    /// A command ended, successfully or not, with an exit code where it had one.
    Exited(bool, Option<i32>),
    /// A command ended, successfully or not, and has printed this.
    Printed { success: bool, stdout: Vec<u8>, stderr: Vec<u8> },
    /// The hash of a file.
    Hashed(String),
    /// What a walk has found.
    Walked(Found),
    /// The directory in which files are staged.
    Staged(Vec<u8>),
}

/// The value of a `Reply`.
pub enum ReplyModel {
    Did,
    DidNot(Seq<char>),
    Told(bool),
    Exited(bool, Option<i32>),
    Printed { success: bool, stdout: Seq<u8>, stderr: Seq<u8> },
    Hashed(Seq<char>),
    Walked(FoundModel),
    Staged(Seq<u8>),
}

impl View for Reply {
    type V = ReplyModel;

    open spec fn view(&self) -> ReplyModel {
        match self {
            Reply::Did => ReplyModel::Did,
            Reply::DidNot(e) => ReplyModel::DidNot(e@),
            Reply::Told(b) => ReplyModel::Told(*b),
            Reply::Exited(s, c) => ReplyModel::Exited(*s, *c),
            Reply::Printed { success, stdout, stderr } => ReplyModel::Printed {
                success: *success,
                stdout: stdout@,
                stderr: stderr@,
            },
            Reply::Hashed(h) => ReplyModel::Hashed(h@),
            Reply::Walked(f) => ReplyModel::Walked(f@),
            Reply::Staged(d) => ReplyModel::Staged(d@),
        }
    }
}

} // verus!
