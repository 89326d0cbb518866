use std::collections::{BTreeMap, BTreeSet};

use kosmokopy::cli::{parse_request, Request};
use kosmokopy::collect::Walk;
use kosmokopy::exchange::{Action, Reply, Tally, WorkerMsg};
use kosmokopy::integrity::FileHash;
use kosmokopy::shell::{Command, Program};
use kosmokopy::transfer::Transfer;

type Files = BTreeMap<String, Vec<u8>>;

/// A small world of files, here and on hosts.
struct World {
    here: Files,
    dirs: BTreeSet<String>,
    hosts: BTreeMap<String, Files>,
    /// Whether files can be renamed.
    renames: bool,
    /// Whether `rsync` is there.
    has_rsync: bool,
    /// What is written arrives with one byte more.
    corrupts: bool,
    /// Files that cannot be removed.
    stuck: BTreeSet<String>,
    /// Directories that cannot be made.
    walls: BTreeSet<String>,
    /// How the programs that copy end, where they fail.
    exit: Option<Option<i32>>,
    /// Whether the programs can be started at all.
    starts: bool,
    /// The poll at which the transfer is cancelled.
    cancel_at: usize,
    polls: usize,
    log: Vec<String>,
    messages: Vec<String>,
    last: Option<Tally>,
}

fn text(bytes: &[u8]) -> String {
    String::from_utf8(bytes.to_vec()).unwrap()
}

/// The file that a path leads to.
fn key(bytes: &[u8]) -> String {
    text(bytes).trim_start_matches("./").to_string()
}

/// The words of a command line of single-quoted words.
fn quoted_words(line: &str) -> Vec<String> {
    let mut all = Vec::new();
    let mut word = String::new();
    let mut inside = false;
    let mut open = false;
    let mut it = line.chars();
    while let Some(c) = it.next() {
        if c == '\'' {
            inside = !inside;
            open = true;
        } else if inside {
            word.push(c);
        } else if c == '\\' {
            word.push(it.next().unwrap());
        } else if open {
            all.push(word.clone());
            word.clear();
            open = false;
        }
    }
    if open {
        all.push(word);
    }
    all
}

impl World {
    fn new() -> World {
        World {
            here: BTreeMap::new(),
            dirs: BTreeSet::new(),
            hosts: BTreeMap::new(),
            renames: true,
            has_rsync: true,
            corrupts: false,
            stuck: BTreeSet::new(),
            walls: BTreeSet::new(),
            exit: None,
            starts: true,
            cancel_at: usize::MAX,
            polls: 0,
            log: Vec::new(),
            messages: Vec::new(),
            last: None,
        }
    }

    fn with(mut self, path: &str, data: &str) -> World {
        self.here.insert(path.to_string(), data.as_bytes().to_vec());
        self
    }

    fn host(mut self, name: &str, files: &[(&str, &str)]) -> World {
        let all = files.iter().map(|(p, d)| (p.to_string(), d.as_bytes().to_vec())).collect();
        self.hosts.insert(name.to_string(), all);
        self
    }

    fn read(&self, path: &str) -> Option<String> {
        self.here.get(path).map(|d| text(d))
    }

    fn read_on(&self, host: &str, path: &str) -> Option<String> {
        self.hosts[host].get(path).map(|d| text(d))
    }

    fn is_there(&self, path: &str) -> bool {
        let below = format!("{}/", path);
        self.here.contains_key(path)
            || self.dirs.contains(path)
            || self.here.keys().any(|k| k.starts_with(&below))
    }

    fn get(&self, end: &str) -> Option<Vec<u8>> {
        match end.split_once(':') {
            Some((host, path)) => self.hosts[host].get(path).cloned(),
            None => self.here.get(end).cloned(),
        }
    }

    fn put(&mut self, end: &str, mut data: Vec<u8>) {
        if self.corrupts {
            data.push(b'!');
        }
        match end.split_once(':') {
            Some((host, path)) => {
                self.hosts.get_mut(host).unwrap().insert(path.to_string(), data);
            }
            None => {
                self.here.insert(end.to_string(), data);
            }
        }
    }

    fn printed(success: bool, out: &str, err: &str) -> Reply {
        Reply::Printed {
            success,
            stdout: out.as_bytes().to_vec(),
            stderr: err.as_bytes().to_vec(),
        }
    }

    fn capture(&mut self, c: &Command) -> Reply {
        if !self.starts {
            return Reply::DidNot("no such program".to_string());
        }
        if c.program == Program::Rsync {
            return World::printed(self.has_rsync, "", "");
        }
        let host = text(&c.args[6]);
        let line = text(&c.args[7]);
        self.log.push(format!("{}> {}", host, line));
        if !self.hosts.contains_key(&host) {
            return World::printed(false, "", "unknown host\n");
        }
        let words = quoted_words(&line);
        if line.starts_with("find ") {
            let mut out = String::new();
            let below = format!("{}/", words[0].trim_end_matches('/'));
            for k in self.hosts[&host].keys() {
                if k.starts_with(&below) || *k == words[0] {
                    out.push_str(k);
                    out.push('\n');
                }
            }
            World::printed(true, &out, "")
        } else if line.starts_with("sha256sum ") {
            match self.hosts[&host].get(&words[0]) {
                Some(data) => {
                    let mut h = FileHash::new();
                    h.update(data);
                    World::printed(true, &format!("{}  {}\n", h.finish(), words[0]), "")
                }
                None => World::printed(false, "", "no such file\n"),
            }
        } else if line.starts_with("mkdir ") {
            let ok = words.iter().all(|w| !self.walls.contains(w));
            World::printed(ok, "", if ok { "" } else { "read-only\n" })
        } else {
            World::printed(true, "ok\n", "")
        }
    }

    fn run(&mut self, c: &Command) -> Reply {
        if !self.starts {
            return Reply::DidNot("no such program".to_string());
        }
        if c.program == Program::Ssh {
            let host = text(&c.args[6]);
            let line = text(&c.args[7]);
            self.log.push(format!("{}> {}", host, line));
            assert!(line.starts_with("rm -f "));
            let path = quoted_words(&line)[0].clone();
            if self.stuck.contains(&path) {
                return Reply::Exited(false, Some(1));
            }
            self.hosts.get_mut(&host).unwrap().remove(&path);
            return Reply::Exited(true, Some(0));
        }
        let from = text(&c.args[c.args.len() - 2]);
        let to = text(&c.args[c.args.len() - 1]);
        self.log.push(format!("{} {} -> {}", c.program.name(), from, to));
        if let Some(code) = self.exit {
            return Reply::Exited(false, code);
        }
        match self.get(&from) {
            Some(data) => {
                self.put(&to, data);
                Reply::Exited(true, Some(0))
            }
            None => Reply::Exited(false, Some(1)),
        }
    }

    fn walk_dir(&self, w: &mut Walk, dir: &str, is_root: bool) {
        let name = dir.rsplit('/').next().unwrap();
        if !w.enter(is_root, true, name.as_bytes()) {
            return;
        }
        let below = format!("{}/", dir);
        let mut subdirs = BTreeSet::new();
        for k in self.here.keys() {
            if let Some(rest) = k.strip_prefix(&below) {
                match rest.split_once('/') {
                    Some((sub, _)) => {
                        subdirs.insert(format!("{}{}", below, sub));
                    }
                    None => w.visit(true, rest.as_bytes(), k.as_bytes().to_vec()),
                }
            }
        }
        for s in subdirs {
            self.walk_dir(w, &s, false);
        }
    }

    fn perform(&mut self, action: Action) -> Reply {
        match action {
            Action::Pass => Reply::Did,
            Action::Capture(c) => self.capture(&c),
            Action::Run(c) => self.run(&c),
            Action::Exists(p) => Reply::Told(self.is_there(&key(&p))),
            Action::MakeDirs(p) => {
                let p = text(&p);
                if self.walls.contains(&p) {
                    return Reply::DidNot("permission denied".to_string());
                }
                self.dirs.insert(p);
                Reply::Did
            }
            Action::SameContents(a, b) => {
                match (self.here.get(&key(&a)), self.here.get(&key(&b))) {
                    (Some(x), Some(y)) => Reply::Told(x == y),
                    _ => Reply::DidNot("not found".to_string()),
                }
            }
            Action::SamePlace(a, b) => Reply::Told(key(&a) == key(&b)),
            Action::RemoveFile(p) => {
                let p = text(&p);
                self.log.push(format!("remove {}", p));
                if self.stuck.contains(&p) {
                    return Reply::DidNot("busy".to_string());
                }
                self.here.remove(&p);
                Reply::Did
            }
            Action::Rename(a, b) => {
                self.log.push(format!("rename {} -> {}", text(&a), text(&b)));
                if !self.renames {
                    return Reply::DidNot("another device".to_string());
                }
                let data = self.here.remove(&text(&a)).unwrap();
                self.here.insert(text(&b), data);
                Reply::Did
            }
            Action::CopyFile(a, b) => {
                self.log.push(format!("copy {} -> {}", text(&a), text(&b)));
                match self.get(&text(&a)) {
                    Some(data) => {
                        self.put(&text(&b), data);
                        Reply::Did
                    }
                    None => Reply::DidNot("not found".to_string()),
                }
            }
            Action::HashFile(p) => match self.here.get(&text(&p)) {
                Some(data) => {
                    let mut h = FileHash::new();
                    h.update(data);
                    Reply::Hashed(h.finish())
                }
                None => Reply::DidNot("not found".to_string()),
            },
            Action::Walk(dir, patterns) => {
                let mut w = Walk::new(&patterns);
                self.walk_dir(&mut w, &text(&dir), true);
                Reply::Walked(w.finish())
            }
            Action::MakeStaging => {
                if self.walls.contains("/tmp/stage") {
                    return Reply::DidNot("disk full".to_string());
                }
                Reply::Staged(b"/tmp/stage".to_vec())
            }
            Action::RemoveTree(p) => {
                self.log.push(format!("remove all {}", text(&p)));
                Reply::Did
            }
            Action::Poll => {
                self.polls += 1;
                Reply::Told(self.polls > self.cancel_at)
            }
            Action::Send(m) => {
                match m {
                    WorkerMsg::Progress { done, total, file } => {
                        self.messages.push(format!("{}/{} {}", done, total, file));
                    }
                    WorkerMsg::Finished(t) => {
                        self.messages.push("finished".to_string());
                        self.last = Some(t);
                    }
                    WorkerMsg::Cancelled(t) => {
                        self.messages.push("cancelled".to_string());
                        self.last = Some(t);
                    }
                    WorkerMsg::Error(e) => self.messages.push(format!("error {}", e)),
                }
                Reply::Did
            }
            Action::Stop => panic!("nothing more is to be done"),
        }
    }

    fn transfer(&mut self, args: &[&str]) {
        let mut t = Transfer::new(request(args));
        while !t.is_over() {
            let reply = self.perform(t.action());
            t = t.advance(reply).unwrap();
        }
        assert!(matches!(t.action(), Action::Stop));
    }

    fn tally(&self) -> &Tally {
        self.last.as_ref().unwrap()
    }
}

fn request(args: &[&str]) -> Request {
    let words: Vec<String> = args.iter().map(|s| s.to_string()).collect();
    parse_request(&words).unwrap()
}

const NONE: [&str; 0] = [];

#[test]
fn a_directory_is_copied_with_its_folders() {
    let mut w = World::new().with("/s/a", "1").with("/s/d/b", "2");
    w.transfer(&["--src", "/s", "--dst", "/t"]);
    assert_eq!(w.read("/t/s/a").unwrap(), "1");
    assert_eq!(w.read("/t/s/d/b").unwrap(), "2");
    assert_eq!(w.read("/s/a").unwrap(), "1");
    assert_eq!(w.messages, vec!["1/2 /s/a", "2/2 /s/d/b", "finished"]);
    let t = w.tally();
    assert_eq!(t.copied, 2);
    assert_eq!(t.skipped, NONE);
    assert_eq!(t.errors, NONE);
    assert!(w.dirs.contains("/t") && w.dirs.contains("/t/s/d"));
}

#[test]
fn a_directory_is_copied_flat_without_what_is_excluded() {
    let mut w = World::new()
        .with("/s/a", "1")
        .with("/s/d/b c", "2")
        .with("/s/target/x", "3")
        .with("/s/d/y.bak", "4");
    w.transfer(&[
        "--src", "/s", "--dst", "/t", "--mode", "files", "--exclude", "/target", "--exclude",
        "~*.bak", "--strip-spaces",
    ]);
    assert_eq!(w.read("/t/a").unwrap(), "1");
    assert_eq!(w.read("/t/bc").unwrap(), "2");
    let t = w.tally();
    assert_eq!((t.copied, t.excluded_files, t.excluded_dirs), (2, 1, 1));
    assert!(w.read("/t/x").is_none() && w.read("/t/y.bak").is_none());
}

#[test]
fn a_move_on_one_device_renames() {
    let mut w = World::new().with("/s/a", "1");
    w.transfer(&["--src", "/s", "--dst", "/t", "--move"]);
    assert_eq!(w.read("/t/s/a").unwrap(), "1");
    assert!(w.read("/s/a").is_none());
    assert_eq!(w.log, vec!["rename /s/a -> /t/s/a"]);
    assert_eq!(w.tally().copied, 1);
}

#[test]
fn a_move_between_devices_copies_and_removes() {
    let mut w = World::new().with("/s/a", "1");
    w.renames = false;
    w.transfer(&["--src", "/s", "--dst", "/t", "--move"]);
    assert!(w.read("/s/a").is_none());
    assert_eq!(
        w.log,
        vec!["rename /s/a -> /t/s/a", "copy /s/a -> /t/s/a", "remove /s/a"]
    );
    assert_eq!(w.tally().copied, 1);
    let mut w = World::new().with("/s/a", "1");
    w.renames = false;
    w.stuck.insert("/s/a".to_string());
    w.transfer(&["--src", "/s", "--dst", "/t", "--move"]);
    assert_eq!(w.tally().copied, 0);
    assert_eq!(w.tally().errors, vec!["/s/a: busy"]);
}

#[test]
fn a_bad_copy_is_removed() {
    for moving in [false, true] {
        let mut w = World::new().with("/s/a", "1");
        w.renames = false;
        w.corrupts = true;
        let mut args = vec!["--src", "/s", "--dst", "/t"];
        if moving {
            args.push("--move");
        }
        w.transfer(&args);
        assert!(w.read("/t/s/a").is_none());
        assert_eq!(w.read("/s/a").unwrap(), "1");
        let want = if moving {
            "/s/a: integrity check failed — original retained"
        } else {
            "/s/a: integrity check failed — copy removed"
        };
        assert_eq!(w.tally().errors, vec![want]);
        assert_eq!(w.tally().copied, 0);
    }
}

#[test]
fn existing_files_are_treated_as_asked() {
    let world = || {
        World::new()
            .with("/s/same", "x")
            .with("/s/other", "new")
            .with("/t/s/same", "x")
            .with("/t/s/other", "old")
    };
    let mut w = world();
    w.transfer(&["--src", "/s", "--dst", "/t"]);
    assert_eq!(
        w.tally().skipped,
        vec![
            "/s/other: different version exists at destination",
            "/s/same: identical at destination"
        ]
    );
    assert_eq!(w.read("/t/s/other").unwrap(), "old");

    let mut w = world();
    w.transfer(&["--src", "/s", "--dst", "/t", "--conflict", "overwrite"]);
    assert_eq!(w.read("/t/s/other").unwrap(), "new");
    assert_eq!(w.tally().copied, 1);

    let mut w = world().with("/t/s/other (1)", "old too");
    w.transfer(&["--src", "/s", "--dst", "/t", "--conflict", "rename", "--move"]);
    assert_eq!(w.read("/t/s/other").unwrap(), "old");
    assert_eq!(w.read("/t/s/other (1)").unwrap(), "old too");
    assert_eq!(w.read("/t/s/other (2)").unwrap(), "new");
    assert!(w.read("/s/same").is_none() && w.read("/s/other").is_none());
    assert_eq!(w.tally().copied, 2);
}

#[test]
fn a_file_that_is_moved_to_where_it_is_stays() {
    for conflict in ["skip", "overwrite", "rename"] {
        for method in ["standard", "rsync"] {
            let mut w = World::new().with("/d/a", "1");
            w.transfer(&[
                "--src-files", "/d/a", "--dst", "/d/", "--move", "--conflict", conflict,
                "--method", method,
            ]);
            assert_eq!(w.read("/d/a").unwrap(), "1");
            assert_eq!((w.here.len(), w.log.len()), (1, 0));
            assert_eq!(w.tally().copied, 0);
            assert_eq!(w.tally().skipped, vec!["/d/a: identical at destination"]);
        }
        // A file that is not there is an error, as anywhere else.
        let mut w = World::new();
        w.transfer(&["--src-files", "/d/a", "--dst", "/d", "--move", "--conflict", conflict]);
        assert_eq!(w.tally().errors, vec!["/d/a: not found"]);
        assert_eq!(w.tally().skipped, NONE);
        assert_eq!(w.log, vec!["copy /d/a -> /d/a"]);
        // The same place by another path.
        let mut w = World::new().with("a.txt", "1");
        w.transfer(&["--src-files", "a.txt", "--dst", ".", "--move", "--conflict", conflict]);
        assert_eq!(w.read("a.txt").unwrap(), "1");
        assert_eq!((w.here.len(), w.log.len()), (1, 0));
        assert_eq!(w.tally().skipped, vec!["a.txt: identical at destination"]);
    }
}

#[test]
fn a_file_that_is_copied_to_where_it_is_is_looked_at() {
    let mut w = World::new();
    w.transfer(&["--src-files", "/tmp/nope", "--dst", "/tmp"]);
    assert_eq!(w.tally().errors, vec!["/tmp/nope: not found"]);
    assert_eq!(w.tally().copied, 0);
    let mut w = World::new();
    w.transfer(&["--src-files", "/tmp/nope", "--dst", "/tmp", "--method", "rsync"]);
    assert_eq!(w.tally().errors, vec!["/tmp/nope: rsync failed (exit code 1)"]);

    let mut t = Transfer::new(request(&["--src-files", "/d/a", "--dst", "/d", "--move"]));
    // The destination, the files, the cancellation, the directory, the target.
    for r in [Reply::Told(true), Reply::Did, Reply::Told(false), Reply::Did] {
        t = t.advance(r).unwrap();
    }
    assert!(matches!(t.action(), Action::Exists(p) if p == b"/d/a".to_vec()));
    t = t.advance(Reply::Told(true)).unwrap();
    assert!(matches!(t.action(), Action::SameContents(..)));
    t = t.advance(Reply::DidNot("denied".to_string())).unwrap();
    t = t.advance(Reply::Did).unwrap();
    match t.action() {
        Action::Send(WorkerMsg::Finished(t)) => assert_eq!(
            t.errors,
            vec!["/d/a: could not compare with destination: denied"]
        ),
        other => panic!("{:?}", other),
    }
}

#[test]
fn a_second_copy_finds_every_file_identical() {
    let mut w = World::new().with("/s/a", "1").with("/s/d/b", "2").with("/t/s/a", "old");
    let args = ["--src", "/s", "--dst", "/t", "--conflict", "overwrite"];
    w.transfer(&args);
    assert_eq!(w.tally().copied, 2);
    let before = w.here.clone();
    w.transfer(&args);
    assert_eq!(w.here, before);
    assert_eq!(w.tally().copied, 0);
    assert_eq!(w.tally().errors, NONE);
    assert_eq!(
        w.tally().skipped,
        vec!["/s/a: identical at destination", "/s/d/b: identical at destination"]
    );
}

#[test]
fn the_root_is_copied_below_the_destination() {
    let mut w = World::new().with("/x/a", "1");
    let mut t = Transfer::new(request(&["--src", "/", "--dst", "/t"]));
    t = t.advance(Reply::Told(true)).unwrap();
    let mut walk = Walk::new(&[]);
    walk.visit(true, b"a", b"/x/a".to_vec());
    t = t.advance(Reply::Walked(walk.finish())).unwrap();
    while !t.is_over() {
        let reply = w.perform(t.action());
        t = t.advance(reply).unwrap();
    }
    assert_eq!(w.read("/t/x/a").unwrap(), "1");
}

#[test]
fn excluded_files_are_not_transferred_though_they_were_picked() {
    let mut w = World::new().with("/x/a.jpg", "1").with("/x/b", "2").host("h", &[]);
    w.transfer(&["--src-files", "/x/a.jpg,/x/b", "--dst", "/t", "--exclude", "a.jpg"]);
    assert!(w.read("/t/a.jpg").is_none());
    assert_eq!(w.read("/t/b").unwrap(), "2");
    assert_eq!((w.tally().copied, w.tally().excluded_files), (1, 1));
    w.transfer(&["--src-files", "/x/a.jpg,/x/b", "--dst", "h:/t", "--exclude", "~*.jpg"]);
    assert!(w.read_on("h", "/t/a.jpg").is_none());
    assert_eq!(w.read_on("h", "/t/b").unwrap(), "2");
}

#[test]
fn picked_files_go_side_by_side() {
    let mut w = World::new().with("/x/a", "1").with("/y/b", "2");
    w.transfer(&["--src-files", "/x/a,/y/b,/", "--dst", "/t"]);
    assert_eq!(w.read("/t/a").unwrap(), "1");
    assert_eq!(w.read("/t/b").unwrap(), "2");
    assert_eq!(w.tally().skipped, vec!["/: no filename"]);
    assert_eq!(w.messages, vec!["1/3 /x/a", "2/3 /y/b", "finished"]);
}

#[test]
fn a_directory_that_cannot_be_made_is_an_error_without_progress() {
    let mut w = World::new().with("/s/d/a", "1").with("/s/e/b", "2");
    w.walls.insert("/t/s/d".to_string());
    w.transfer(&["--src", "/s", "--dst", "/t"]);
    assert_eq!(w.tally().errors, vec!["/s/d/a: permission denied"]);
    assert_eq!(w.messages, vec!["2/2 /s/e/b", "finished"]);
    let mut w = World::new().with("/s/a", "1");
    w.walls.insert("/t".to_string());
    w.transfer(&["--src", "/s", "--dst", "/t"]);
    assert_eq!(
        w.messages,
        vec!["error Failed to create destination directory: permission denied"]
    );
}

#[test]
fn an_empty_source_finishes_at_once() {
    let mut w = World::new().with("/s/a.bak", "1");
    w.transfer(&["--src", "/s", "--dst", "/t", "--exclude", "~*.bak"]);
    assert_eq!(w.messages, vec!["finished"]);
    assert_eq!((w.tally().copied, w.tally().excluded_files), (0, 1));
    assert_eq!(w.polls, 0);
}

#[test]
fn cancelling_stops_behind_the_file_at_hand() {
    let mut w = World::new().with("/s/a", "1").with("/s/b", "2").with("/s/c", "3");
    w.cancel_at = 1;
    w.transfer(&["--src", "/s", "--dst", "/t"]);
    assert_eq!(w.messages, vec!["1/3 /s/a", "cancelled"]);
    assert_eq!(w.tally().copied, 1);
    assert!(w.read("/t/s/b").is_none());
}

#[test]
fn every_file_is_counted_or_noted_once() {
    let mut w = World::new()
        .with("/s/a", "1")
        .with("/s/b", "new")
        .with("/s/c", "3")
        .with("/s/d", "4")
        .with("/t/s/b", "old")
        .with("/t/s/c", "3");
    w.renames = false;
    w.stuck.insert("/s/d".to_string());
    w.transfer(&["--src", "/s", "--dst", "/t", "--move"]);
    let t = w.tally();
    assert_eq!((t.copied, t.skipped.len(), t.errors.len()), (2, 1, 1));
    // A source is gone exactly when it was counted.
    assert!(w.read("/s/a").is_none() && w.read("/s/c").is_none());
    assert_eq!(w.read("/s/b").unwrap(), "new");
    assert_eq!(w.read("/s/d").unwrap(), "4");
}

#[test]
fn both_methods_send_the_same_messages() {
    let run = |method: &str| {
        let mut w = World::new().with("/s/a", "1").with("/s/b", "2").with("/t/s/b", "2");
        w.transfer(&["--src", "/s", "--dst", "/t", "--method", method]);
        (w.messages.clone(), w.tally().skipped.clone(), w.tally().copied)
    };
    assert_eq!(run("standard"), run("rsync"));
}

#[test]
fn rsync_copies_on_this_machine() {
    let mut w = World::new().with("/s/a", "1");
    w.transfer(&["--src", "/s", "--dst", "/t", "--method", "rsync"]);
    assert_eq!(w.log, vec!["rsync /s/a -> /t/s/a"]);
    assert_eq!(w.read("/t/s/a").unwrap(), "1");

    let mut w = World::new().with("/s/a", "1");
    w.has_rsync = false;
    w.transfer(&["--src", "/s", "--dst", "/t", "--method", "rsync"]);
    assert_eq!(w.messages, vec!["error rsync is not installed or not found in PATH"]);

    for (code, shown) in [(Some(23), "23"), (None, "-1")] {
        let mut w = World::new().with("/s/a", "1");
        w.exit = Some(code);
        w.transfer(&["--src", "/s", "--dst", "/t", "--method", "rsync"]);
        let want = format!("/s/a: rsync failed (exit code {})", shown);
        assert_eq!(w.tally().errors, vec![want]);
    }

    let mut w = World::new().with("/s/a", "1");
    w.renames = false;
    w.stuck.insert("/s/a".to_string());
    w.transfer(&["--src", "/s", "--dst", "/t", "--method", "rsync", "--move"]);
    assert_eq!(w.tally().copied, 1);
    assert_eq!(
        w.tally().errors,
        vec!["/s/a: transferred and verified but failed to delete source: busy"]
    );
}

#[test]
fn files_are_uploaded_and_hashed() {
    for method in ["standard", "rsync"] {
        let mut w = World::new().with("/s/a b", "1").with("/s/d/c", "2").host("h", &[]);
        w.transfer(&["--src", "/s", "--dst", "h:/t/", "--method", method]);
        assert_eq!(w.read_on("h", "/t/s/a b").unwrap(), "1");
        assert_eq!(w.read_on("h", "/t/s/d/c").unwrap(), "2");
        assert_eq!(w.messages, vec!["1/2 /s/a b", "2/2 /s/d/c", "finished"]);
        assert_eq!(w.log[0], "h> echo ok");
        assert_eq!(w.log[1], "h> mkdir -p '/t' '/t/s' '/t/s/d'");
        assert_eq!(w.log[2], "h> find '/t' -type f 2>/dev/null");
        let program = if method == "rsync" { "rsync" } else { "scp" };
        assert_eq!(w.log[3], format!("{} /s/a b -> h:/t/s/a b", program));
        assert_eq!(w.tally().copied, 2);
    }
}

#[test]
fn spaces_stay_in_the_base_on_a_host() {
    let mut w = World::new().with("/s/a b.txt", "1").host("h", &[("/r r/c d", "2")]).host("g", &[]);
    w.transfer(&[
        "--src-files", "/s/a b.txt", "--dst", "h:/my docs", "--strip-spaces", "--conflict",
        "overwrite",
    ]);
    assert_eq!(w.read_on("h", "/my docs/ab.txt").unwrap(), "1");
    w.transfer(&["--src", "h:/r r", "--dst", "g:/my docs", "--strip-spaces"]);
    assert_eq!(w.read_on("g", "/my docs/rr/cd").unwrap(), "2");
}

#[test]
fn a_single_file_of_a_host_goes_by_its_name() {
    for mode in ["folders", "files"] {
        let mut w = World::new().host("h", &[("/a/x.txt", "1")]).with("/a/x.txt", "mine");
        w.transfer(&["--src", "h:/a/x.txt", "--dst", "/d", "--mode", mode]);
        assert_eq!(w.read("/d/x.txt").unwrap(), "1");
        assert_eq!(w.read("/a/x.txt").unwrap(), "mine");

        let mut w = World::new().host("h", &[("/a/x.txt", "1")]).host("g", &[]);
        w.here.insert("/a/x.txt".to_string(), b"mine".to_vec());
        w.transfer(&["--src", "h:/a/x.txt", "--dst", "g:/t", "--mode", mode]);
        assert_eq!(w.read_on("g", "/t/x.txt").unwrap(), "1");
        assert_eq!(w.read("/a/x.txt").unwrap(), "mine");
        assert!(w.log.contains(&"scp h:/a/x.txt -> /tmp/stage/x.txt".to_string()));
    }
}

#[test]
fn a_file_that_is_moved_to_where_it_is_on_its_host_stays() {
    for (conflict, left) in [("overwrite", "/r/p/a"), ("skip", "/r/p/a"), ("rename", "/r/p/a (1)")] {
        let mut w = World::new().host("h", &[("/r/p/a", "1")]);
        w.transfer(&["--src", "h:/r/p", "--dst", "h:/r", "--move", "--conflict", conflict]);
        assert_eq!(w.read_on("h", left).unwrap(), "1");
        assert_eq!(w.hosts["h"].len(), 1);
        if conflict == "overwrite" {
            assert_eq!(w.tally().copied, 1);
            assert_eq!(w.tally().errors, NONE);
            assert!(!w.log.iter().any(|l| l.contains("rm -f")));
        }
    }
}

#[test]
fn uploads_mind_what_is_on_the_host() {
    let there = [("/t/s/a", "old"), ("/t/s/a (1)", "older")];
    let mut w = World::new().with("/s/a", "new").host("h", &there);
    w.transfer(&["--src", "/s", "--dst", "h:/t"]);
    assert_eq!(w.tally().skipped, vec!["/s/a: already exists at destination"]);
    assert_eq!(w.read_on("h", "/t/s/a").unwrap(), "old");

    let mut w = World::new().with("/s/a", "new").host("h", &there);
    w.transfer(&["--src", "/s", "--dst", "h:/t", "--conflict", "rename"]);
    assert_eq!(w.read_on("h", "/t/s/a").unwrap(), "old");
    assert_eq!(w.read_on("h", "/t/s/a (2)").unwrap(), "new");

    let mut w = World::new().with("/s/a", "new").host("h", &there);
    w.transfer(&["--src", "/s", "--dst", "h:/t", "--conflict", "overwrite", "--move"]);
    assert_eq!(w.read_on("h", "/t/s/a").unwrap(), "new");
    assert!(w.read("/s/a").is_none());
    assert!(!w.log.iter().any(|l| l.contains("find ")));
}

#[test]
fn a_bad_upload_is_removed() {
    let mut w = World::new().with("/s/a", "1").host("h", &[]);
    w.corrupts = true;
    w.transfer(&["--src", "/s", "--dst", "h:/t", "--move"]);
    assert!(w.read_on("h", "/t/s/a").is_none());
    assert_eq!(w.read("/s/a").unwrap(), "1");
    assert_eq!(
        w.tally().errors,
        vec!["/s/a: integrity check failed — hash mismatch (original retained, remote copy removed)"]
    );
    assert_eq!(w.log.last().unwrap(), "h> rm -f '/t/s/a'");
}

#[test]
fn an_upload_that_fails_tells_why() {
    let mut w = World::new().with("/s/a", "1").host("h", &[]);
    w.exit = Some(Some(255));
    w.transfer(&["--src", "/s", "--dst", "h:/t"]);
    assert_eq!(w.tally().errors, vec!["/s/a: scp failed (exit code 255)"]);

    let mut w = World::new().with("/s/a", "1");
    w.transfer(&["--src", "/s", "--dst", "h:/t"]);
    assert_eq!(w.messages, vec!["error SSH connection to 'h' failed: unknown host"]);

    let mut w = World::new().with("/s/a", "1").host("h", &[]);
    w.starts = false;
    w.transfer(&["--src", "/s", "--dst", "h:/t"]);
    assert_eq!(w.messages, vec!["error Could not run ssh command: no such program"]);

    let mut w = World::new().with("/s/a", "1").host("h", &[]);
    w.walls.insert("/t".to_string());
    w.transfer(&["--src", "/s", "--dst", "h:/t"]);
    assert_eq!(w.messages, vec!["error Failed to create remote directories: read-only"]);
}

#[test]
fn files_without_a_name_are_left_out_of_an_upload() {
    let mut w = World::new().with("/x/a", "1").host("h", &[]);
    w.transfer(&["--src-files", "/,/x/a", "--dst", "h:/t"]);
    assert_eq!(w.messages, vec!["1/1 /x/a", "finished"]);
    assert_eq!(w.tally().skipped, vec!["/: no filename"]);
    let mut w = World::new().host("h", &[]);
    w.transfer(&["--src-files", "/", "--dst", "h:/t"]);
    assert_eq!(w.messages, vec!["finished"]);
    assert_eq!(w.tally().skipped, vec!["/: no filename"]);
}

#[test]
fn files_are_downloaded_and_hashed() {
    for method in ["standard", "rsync"] {
        let files = [("/r/p/a", "1"), ("/r/p/d/b", "2"), ("/r/p/t/c", "3")];
        let mut w = World::new().host("h", &files);
        w.transfer(&[
            "--src", "h:/r/p", "--dst", "/t", "--method", method, "--exclude", "/t", "--move",
        ]);
        assert_eq!(w.read("/t/p/a").unwrap(), "1");
        assert_eq!(w.read("/t/p/d/b").unwrap(), "2");
        assert!(w.read_on("h", "/r/p/a").is_none());
        assert_eq!(w.read_on("h", "/r/p/t/c").unwrap(), "3");
        assert_eq!(w.messages, vec!["1/2 /r/p/a", "2/2 /r/p/d/b", "finished"]);
        assert_eq!((w.tally().copied, w.tally().excluded_dirs), (2, 1));
    }
}

#[test]
fn downloads_mind_what_is_here() {
    let files = [("/r/p/a", "new")];
    let mut w = World::new().host("h", &files).with("/t/p/a", "old");
    w.transfer(&["--src", "h:/r/p", "--dst", "/t"]);
    assert_eq!(w.tally().skipped, vec!["/r/p/a: already exists at destination"]);
    let mut w = World::new().host("h", &files).with("/t/p/a", "old");
    w.transfer(&["--src", "h:/r/p", "--dst", "/t", "--conflict", "rename"]);
    assert_eq!(w.read("/t/p/a").unwrap(), "old");
    assert_eq!(w.read("/t/p/a (1)").unwrap(), "new");
}

#[test]
fn a_bad_download_is_removed() {
    let mut w = World::new().host("h", &[("/r/p/a", "1")]);
    w.corrupts = true;
    w.transfer(&["--src", "h:/r/p", "--dst", "/t", "--move"]);
    assert!(w.read("/t/p/a").is_none());
    assert_eq!(w.read_on("h", "/r/p/a").unwrap(), "1");
    assert_eq!(
        w.tally().errors,
        vec!["/r/p/a: download integrity check failed — hash mismatch (local copy removed)"]
    );
    let mut w = World::new().host("h", &[("/r/p/a", "1")]);
    w.stuck.insert("/r/p/a".to_string());
    w.transfer(&["--src", "h:/r/p", "--dst", "/t", "--move"]);
    assert_eq!(w.tally().copied, 1);
    assert_eq!(
        w.tally().errors,
        vec!["/r/p/a: downloaded and verified but failed to delete from source"]
    );
    let mut w = World::new().host("h", &[("/r/p/a", "1")]);
    w.exit = Some(Some(1));
    w.transfer(&["--src", "h:/r/p", "--dst", "/t"]);
    assert_eq!(w.tally().errors, vec!["/r/p/a: download from source failed"]);
}

#[test]
fn files_are_relayed_between_hosts() {
    for method in ["standard", "rsync"] {
        let files = [("/r/p/a", "1"), ("/r/p/d/b", "2")];
        let mut w = World::new().host("h", &files).host("g", &[("/t/p/a", "old")]);
        w.transfer(&[
            "--src", "h:/r/p", "--dst", "g:/t", "--method", method, "--conflict", "rename",
            "--move",
        ]);
        assert_eq!(w.read_on("g", "/t/p/a").unwrap(), "old");
        assert_eq!(w.read_on("g", "/t/p/a (1)").unwrap(), "1");
        assert_eq!(w.read_on("g", "/t/p/d/b").unwrap(), "2");
        assert!(w.hosts["h"].is_empty());
        assert!(w.here.is_empty());
        assert!(w.dirs.contains("/tmp/stage/d"));
        assert_eq!(w.log.last().unwrap(), "remove all /tmp/stage");
        assert_eq!(w.messages, vec!["1/2 /r/p/a", "2/2 /r/p/d/b", "finished"]);
        assert_eq!(w.tally().copied, 2);
    }
}

#[test]
fn a_relay_that_fails_tidies_up() {
    let files = [("/r/p/a", "1")];
    let mut w = World::new().host("h", &files).host("g", &[]);
    w.corrupts = true;
    w.transfer(&["--src", "h:/r/p", "--dst", "g:/t", "--move"]);
    assert_eq!(
        w.tally().errors,
        vec!["/r/p/a: download integrity check failed — hash mismatch"]
    );
    assert!(w.here.is_empty());
    assert_eq!(w.read_on("h", "/r/p/a").unwrap(), "1");

    let mut w = World::new().host("h", &files).host("g", &[]);
    w.walls.insert("/t".to_string());
    w.transfer(&["--src", "h:/r/p", "--dst", "g:/t"]);
    assert_eq!(
        w.messages,
        vec!["error Failed to create remote directories on destination: read-only"]
    );
    assert_eq!(w.log.last().unwrap(), "remove all /tmp/stage");

    let mut w = World::new().host("h", &files).host("g", &[]);
    w.walls.insert("/tmp/stage".to_string());
    w.transfer(&["--src", "h:/r/p", "--dst", "g:/t"]);
    assert_eq!(w.messages, vec!["error Failed to create temp directory: disk full"]);

    let mut w = World::new().host("g", &[]);
    w.transfer(&["--src", "h:/r/p", "--dst", "g:/t"]);
    assert_eq!(w.messages, vec!["error SSH connection to 'h' failed: unknown host"]);
}

#[test]
fn a_cancelled_relay_reports_at_once() {
    let mut w = World::new().host("h", &[("/r/a", "1")]).host("g", &[]);
    w.cancel_at = 0;
    w.transfer(&["--src", "h:/r", "--dst", "g:/t"]);
    assert_eq!(w.messages, vec!["cancelled"]);
    assert!(!w.log.iter().any(|l| l.starts_with("remove all")));
}

#[test]
fn a_hash_that_cannot_be_had_is_told() {
    let mut t = Transfer::new(request(&["--src-files", "/x/a", "--dst", "h:/t", "--move"]));
    let ok = || World::printed(true, "", "");
    let replies = vec![
        ok(),
        Reply::Did,
        ok(),
        ok(),
        Reply::Told(false),
        Reply::Exited(true, Some(0)),
        Reply::DidNot("no file".to_string()),
    ];
    for r in replies {
        t = t.advance(r).unwrap();
    }
    assert!(matches!(t.action(), Action::Send(WorkerMsg::Progress { .. })));
    t = t.advance(Reply::Did).unwrap();
    match t.action() {
        Action::Send(WorkerMsg::Finished(t)) => assert_eq!(
            t.errors,
            vec!["/x/a: transferred but verification failed: local hash error: no file (original retained)"]
        ),
        other => panic!("{:?}", other),
    }

    let mut t = Transfer::new(request(&["--src-files", "/x/a", "--dst", "h:/t"]));
    let replies = vec![
        ok(),
        Reply::Did,
        ok(),
        ok(),
        Reply::Told(false),
        Reply::Exited(true, Some(0)),
        Reply::Hashed("00".to_string()),
        Reply::DidNot("no ssh".to_string()),
        Reply::Did,
    ];
    for r in replies {
        t = t.advance(r).unwrap();
    }
    match t.action() {
        Action::Send(WorkerMsg::Finished(t)) => assert_eq!(
            t.errors,
            vec!["/x/a: transferred but could not verify: Failed to run SSH for hash verification: no ssh"]
        ),
        other => panic!("{:?}", other),
    }
}

#[test]
fn what_went_wrong_is_told_behind_the_tidying() {
    let mut t = Transfer::new(request(&[
        "--src", "h:/r", "--dst", "g:/t", "--conflict", "overwrite", "--method", "rsync",
    ]));
    let ok = || World::printed(true, "", "");
    let replies = vec![
        ok(),
        ok(),
        ok(),
        World::printed(true, "/r/a\n", ""),
        Reply::Staged(b"/tmp/x".to_vec()),
        ok(),
        Reply::Told(false),
        Reply::Did,
        Reply::Exited(true, Some(0)),
        Reply::DidNot("gone".to_string()),
    ];
    for r in replies {
        t = t.advance(r).unwrap();
    }
    assert!(matches!(t.action(), Action::RemoveFile(p) if p == b"/tmp/x/a".to_vec()));
    t = t.advance(Reply::DidNot("not there".to_string())).unwrap();
    match t.action() {
        Action::Send(WorkerMsg::Progress { done, total, file }) => {
            assert_eq!((done, total, file.as_str()), (1, 1, "/r/a"))
        }
        other => panic!("{:?}", other),
    }
    t = t.advance(Reply::Did).unwrap();
    assert!(matches!(t.action(), Action::RemoveTree(p) if p == b"/tmp/x".to_vec()));
    t = t.advance(Reply::Did).unwrap();
    match t.action() {
        Action::Send(WorkerMsg::Finished(t)) => assert_eq!(
            t.errors,
            vec!["/r/a: download verification error: local hash error: gone"]
        ),
        other => panic!("{:?}", other),
    }
}

#[test]
fn a_host_that_lists_nothing_ends_the_transfer() {
    let mut w = World::new().host("h", &[]).host("g", &[]);
    w.transfer(&["--src", "h:/r", "--dst", "g:/t"]);
    assert_eq!(w.messages, vec!["finished"]);
    assert!(!w.log.iter().any(|l| l.contains("mkdir")));
    let mut t = Transfer::new(request(&["--src", "h:/r", "--dst", "/t"]));
    t = t.advance(World::printed(true, "", "")).unwrap();
    t = t.advance(World::printed(false, "", "denied\n")).unwrap();
    match t.action() {
        Action::Send(WorkerMsg::Error(e)) => {
            assert_eq!(e, "Failed to list remote files: denied")
        }
        other => panic!("{:?}", other),
    }
}
