use kosmokopy::cli::{listed_paths, parse_options, parse_request, UsageError};
use kosmokopy::exclusion::{parse_entries, EntryKind};
use kosmokopy::form::{
    choose_source, find_obstacle, make_request, path_to_probe, picked_text, Ticks,
};
use kosmokopy::request::{
    parse_destination, ConflictMode, SourceSelection, TransferMethod, TransferMode,
};

fn words(items: &[&str]) -> Vec<String> {
    items.iter().map(|s| s.to_string()).collect()
}

fn parsed(s: &str) -> (Option<String>, String) {
    parse_destination(s)
}

#[test]
fn a_host_and_a_path_are_told_from_a_local_path() {
    assert_eq!(
        parsed("ubuntu:/home/dan/backup"),
        (Some("ubuntu".to_string()), "/home/dan/backup".to_string())
    );
    assert_eq!(parsed("/plain/path"), (None, "/plain/path".to_string()));
    assert_eq!(parsed("/with:colon"), (None, "/with:colon".to_string()));
    assert_eq!(parsed(":/x"), (None, ":/x".to_string()));
    assert_eq!(parsed("host:"), (None, "host:".to_string()));
    assert_eq!(parsed("h:a:b"), (Some("h".to_string()), "a:b".to_string()));
    assert_eq!(parsed(""), (None, String::new()));
}

#[test]
fn the_options_have_defaults() {
    let o = parse_options(&[]).unwrap();
    assert!(o.src.is_none() && o.dst.is_none() && o.src_files.is_none());
    assert!(!o.do_move && !o.strip_spaces);
    assert_eq!(o.conflict, ConflictMode::Skip);
    assert_eq!(o.mode, TransferMode::FoldersAndFiles);
    assert_eq!(o.method, TransferMethod::Standard);
    assert!(o.patterns.is_empty());
}

#[test]
fn all_the_options_are_read() {
    let o = parse_options(&words(&[
        "--src", "/a", "--dst", "h:/b", "--move", "--conflict", "rename", "--strip-spaces",
        "--mode", "files", "--method", "rsync", "--exclude", "~*.bak", "--exclude", "/t",
    ]))
    .unwrap();
    assert_eq!(o.src.as_deref(), Some("/a"));
    assert_eq!(o.dst.as_deref(), Some("h:/b"));
    assert!(o.do_move && o.strip_spaces);
    assert_eq!(o.conflict, ConflictMode::Rename);
    assert_eq!(o.mode, TransferMode::FilesOnly);
    assert_eq!(o.method, TransferMethod::Rsync);
    assert_eq!(o.patterns, words(&["~*.bak", "/t"]));
}

#[test]
fn words_that_name_nothing_mean_the_default() {
    let o = parse_options(&words(&[
        "--conflict", "overwrite", "--conflict", "what", "--mode", "files", "--mode", "x",
        "--method", "rsync", "--method", "x",
    ]))
    .unwrap();
    assert_eq!(o.conflict, ConflictMode::Skip);
    assert_eq!(o.mode, TransferMode::FoldersAndFiles);
    assert_eq!(o.method, TransferMethod::Standard);
    let o = parse_options(&words(&["--conflict", "overwrite"])).unwrap();
    assert_eq!(o.conflict, ConflictMode::Overwrite);
}

#[test]
fn a_value_that_is_missing_at_the_end_changes_nothing_but_the_paths() {
    let o = parse_options(&words(&["--conflict", "rename", "--conflict"])).unwrap();
    assert_eq!(o.conflict, ConflictMode::Rename);
    let o = parse_options(&words(&["--src", "/a", "--src"])).unwrap();
    assert_eq!(o.src, None);
}

#[test]
fn an_unknown_option_is_refused() {
    assert_eq!(parse_options(&words(&["--src", "/a", "--what"])).err().unwrap(), "--what");
    match parse_request(&words(&["x"])) {
        Err(e @ UsageError::UnknownOption(_)) => assert_eq!(e.message(), "Unknown option: x"),
        other => panic!("{:?}", other),
    }
}

#[test]
fn both_ends_are_required() {
    match parse_request(&words(&["--src", "/a"])) {
        Err(e) => assert_eq!(e.message(), "--dst is required"),
        other => panic!("{:?}", other),
    }
    match parse_request(&words(&["--dst", "/a"])) {
        Err(e) => assert_eq!(e.message(), "--src or --src-files is required"),
        other => panic!("{:?}", other),
    }
}

#[test]
fn a_list_of_files_goes_before_a_source() {
    let q = parse_request(&words(&["--dst", "/d", "--src", "/s", "--src-files", "/a, /b ,c"]))
        .unwrap();
    match q.source {
        SourceSelection::Files(f) => {
            assert_eq!(f, vec![b"/a".to_vec(), b"/b".to_vec(), b"c".to_vec()])
        }
        other => panic!("{:?}", other),
    }
    assert_eq!(listed_paths(""), vec![Vec::<u8>::new()]);
}

#[test]
fn a_source_is_a_directory_or_on_a_host() {
    let q = parse_request(&words(&["--dst", "/d", "--src", "/s"])).unwrap();
    assert!(matches!(q.source, SourceSelection::Directory(d) if d == b"/s".to_vec()));
    let q = parse_request(&words(&["--dst", "/d", "--src", "/s", "--exclude", "/t"])).unwrap();
    assert_eq!((q.patterns[0].kind, q.patterns[0].text.as_str()), (EntryKind::Directory, "t"));
    let q = parse_request(&words(&["--dst", "/d", "--src", "h:/s"])).unwrap();
    assert!(matches!(q.source, SourceSelection::Remote(h, p) if h == "h" && p == "/s"));
}

#[test]
fn what_was_picked_is_shown() {
    assert_eq!(picked_text(&SourceSelection::Nothing), "");
    assert_eq!(picked_text(&SourceSelection::Directory(b"/d".to_vec())), "/d");
    assert_eq!(picked_text(&SourceSelection::Files(vec![b"/f".to_vec()])), "/f");
    let two = SourceSelection::Files(vec![b"/f".to_vec(), b"/g".to_vec()]);
    assert_eq!(picked_text(&two), "2 files selected");
}

#[test]
fn several_picked_files_stay_picked() {
    let two = SourceSelection::Files(vec![b"/f".to_vec(), b"/g".to_vec()]);
    assert_eq!(path_to_probe("2 files selected", &two), None);
    match choose_source("2 files selected", &two, false) {
        SourceSelection::Files(f) => assert_eq!(f, vec![b"/f".to_vec(), b"/g".to_vec()]),
        other => panic!("{:?}", other),
    }
    assert!(matches!(choose_source("  ", &two, false), SourceSelection::Files(_)));
}

#[test]
fn what_is_typed_goes_before_what_was_picked() {
    let picked = SourceSelection::Directory(b"/d".to_vec());
    assert_eq!(path_to_probe(" /e ", &picked), Some(b"/e".to_vec()));
    assert!(matches!(choose_source(" /e ", &picked, false),
        SourceSelection::Directory(d) if d == b"/e".to_vec()));
    assert!(matches!(choose_source("/e", &picked, true),
        SourceSelection::Files(f) if f == vec![b"/e".to_vec()]));
    assert_eq!(path_to_probe("h:/e", &picked), None);
    assert!(matches!(choose_source("h:/e", &picked, false),
        SourceSelection::Remote(h, p) if h == "h" && p == "/e"));
}

#[test]
fn a_transfer_needs_a_source_and_another_destination() {
    assert_eq!(
        find_obstacle(&SourceSelection::Nothing, ""),
        Some("Please select a source (folder, files, or remote).")
    );
    let dir = SourceSelection::Directory(b"/d".to_vec());
    assert_eq!(find_obstacle(&dir, "/d"), Some("Source and destination must be different."));
    assert_eq!(find_obstacle(&dir, ""), Some("Please select or type a destination directory."));
    assert_eq!(find_obstacle(&dir, "/e"), None);
    let files = SourceSelection::Files(vec![b"/d".to_vec()]);
    assert_eq!(find_obstacle(&files, "/d"), None);
}

#[test]
fn the_boxes_make_the_request() {
    let ticks = Ticks {
        moving: true,
        overwrite: false,
        rename: true,
        strip_spaces: true,
        folders: false,
        rsync: true,
    };
    let q = make_request(SourceSelection::Nothing, "/d".to_string(), ticks, parse_entries(&words(&["~a"])));
    assert!(q.do_move && q.strip_spaces);
    assert_eq!(q.conflict, ConflictMode::Rename);
    assert_eq!(q.mode, TransferMode::FilesOnly);
    assert_eq!(q.method, TransferMethod::Rsync);
    assert_eq!(q.patterns.len(), 1);
    assert_eq!((q.patterns[0].kind, q.patterns[0].text.as_str()), (EntryKind::FilePattern, "a"));
    let both = Ticks { overwrite: true, folders: true, rsync: false, ..ticks };
    let q = make_request(SourceSelection::Nothing, "/d".to_string(), both, Vec::new());
    assert_eq!(q.conflict, ConflictMode::Overwrite);
    assert_eq!(q.mode, TransferMode::FoldersAndFiles);
    assert_eq!(q.method, TransferMethod::Standard);
    let none = Ticks { overwrite: false, rename: false, ..ticks };
    let q = make_request(SourceSelection::Nothing, "/d".to_string(), none, Vec::new());
    assert_eq!(q.conflict, ConflictMode::Skip);
}
