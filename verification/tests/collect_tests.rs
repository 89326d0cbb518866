use kosmokopy::collect::{
    collect_files, collect_remote_files, name_below_base, read_listing, Found, Walk,
};
use kosmokopy::exclusion::{parse_entries, Entry};
use kosmokopy::request::SourceSelection;

fn words(items: &[&str]) -> Vec<String> {
    items.iter().map(|s| s.to_string()).collect()
}

fn entries(items: &[&str]) -> Vec<Entry> {
    parse_entries(&words(items))
}

fn nothing() -> Found {
    Found { files: Vec::new(), excluded_files: 0, excluded_dirs: 0 }
}

#[test]
fn a_walk_leaves_out_what_is_excluded() {
    let mut w = Walk::new(&entries(&["/target", "~*.bak", "~/tmp?", "x.txt"]));
    assert!(w.room());
    // The root of the walk is never left out.
    assert!(w.enter(true, true, b"target"));
    assert!(!w.enter(false, true, b"target"));
    assert!(!w.enter(false, true, b"TMP1"));
    assert!(w.enter(false, true, b"src"));
    // What is no directory is not asked for its directory.
    assert!(w.enter(false, false, b"target"));
    w.visit(true, b"a.rs", b"/s/a.rs".to_vec());
    w.visit(true, b"a.bak", b"/s/a.bak".to_vec());
    w.visit(true, b"x.txt", b"/s/deep/x.txt".to_vec());
    w.visit(false, b"link", b"/s/link".to_vec());
    w.visit(true, b"b.rs", b"/s/b.rs".to_vec());
    let f = w.finish();
    assert_eq!(f.files, vec![b"/s/a.rs".to_vec(), b"/s/b.rs".to_vec()]);
    assert_eq!((f.excluded_files, f.excluded_dirs), (2, 2));
}

#[test]
fn a_name_that_is_no_text_is_matched_as_it_is_shown() {
    let mut w = Walk::new(&entries(&["\u{fffd}.txt"]));
    w.visit(true, b"\xff.txt", b"/s/\xff.txt".to_vec());
    w.visit(true, b"a.txt", b"/s/a.txt".to_vec());
    let f = w.finish();
    assert_eq!(f.files, vec![b"/s/a.txt".to_vec()]);
    assert_eq!(f.excluded_files, 1);
}

#[test]
fn picked_files_are_skipped_where_they_are_excluded() {
    let files = SourceSelection::Files(vec![
        b"/x/a.bak".to_vec(),
        b"/b".to_vec(),
        b"/x/y.jpg".to_vec(),
        b"/".to_vec(),
    ]);
    let f = collect_files(&files, &[], nothing()).unwrap();
    assert_eq!(f.files.len(), 4);
    assert_eq!((f.excluded_files, f.excluded_dirs), (0, 0));
    let f = collect_files(&files, &entries(&["~*.BAK", "y.jpg", "/x", "/b"]), nothing()).unwrap();
    assert_eq!(f.files, vec![b"/b".to_vec(), b"/".to_vec()]);
    assert_eq!((f.excluded_files, f.excluded_dirs), (2, 0));
}

#[test]
fn a_directory_gives_what_the_walk_found() {
    let walked = Found { files: vec![b"/d/x".to_vec()], excluded_files: 3, excluded_dirs: 4 };
    let f = collect_files(&SourceSelection::Directory(b"/d".to_vec()), &[], walked).unwrap();
    assert_eq!(f.files, vec![b"/d/x".to_vec()]);
    assert_eq!((f.excluded_files, f.excluded_dirs), (3, 4));
}

#[test]
fn no_source_gives_no_files() {
    assert_eq!(
        collect_files(&SourceSelection::Nothing, &[], nothing()).err().unwrap(),
        "No source selected."
    );
    let remote = SourceSelection::Remote("h".to_string(), "/p".to_string());
    assert_eq!(
        collect_files(&remote, &[], nothing()).err().unwrap(),
        "Remote source uses its own file listing."
    );
}

#[test]
fn a_listing_is_read_line_by_line() {
    let printed = "/s/a.txt\n  /s/b.txt \n\n/other/c.txt\r\n/s/target/deep/d.txt\n/s/x/target/e\n/s/e.bak\n";
    let l = read_listing("/s/", &entries(&["/target", "~*.BAK"]), printed);
    assert_eq!(l.files, words(&["/s/a.txt", "/s/b.txt"]));
    assert_eq!(l.excluded_files, 1);
    assert_eq!(l.excluded_dirs, words(&["target"]));
}

#[test]
fn a_base_that_is_a_file_is_listed_itself() {
    let l = read_listing("/s/a.txt", &[], "/s/a.txt\n");
    assert_eq!(l.files, words(&["/s/a.txt"]));
    let l = read_listing("/s/a.txt", &entries(&["a.txt"]), "/s/a.txt\n");
    assert!(l.files.is_empty());
    assert_eq!(l.excluded_files, 1);
    assert_eq!(name_below_base("/s/a.txt", "/s/a.txt"), Some("a.txt".to_string()));
    assert_eq!(name_below_base("/s", "/s/d/a.txt"), Some("d/a.txt".to_string()));
    assert_eq!(name_below_base("/s", "/sx/a.txt"), None);
    assert_eq!(name_below_base("..", ".."), None);
}

#[test]
fn a_failed_listing_tells_why() {
    assert_eq!(
        collect_remote_files("/s", &[], false, b"", b" no such host \n").err().unwrap(),
        "Failed to list remote files: no such host"
    );
    let l = collect_remote_files("/s", &[], true, b"/s/\xff\n", b"").unwrap();
    assert_eq!(l.files, words(&["/s/\u{fffd}"]));
}

/// Walks through a small tree and gives the files that were collected.
fn walked_with(patterns: &[&str]) -> Found {
    let mut w = Walk::new(&entries(patterns));
    assert!(w.enter(true, true, b"s"));
    w.visit(true, b"a.txt", b"/s/a.txt".to_vec());
    w.visit(true, b"b.bak", b"/s/b.bak".to_vec());
    if w.enter(false, true, b"d") {
        w.visit(true, b"c.txt", b"/s/d/c.txt".to_vec());
        if w.enter(false, true, b"e") {
            w.visit(true, b"f.txt", b"/s/d/e/f.txt".to_vec());
        }
    }
    w.finish()
}

#[test]
fn more_exclusions_leave_the_intersection() {
    let p = walked_with(&["~*.bak", "/e"]);
    let q = walked_with(&["c.txt"]);
    let both = walked_with(&["~*.bak", "/e", "c.txt"]);
    let meet: Vec<Vec<u8>> = p.files.iter().filter(|f| q.files.contains(f)).cloned().collect();
    assert_eq!(both.files, meet);
    assert_eq!(both.files, vec![b"/s/a.txt".to_vec()]);
    // A directory that is left out is counted once, whatever lies below it.
    assert_eq!(walked_with(&["/d", "/e"]).excluded_dirs, 1);
    assert_eq!(p.excluded_dirs, 1);
    // A file is counted where the walk comes to it.
    assert_eq!((p.excluded_files, q.excluded_files), (1, 1));
    assert_eq!(walked_with(&["/d", "c.txt"]).excluded_files, 0);
}
