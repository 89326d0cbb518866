use kosmokopy::exclusion::{
    copied_entries, dir_is_excluded, exclusion_view, file_is_excluded, parse_entries, parse_entry,
    Entry, EntryKind, ExclusionList,
};
use kosmokopy::wildcard::{
    letters_of, marked_letters, tokens_of, wildcard_match_inner, wildcard_matches, Letter, Token,
};

fn entries(items: &[&str]) -> Vec<Entry> {
    let texts: Vec<String> = items.iter().map(|s| s.to_string()).collect();
    parse_entries(&texts)
}

fn shown(list: &[Entry]) -> Vec<(EntryKind, String)> {
    list.iter().map(|e| (e.kind, e.text.clone())).collect()
}

fn entry(kind: EntryKind, text: &str) -> (EntryKind, String) {
    (kind, text.to_string())
}

#[test]
fn stars_stand_for_any_characters() {
    assert!(wildcard_matches("*.jpg", "photo.jpg"));
    assert!(wildcard_matches("*", ""));
    assert!(wildcard_matches("a*b*c", "aXXbYYc"));
    assert!(!wildcard_matches("a*b*c", "aXXbYY"));
    assert!(wildcard_matches("test_*", "test_"));
    assert!(!wildcard_matches("*.jpg", "photo.jpeg"));
}

#[test]
fn question_marks_stand_for_one_character() {
    assert!(wildcard_matches("?", "é"));
    assert!(!wildcard_matches("?", ""));
    assert!(!wildcard_matches("?", "ab"));
    assert!(wildcard_matches("a?c", "abc"));
    // One character, though its lower case has two.
    assert!(wildcard_matches("?", "\u{130}"));
    assert!(!wildcard_matches("??", "\u{130}"));
    assert!(wildcard_matches("?*", "\u{130}"));
    assert!(wildcard_matches("a?c", "a\u{130}c"));
}

#[test]
fn case_does_not_matter() {
    assert!(wildcard_matches("*.JPG", "photo.jpg"));
    assert!(wildcard_matches("*.jpg", "PHOTO.JPG"));
    assert!(wildcard_matches("ÉTÉ*", "été.txt"));
    // Both are put in lower case as a whole, where a character may become two,
    // and where the sigma at the end of a word is another than within it.
    assert!(wildcard_matches("\u{130}", "\u{130}"));
    assert!(wildcard_matches("\u{130}", "i\u{307}"));
    assert!(wildcard_matches("i\u{307}.txt", "\u{130}.TXT"));
    assert!(wildcard_matches("i*", "\u{130}"));
    assert!(wildcard_matches("ΟΔΟΣ*", "οδος.txt"));
    assert!(wildcard_matches("οδος", "ΟΔΟΣ"));
    assert!(!wildcard_matches("οδοσ", "ΟΔΟΣ"));
    assert!(!wildcard_matches("σ", "ς"));
}

#[test]
fn the_empty_pattern_fits_the_empty_name() {
    assert!(wildcard_match_inner(&[], &[]));
    assert!(!wildcard_match_inner(&[], &marked_letters(&letters_of("a"))));
    assert!(!wildcard_match_inner(&tokens_of("a"), &[]));
}

#[test]
fn a_pattern_is_cut_into_stars_marks_and_letters() {
    let t = tokens_of("A*?");
    assert_eq!(t, vec![Token::Exact('a'), Token::Star, Token::One]);
    assert_eq!(tokens_of("\u{130}"), vec![Token::Exact('i'), Token::Exact('\u{307}')]);
    assert_eq!(letters_of("aÉ\u{130}"), vec![vec!['a'], vec!['é'], vec!['i', '\u{307}']]);
    assert_eq!(letters_of("ΟΣ"), vec![vec!['ο'], vec!['ς']]);
    assert_eq!(
        marked_letters(&letters_of("\u{130}B")),
        vec![
            Letter { c: 'i', first: true },
            Letter { c: '\u{307}', first: false },
            Letter { c: 'b', first: true },
        ]
    );
    assert!(wildcard_match_inner(&t, &marked_letters(&letters_of("axy"))));
    assert!(!wildcard_match_inner(&t, &marked_letters(&letters_of("a"))));
}

#[test]
fn a_plain_pattern_fits_itself_alone() {
    for name in ["a", "readme.md", ".git"] {
        assert!(wildcard_matches(name, name));
        assert!(!wildcard_matches(name, "other"));
    }
}

#[test]
fn entries_are_told_apart_by_how_they_begin() {
    for (text, want) in [
        ("/target", entry(EntryKind::Directory, "target")),
        ("notes.txt", entry(EntryKind::File, "notes.txt")),
        ("~/tmp*", entry(EntryKind::DirectoryPattern, "tmp*")),
        ("~*.bak", entry(EntryKind::FilePattern, "*.bak")),
    ] {
        let e = parse_entry(text);
        assert_eq!((e.kind, e.text), want);
    }
    let list = entries(&["/a", "~b"]);
    assert_eq!(shown(&copied_entries(&list)), shown(&list));
}

#[test]
fn directories_are_excluded_by_name_and_by_pattern() {
    let list = entries(&["/target", "~/tmp*", "notes.txt", "~*.bak"]);
    assert!(dir_is_excluded(&list, "target"));
    assert!(dir_is_excluded(&list, "TMP_1"));
    assert!(!dir_is_excluded(&list, "Target"));
    assert!(!dir_is_excluded(&list, "notes.txt"));
    assert!(!dir_is_excluded(&list, "a.bak"));
    // All the slashes at the front belong to the mark.
    assert!(dir_is_excluded(&entries(&["//x"]), "x"));
}

#[test]
fn files_are_excluded_by_name_and_by_pattern() {
    let list = entries(&["/target", "~/tmp*", "notes.txt", "~*.bak"]);
    assert!(file_is_excluded(&list, "notes.txt"));
    assert!(file_is_excluded(&list, "A.BAK"));
    assert!(!file_is_excluded(&list, "Notes.txt"));
    assert!(!file_is_excluded(&list, "target"));
    assert!(!file_is_excluded(&list, "tmp_1"));
}

#[test]
fn the_list_holds_each_entry_once() {
    let mut list = ExclusionList::new();
    list.add_directory("target");
    list.add_directory("target");
    list.add_file("a.txt");
    list.add_file("a.txt");
    assert!(list.add_file_pattern("  *.bak "));
    assert!(list.add_dir_pattern("tmp*"));
    assert!(!list.add_file_pattern("   "));
    assert!(!list.add_dir_pattern(""));
    assert_eq!(
        shown(list.entries()),
        vec![
            entry(EntryKind::Directory, "target"),
            entry(EntryKind::File, "a.txt"),
            entry(EntryKind::FilePattern, "*.bak"),
            entry(EntryKind::DirectoryPattern, "tmp*"),
        ]
    );
    assert!(dir_is_excluded(list.entries(), "target"));
    assert!(file_is_excluded(list.entries(), "x.bak"));
    assert!(dir_is_excluded(list.entries(), "tmpdir"));
    list.clear();
    assert!(list.entries().is_empty());
}

#[test]
fn the_list_is_shown_line_by_line() {
    let list = entries(&["~/tmp*", "~*.bak", "/target", "a.txt"]);
    assert_eq!(
        exclusion_view(&list),
        "/tmp*/ (dir pattern)\n*.bak (file pattern)\n/target/ (recursive)\na.txt"
    );
    assert_eq!(exclusion_view(&[]), "");
}

#[test]
fn what_is_picked_is_excluded_whatever_its_name() {
    let mut list = ExclusionList::new();
    list.add_file("~notes");
    list.add_file("~/odd");
    list.add_directory("~tmp");
    assert!(file_is_excluded(list.entries(), "~notes"));
    assert!(!file_is_excluded(list.entries(), "notes"));
    assert!(dir_is_excluded(list.entries(), "~tmp"));
    assert!(!dir_is_excluded(list.entries(), "tmp"));
}

#[test]
fn entries_exclude_each_for_itself() {
    let a = entries(&["/x", "~*.a"]);
    let b = entries(&["y", "~/z?"]);
    let both = entries(&["/x", "~*.a", "y", "~/z?"]);
    for name in ["x", "y", "n.a", "z1", "q"] {
        assert_eq!(
            file_is_excluded(&both, name),
            file_is_excluded(&a, name) || file_is_excluded(&b, name)
        );
        assert_eq!(
            dir_is_excluded(&both, name),
            dir_is_excluded(&a, name) || dir_is_excluded(&b, name)
        );
    }
}
