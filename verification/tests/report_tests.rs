use kosmokopy::exchange::{Tally, WorkerMsg};
use kosmokopy::json::{escape, list_text, member_text, string_text};
use kosmokopy::report::{
    cli_output_json, cli_result, excluded_text, notes_heading, notes_of, numbered_text,
    progress_text, summary_text, title_text,
};

fn words(items: &[&str]) -> Vec<String> {
    items.iter().map(|s| s.to_string()).collect()
}

fn tally(skipped: &[&str], errors: &[&str]) -> Tally {
    Tally {
        copied: 7,
        skipped: words(skipped),
        excluded_files: 2,
        excluded_dirs: 1,
        errors: words(errors),
    }
}

#[test]
fn backslashes_and_quotes_are_escaped() {
    assert_eq!(escape("a\"b\\c"), "a\\\"b\\\\c");
    assert_eq!(escape("\\\""), "\\\\\\\"");
    assert_eq!(escape("plain"), "plain");
}

#[test]
fn control_characters_are_written_by_their_codes() {
    assert_eq!(escape("a\nb\tc"), "a\\u000ab\\u0009c");
    assert_eq!(escape("\u{0}\u{1f}\u{20}"), "\\u0000\\u001f ");
    assert_eq!(escape("\u{7f}é"), "\u{7f}é");
    assert_eq!(string_text("\r"), "\"\\u000d\"");
    assert_eq!(list_text(&words(&["a", "b\u{1}"])), "[\"a\",\"b\\u0001\"]");
    assert_eq!(list_text(&[]), "[]");
    assert_eq!(member_text("n", "7"), "\"n\":7");
    let (line, code) = cli_output_json("finished", &tally(&["a\nb: x"], &["e\u{1b}"]));
    assert_eq!(
        line,
        "{\"status\":\"finished\",\"copied\":7,\"skipped\":[\"a\\u000ab: x\"],\"excluded_files\":2,\"excluded_dirs\":1,\"errors\":[\"e\\u001b\"]}"
    );
    assert_eq!(code, 2);
    let (line, _) = cli_result(&WorkerMsg::Error("a\nb".to_string())).unwrap();
    assert_eq!(line, "{\"status\":\"error\",\"message\":\"a\\u000ab\"}");
}

#[test]
fn a_tally_is_printed_as_one_line() {
    let (line, code) = cli_output_json("finished", &tally(&["a: \"x\"", "b"], &[]));
    assert_eq!(
        line,
        "{\"status\":\"finished\",\"copied\":7,\"skipped\":[\"a: \\\"x\\\"\",\"b\"],\"excluded_files\":2,\"excluded_dirs\":1,\"errors\":[]}"
    );
    assert_eq!(code, 0);
    assert_eq!(cli_output_json("finished", &tally(&[], &["e"])).1, 2);
}

#[test]
fn messages_end_the_run_unless_they_are_progress() {
    let p = WorkerMsg::Progress { done: 1, total: 2, file: "x".to_string() };
    assert!(cli_result(&p).is_none());
    let (line, code) = cli_result(&WorkerMsg::Error("no \"host\"".to_string())).unwrap();
    assert_eq!(line, "{\"status\":\"error\",\"message\":\"no \\\"host\\\"\"}");
    assert_eq!(code, 1);
    let (line, code) = cli_result(&WorkerMsg::Cancelled(tally(&[], &["e\\"]))).unwrap();
    assert_eq!(
        line,
        "{\"status\":\"cancelled\",\"copied\":7,\"skipped\":[],\"excluded_files\":2,\"excluded_dirs\":1,\"errors\":[\"e\\\\\"]}"
    );
    assert_eq!(code, 2);
    assert_eq!(cli_result(&WorkerMsg::Finished(tally(&[], &[]))).unwrap().1, 0);
}

#[test]
fn what_was_excluded_is_put_in_words() {
    assert_eq!(excluded_text(0, 0), "0");
    assert_eq!(excluded_text(3, 0), "3 file(s)");
    assert_eq!(excluded_text(0, 4), "4 dir(s)");
    assert_eq!(excluded_text(10, 12), "10 file(s), 12 dir(s)");
}

#[test]
fn a_tally_is_summed_up() {
    let t = tally(&["s"], &[]);
    assert_eq!(
        summary_text(false, false, &t),
        "Copied 7 file(s), 1 skipped, 2 file(s), 1 dir(s) excluded."
    );
    assert_eq!(
        summary_text(true, true, &t),
        "Cancelled. Moved 7 file(s) before stopping, 1 skipped, 2 file(s), 1 dir(s) excluded."
    );
}

#[test]
fn the_title_tells_how_it_went() {
    assert_eq!(title_text(false, &tally(&[], &[])), "Complete");
    assert_eq!(title_text(false, &tally(&["s"], &[])), "Completed with skipped files");
    assert_eq!(title_text(false, &tally(&["s"], &["e"])), "Completed with errors");
    assert_eq!(title_text(true, &tally(&["s"], &["e"])), "Cancelled");
}

#[test]
fn the_notes_are_headed_and_numbered() {
    let notes = notes_of(&tally(&["s1", "s2"], &["e1"]));
    assert_eq!(notes, words(&["Skipped (2):", "s1", "s2", "Errors (1):", "e1"]));
    assert_eq!(notes_heading(&notes), "5 error(s):");
    assert_eq!(numbered_text(&notes[1..3]), "1. s1\n2. s2");
    assert!(notes_of(&tally(&[], &[])).is_empty());
    assert_eq!(numbered_text(&[]), "");
}

#[test]
fn progress_names_the_last_file() {
    assert_eq!(progress_text(3, 10, "/a/b.txt"), "3/10 — b.txt");
    assert_eq!(progress_text(0, 0, ".."), "0/0 — ..");
}
