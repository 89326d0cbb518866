//! How a transfer is reported: as a line for programs, and in words.

use vstd::prelude::*;
use vstd::string::*;

use crate::exchange::{Tally, WorkerMsg};
#[allow(unused_imports)]
use crate::exchange::{MessageModel, TallyModel};
use crate::json::{list_text, member_text, string_text};
#[allow(unused_imports)]
use crate::json::{
    json_list, json_string, json_texts, last_members_read_back, lists_read_back, member,
    members_read_back, numbers_read_back, objects_read_back, parsed, texts_read_back, Json,
};
use crate::paths::file_name_of;
#[allow(unused_imports)]
use crate::paths::file_name;
use crate::text::{chars_of, concat2, concat3, decimal_text, join_strings, owned, text_of};
#[allow(unused_imports)]
use crate::text::{decimal, join, texts};

verus! {

// ---------------------------------------------------------------------------
// For programs
// ---------------------------------------------------------------------------

/// The line that reports a tally.
pub open spec fn result_line(status: Seq<char>, t: TallyModel) -> Seq<char> {
    "{"@ + member("status"@, json_string(status)) + ","@ + member("copied"@, decimal(t.copied))
        + ","@ + member("skipped"@, json_list(t.skipped)) + ","@ + member(
        "excluded_files"@,
        decimal(t.excluded_files),
    ) + ","@ + member("excluded_dirs"@, decimal(t.excluded_dirs)) + ","@ + member(
        "errors"@,
        json_list(t.errors),
    ) + "}"@
}

/// The line that reports a failure.
pub open spec fn error_line(e: Seq<char>) -> Seq<char> {
    "{"@ + member("status"@, json_string("error"@)) + ","@ + member("message"@, json_string(e))
        + "}"@
}

/// The exit code of a tally: errors are told apart from success.
pub open spec fn exit_code(t: TallyModel) -> i32 {
    if t.errors.len() > 0 {
        2
    } else {
        0
    }
}

/// What is printed and returned at a message; progress is passed over.
pub open spec fn outcome_of(m: MessageModel) -> Option<(Seq<char>, i32)> {
    match m {
        MessageModel::Progress { .. } => None,
        MessageModel::Finished(t) => Some((result_line("finished"@, t), exit_code(t))),
        MessageModel::Cancelled(t) => Some((result_line("cancelled"@, t), exit_code(t))),
        MessageModel::Error(e) => Some((error_line(e), 1)),
    }
}

/// The line that reports a tally, and the exit code of it.
pub fn cli_output_json(status: &str, t: &Tally) -> (r: (String, i32))
    ensures
        r.0@ == result_line(status@, t@),
        r.1 == exit_code(t@),
{
    let mut line = String::from_str("{");
    line.append(member_text("status", string_text(status).as_str()).as_str());
    line.append(",");
    line.append(member_text("copied", decimal_text(t.copied).as_str()).as_str());
    line.append(",");
    line.append(member_text("skipped", list_text(&t.skipped).as_str()).as_str());
    line.append(",");
    line.append(member_text("excluded_files", decimal_text(t.excluded_files).as_str()).as_str());
    line.append(",");
    line.append(member_text("excluded_dirs", decimal_text(t.excluded_dirs).as_str()).as_str());
    line.append(",");
    line.append(member_text("errors", list_text(&t.errors).as_str()).as_str());
    line.append("}");
    assert(line@ == result_line(status@, t@));
    let code: i32 = if t.errors.len() > 0 {
        2
    } else {
        0
    };
    (line, code)
}

/// What is printed and returned at a message; progress is passed over.
pub fn cli_result(msg: &WorkerMsg) -> (r: Option<(String, i32)>)
    ensures
        (match r {
            Some(p) => Some((p.0@, p.1)),
            None => None,
        }) == outcome_of(msg@),
{
    match msg {
        WorkerMsg::Progress { .. } => None,
        WorkerMsg::Finished(t) => Some(cli_output_json("finished", t)),
        WorkerMsg::Cancelled(t) => Some(cli_output_json("cancelled", t)),
        WorkerMsg::Error(e) => {
            let mut line = String::from_str("{");
            line.append(member_text("status", string_text("error").as_str()).as_str());
            line.append(",");
            line.append(member_text("message", string_text(e.as_str()).as_str()).as_str());
            line.append("}");
            assert(line@ == error_line(e@));
            Some((line, 1))
        },
    }
}

/// What the line about a tally says to a reader of JSON.
pub open spec fn result_json(status: Seq<char>, t: TallyModel) -> Json {
    Json::Object(
        seq![
            ("status"@, Json::Text(status)),
            ("copied"@, Json::Number(t.copied)),
            ("skipped"@, json_texts(t.skipped)),
            ("excluded_files"@, Json::Number(t.excluded_files)),
            ("excluded_dirs"@, Json::Number(t.excluded_dirs)),
            ("errors"@, json_texts(t.errors)),
        ],
    )
}

/// What the line about a failure says to a reader of JSON.
pub open spec fn error_json(e: Seq<char>) -> Json {
    Json::Object(seq![("status"@, Json::Text("error"@)), ("message"@, Json::Text(e))])
}

proof fn from_the_front(open: Seq<char>, comma: Seq<char>, m: Seq<Seq<char>>, close: Seq<char>)
    requires
        m.len() == 6,
    ensures
        open + m[0] + comma + m[1] + comma + m[2] + comma + m[3] + comma + m[4] + comma + m[5]
            + close == open + (m[0] + (comma + (m[1] + (comma + (m[2] + (comma + (m[3] + (comma + (
        m[4] + (comma + (m[5] + (close + Seq::<char>::empty())))))))))))),
{
    let c = comma;
    let r5 = m[5] + (close + Seq::<char>::empty());
    let r4 = m[4] + (c + r5);
    let r3 = m[3] + (c + r4);
    let r2 = m[2] + (c + r3);
    let r1 = m[1] + (c + r2);
    let f1 = open + m[0];
    let f2 = f1 + c + m[1];
    let f3 = f2 + c + m[2];
    let f4 = f3 + c + m[3];
    let f5 = f4 + c + m[4];
    assert(f5 + c + m[5] + close == f5 + (c + r5));
    assert(f5 + (c + r5) == f4 + (c + r4));
    assert(f4 + (c + r4) == f3 + (c + r3));
    assert(f3 + (c + r3) == f2 + (c + r2));
    assert(f2 + (c + r2) == f1 + (c + r1));
    assert(f1 + (c + r1) == open + (m[0] + (c + r1)));
}

/// The line about a tally is one JSON object, from which a reader gets back
/// the status, the numbers, and the notes one for one, whatever they hold.
pub proof fn results_read_back(status: Seq<char>, t: TallyModel)
    ensures
        parsed(result_line(status, t)) == Some(result_json(status, t)),
{
    reveal_strlit(",");
    reveal_strlit("}");
    let none = Seq::<char>::empty();
    let end = "}"@ + none;
    let errors = member("errors"@, json_list(t.errors)) + end;
    lists_read_back(t.errors, end);
    last_members_read_back("errors"@, json_list(t.errors), json_texts(t.errors), none);

    let dirs_value = decimal(t.excluded_dirs);
    let dirs = member("excluded_dirs"@, dirs_value) + (","@ + errors);
    numbers_read_back(t.excluded_dirs, ","@ + errors);
    let read1 = seq![("errors"@, json_texts(t.errors))];
    members_read_back(
        "excluded_dirs"@,
        dirs_value,
        Json::Number(t.excluded_dirs),
        errors,
        read1,
        none,
    );

    let files_value = decimal(t.excluded_files);
    let files = member("excluded_files"@, files_value) + (","@ + dirs);
    numbers_read_back(t.excluded_files, ","@ + dirs);
    let read2 = seq![("excluded_dirs"@, Json::Number(t.excluded_dirs))] + read1;
    members_read_back(
        "excluded_files"@,
        files_value,
        Json::Number(t.excluded_files),
        dirs,
        read2,
        none,
    );

    let skipped = member("skipped"@, json_list(t.skipped)) + (","@ + files);
    lists_read_back(t.skipped, ","@ + files);
    let read3 = seq![("excluded_files"@, Json::Number(t.excluded_files))] + read2;
    members_read_back(
        "skipped"@,
        json_list(t.skipped),
        json_texts(t.skipped),
        files,
        read3,
        none,
    );

    let copied = member("copied"@, decimal(t.copied)) + (","@ + skipped);
    numbers_read_back(t.copied, ","@ + skipped);
    let read4 = seq![("skipped"@, json_texts(t.skipped))] + read3;
    members_read_back(
        "copied"@,
        decimal(t.copied),
        Json::Number(t.copied),
        skipped,
        read4,
        none,
    );

    let body = member("status"@, json_string(status)) + (","@ + copied);
    texts_read_back(status, ","@ + copied);
    let read5 = seq![("copied"@, Json::Number(t.copied))] + read4;
    members_read_back(
        "status"@,
        json_string(status),
        Json::Text(status),
        copied,
        read5,
        none,
    );
    let read = seq![("status"@, Json::Text(status))] + read5;
    objects_read_back(body, read, none);
    from_the_front(
        "{"@,
        ","@,
        seq![
            member("status"@, json_string(status)),
            member("copied"@, decimal(t.copied)),
            member("skipped"@, json_list(t.skipped)),
            member("excluded_files"@, files_value),
            member("excluded_dirs"@, dirs_value),
            member("errors"@, json_list(t.errors)),
        ],
        "}"@,
    );
    assert(result_line(status, t) == "{"@ + body);
    assert(Json::Object(read) == result_json(status, t)) by {
        assert(read == result_json(status, t)->Object_0);
    }
}

/// The line about a failure is one JSON object, from which a reader gets back
/// the message, whatever it holds.
pub proof fn failures_read_back(e: Seq<char>)
    ensures
        parsed(error_line(e)) == Some(error_json(e)),
{
    let none = Seq::<char>::empty();
    let end = "}"@ + none;
    let message = member("message"@, json_string(e)) + end;
    texts_read_back(e, end);
    last_members_read_back("message"@, json_string(e), Json::Text(e), none);
    let body = member("status"@, json_string("error"@)) + (","@ + message);
    texts_read_back("error"@, ","@ + message);
    let read1 = seq![("message"@, Json::Text(e))];
    members_read_back(
        "status"@,
        json_string("error"@),
        Json::Text("error"@),
        message,
        read1,
        none,
    );
    let read = seq![("status"@, Json::Text("error"@))] + read1;
    objects_read_back(body, read, none);
    assert(error_line(e) == "{"@ + body);
    assert(read == error_json(e)->Object_0);
}

/// What is printed at the end of a run is one JSON object that says what the
/// message said, and the exit code tells a run that failed, one with errors
/// and one without apart.
pub proof fn what_is_printed_reads_back(m: MessageModel)
    requires
        !(m is Progress),
    ensures
        outcome_of(m) is Some,
        ({
            let (line, code) = outcome_of(m)->0;
            match m {
                MessageModel::Finished(t) => parsed(line) == Some(result_json("finished"@, t))
                    && code == (if t.errors.len() > 0 {
                    2i32
                } else {
                    0i32
                }),
                MessageModel::Cancelled(t) => parsed(line) == Some(result_json("cancelled"@, t))
                    && code == (if t.errors.len() > 0 {
                    2i32
                } else {
                    0i32
                }),
                MessageModel::Error(e) => parsed(line) == Some(error_json(e)) && code == 1,
                MessageModel::Progress { .. } => false,
            }
        }),
{
    match m {
        MessageModel::Finished(t) => results_read_back("finished"@, t),
        MessageModel::Cancelled(t) => results_read_back("cancelled"@, t),
        MessageModel::Error(e) => failures_read_back(e),
        MessageModel::Progress { .. } => {},
    }
}

// ---------------------------------------------------------------------------
// In words
// ---------------------------------------------------------------------------

/// How many files and directories were excluded, in words.
pub open spec fn excluded_words(files: nat, dirs: nat) -> Seq<char> {
    if files > 0 && dirs > 0 {
        decimal(files) + " file(s)"@ + ", "@ + decimal(dirs) + " dir(s)"@
    } else if files > 0 {
        decimal(files) + " file(s)"@
    } else if dirs > 0 {
        decimal(dirs) + " dir(s)"@
    } else {
        "0"@
    }
}

/// What was done with the files.
pub open spec fn verb(moving: bool) -> Seq<char> {
    if moving {
        "Moved"@
    } else {
        "Copied"@
    }
}

/// The summary of a tally.
pub open spec fn summary(moving: bool, cancelled: bool, t: TallyModel) -> Seq<char> {
    (if cancelled {
        "Cancelled. "@
    } else {
        ""@
    }) + verb(moving) + " "@ + decimal(t.copied) + " file(s)"@ + (if cancelled {
        " before stopping"@
    } else {
        ""@
    }) + ", "@ + decimal(t.skipped.len()) + " skipped, "@ + excluded_words(
        t.excluded_files,
        t.excluded_dirs,
    ) + " excluded."@
}

/// The title of a report.
pub open spec fn title(cancelled: bool, t: TallyModel) -> Seq<char> {
    if cancelled {
        "Cancelled"@
    } else if t.errors.len() > 0 {
        "Completed with errors"@
    } else if t.skipped.len() > 0 {
        "Completed with skipped files"@
    } else {
        "Complete"@
    }
}

/// A list of notes behind a heading that counts them; nothing where there are
/// none.
pub open spec fn headed(lead: Seq<char>, notes: Seq<Seq<char>>) -> Seq<Seq<char>> {
    if notes.len() == 0 {
        Seq::empty()
    } else {
        seq![lead + decimal(notes.len()) + "):"@] + notes
    }
}

/// All the notes of a tally.
pub open spec fn all_notes(t: TallyModel) -> Seq<Seq<char>> {
    headed("Skipped ("@, t.skipped) + headed("Errors ("@, t.errors)
}

/// Notes with their numbers before them.
pub open spec fn numbered_notes(notes: Seq<Seq<char>>) -> Seq<Seq<char>> {
    Seq::new(notes.len(), |i: int| decimal((i + 1) as nat) + ". "@ + notes[i])
}

/// The line about the progress: how many files are done, and the last of them.
pub open spec fn progress_words(done: nat, total: nat, file: Seq<char>) -> Seq<char> {
    decimal(done) + "/"@ + decimal(total) + " — "@ + match file_name(file) {
        Some(name) => name,
        None => file,
    }
}

/// How many files and directories were excluded, in words.
pub fn excluded_text(files: usize, dirs: usize) -> (r: String)
    ensures
        r@ == excluded_words(files as nat, dirs as nat),
{
    if files > 0 && dirs > 0 {
        let front = concat3(decimal_text(files).as_str(), " file(s)", ", ");
        concat3(front.as_str(), decimal_text(dirs).as_str(), " dir(s)")
    } else if files > 0 {
        concat2(decimal_text(files).as_str(), " file(s)")
    } else if dirs > 0 {
        concat2(decimal_text(dirs).as_str(), " dir(s)")
    } else {
        owned("0")
    }
}

/// The summary of a tally.
pub fn summary_text(moving: bool, cancelled: bool, t: &Tally) -> (r: String)
    ensures
        r@ == summary(moving, cancelled, t@),
{
    let mut r = if cancelled {
        String::from_str("Cancelled. ")
    } else {
        String::from_str("")
    };
    r.append(
        if moving {
            "Moved"
        } else {
            "Copied"
        },
    );
    r.append(" ");
    r.append(decimal_text(t.copied).as_str());
    r.append(" file(s)");
    r.append(
        if cancelled {
            " before stopping"
        } else {
            ""
        },
    );
    r.append(", ");
    r.append(decimal_text(t.skipped.len()).as_str());
    r.append(" skipped, ");
    r.append(excluded_text(t.excluded_files, t.excluded_dirs).as_str());
    r.append(" excluded.");
    assert(r@ == summary(moving, cancelled, t@));
    r
}

/// The title of a report.
pub fn title_text(cancelled: bool, t: &Tally) -> (r: &'static str)
    ensures
        r@ == title(cancelled, t@),
{
    if cancelled {
        "Cancelled"
    } else if t.errors.len() > 0 {
        "Completed with errors"
    } else if t.skipped.len() > 0 {
        "Completed with skipped files"
    } else {
        "Complete"
    }
}

fn push_headed(r: &mut Vec<String>, lead: &str, notes: &[String])
    ensures
        texts(final(r)@) == texts(old(r)@) + headed(lead@, texts(notes@)),
{
    let ghost start = texts(r@);
    let ghost added = headed(lead@, texts(notes@));
    assert(texts(notes@).len() == notes@.len());
    if notes.len() == 0 {
        assert(start + added == start);
        return;
    }
    let heading = concat3(lead, decimal_text(notes.len()).as_str(), "):");
    let ghost before = r@;
    r.push(heading);
    assert(texts(r@) == texts(before).push(heading@));
    assert(texts(r@) == start + added.take(1));
    let mut i: usize = 0;
    while i < notes.len()
        invariant
            i <= notes@.len(),
            notes@.len() > 0,
            added == headed(lead@, texts(notes@)),
            texts(r@) == start + added.take(1 + i),
        decreases notes@.len() - i,
    {
        let ghost earlier = r@;
        let n = notes[i].clone();
        r.push(n);
        assert(texts(r@) == texts(earlier).push(n@));
        assert(added[1 + i] == n@);
        assert(added.take(2 + i) == added.take(1 + i).push(added[1 + i]));
        assert(texts(r@) == start + added.take(2 + i));
        i += 1;
    }
    assert(added.take(1 + i) == added);
}

/// All the notes of a tally.
pub fn notes_of(t: &Tally) -> (r: Vec<String>)
    ensures
        texts(r@) == all_notes(t@),
{
    let mut r: Vec<String> = Vec::new();
    push_headed(&mut r, "Skipped (", &t.skipped);
    push_headed(&mut r, "Errors (", &t.errors);
    assert(texts(r@) == all_notes(t@));
    r
}

/// Notes with their numbers before them, one on each line.
pub fn numbered_text(notes: &[String]) -> (r: String)
    ensures
        r@ == join(numbered_notes(texts(notes@)), "\n"@),
{
    let ghost all = numbered_notes(texts(notes@));
    let mut words: Vec<String> = Vec::new();
    let mut i: usize = 0;
    assert(texts(words@) == all.take(0));
    while i < notes.len()
        invariant
            i <= notes@.len(),
            all == numbered_notes(texts(notes@)),
            texts(words@) == all.take(i as int),
        decreases notes@.len() - i,
    {
        let ghost before = words@;
        let word = concat3(decimal_text(i + 1).as_str(), ". ", notes[i].as_str());
        words.push(word);
        assert(word@ == all[i as int]);
        assert(texts(words@) == texts(before).push(word@));
        assert(all.take(i + 1) == all.take(i as int).push(all[i as int]));
        i += 1;
    }
    assert(all.take(i as int) == all);
    join_strings(&words, "\n")
}

/// The heading over the notes.
pub fn notes_heading(notes: &[String]) -> (r: String)
    ensures
        r@ == decimal(notes@.len()) + " error(s):"@,
{
    concat2(decimal_text(notes.len()).as_str(), " error(s):")
}

/// The line about the progress.
pub fn progress_text(done: usize, total: usize, file: &str) -> (r: String)
    ensures
        r@ == progress_words(done as nat, total as nat, file@),
{
    let units = chars_of(file);
    let name = match file_name_of(&units) {
        Some(name) => text_of(&name),
        None => owned(file),
    };
    let front = concat3(decimal_text(done).as_str(), "/", decimal_text(total).as_str());
    concat3(front.as_str(), " — ", name.as_str())
}

// ---------------------------------------------------------------------------
// What holds of every report
// ---------------------------------------------------------------------------

/// What a transfer came to is printed as one object: how it ended, and every
/// count and note of the tally under its own name.
pub proof fn the_result_holds_every_count(t: TallyModel)
    ensures
        ({
            let object = |status: Seq<char>|
                Json::Object(
                    seq![
                        ("status"@, Json::Text(status)),
                        ("copied"@, Json::Number(t.copied)),
                        ("skipped"@, json_texts(t.skipped)),
                        ("excluded_files"@, Json::Number(t.excluded_files)),
                        ("excluded_dirs"@, Json::Number(t.excluded_dirs)),
                        ("errors"@, json_texts(t.errors)),
                    ],
                );
            &&& outcome_of(MessageModel::Finished(t)) is Some
            &&& parsed((outcome_of(MessageModel::Finished(t))->0).0) == Some(object("finished"@))
            &&& outcome_of(MessageModel::Cancelled(t)) is Some
            &&& parsed((outcome_of(MessageModel::Cancelled(t))->0).0) == Some(object("cancelled"@))
        }),
{
    what_is_printed_reads_back(MessageModel::Finished(t));
    what_is_printed_reads_back(MessageModel::Cancelled(t));
}

/// A transfer that failed prints why.
pub proof fn a_failure_is_printed_with_its_reason(e: Seq<char>)
    ensures
        outcome_of(MessageModel::Error(e)) is Some,
        parsed((outcome_of(MessageModel::Error(e))->0).0) == Some(
            Json::Object(seq![("status"@, Json::Text("error"@)), ("message"@, Json::Text(e))]),
        ),
{
    what_is_printed_reads_back(MessageModel::Error(e));
}

/// The exit code tells how a transfer went: nothing if all went well, one if it
/// failed, two if some file did, and none while it goes on.
pub proof fn the_exit_code_tells_how_it_went(t: TallyModel, e: Seq<char>, done: nat, total: nat)
    ensures
        (outcome_of(MessageModel::Finished(t))->0).1 == (if t.errors.len() == 0 {
            0i32
        } else {
            2i32
        }),
        (outcome_of(MessageModel::Cancelled(t))->0).1 == (if t.errors.len() == 0 {
            0i32
        } else {
            2i32
        }),
        (outcome_of(MessageModel::Error(e))->0).1 == 1i32,
        outcome_of(MessageModel::Progress { done, total, file: e }) is None,
{
}

/// The summary says whether files were moved or copied, and how many were, were
/// skipped and were left out.
pub proof fn the_summary_says_what_was_done(moving: bool, t: TallyModel)
    ensures
        summary(moving, false, t) == (if moving {
            "Moved"@
        } else {
            "Copied"@
        }) + " "@ + decimal(t.copied) + " file(s), "@ + decimal(t.skipped.len()) + " skipped, "@
            + excluded_words(t.excluded_files, t.excluded_dirs) + " excluded."@,
        summary(moving, true, t) == "Cancelled. "@ + (if moving {
            "Moved"@
        } else {
            "Copied"@
        }) + " "@ + decimal(t.copied) + " file(s) before stopping, "@ + decimal(t.skipped.len())
            + " skipped, "@ + excluded_words(t.excluded_files, t.excluded_dirs) + " excluded."@,
{
    reveal_strlit("");
    reveal_strlit(", ");
    reveal_strlit(" file(s)");
    reveal_strlit(" file(s), ");
    reveal_strlit(" before stopping");
    reveal_strlit(" file(s) before stopping, ");
    assert(" file(s)"@ + ", "@ == " file(s), "@);
    assert(" file(s)"@ + " before stopping"@ + ", "@ == " file(s) before stopping, "@);
}

/// What was left out is said for files and for directories, each if there are
/// any.
pub proof fn what_was_left_out_is_said(files: nat, dirs: nat)
    ensures
        files > 0 ==> excluded_words(files, 0) == decimal(files) + " file(s)"@,
        dirs > 0 ==> excluded_words(0, dirs) == decimal(dirs) + " dir(s)"@,
        files > 0 && dirs > 0 ==> excluded_words(files, dirs) == excluded_words(files, 0) + ", "@
            + excluded_words(0, dirs),
        excluded_words(0, 0) == "0"@,
{
}

/// The title tells of errors before it tells of skipped files, and a cancelled
/// transfer is never called complete.
pub proof fn the_title_tells_the_worst(t: TallyModel)
    ensures
        title(true, t) == "Cancelled"@,
        t.errors.len() > 0 ==> title(false, t) == "Completed with errors"@,
        t.errors.len() == 0 && t.skipped.len() > 0 ==> title(false, t)
            == "Completed with skipped files"@,
        t.errors.len() == 0 && t.skipped.len() == 0 ==> title(false, t) == "Complete"@,
{
}

/// Every note of the tally is shown, those about skipped files before those about
/// errors, each kind behind a line that says how many there are.
pub proof fn every_note_is_shown(t: TallyModel)
    ensures
        t.skipped.len() == 0 && t.errors.len() == 0 ==> all_notes(t).len() == 0,
        t.skipped.len() > 0 && t.errors.len() == 0 ==> all_notes(t) == seq![
            "Skipped ("@ + decimal(t.skipped.len()) + "):"@,
        ] + t.skipped,
        t.skipped.len() == 0 && t.errors.len() > 0 ==> all_notes(t) == seq![
            "Errors ("@ + decimal(t.errors.len()) + "):"@,
        ] + t.errors,
        t.skipped.len() > 0 && t.errors.len() > 0 ==> all_notes(t) == seq![
            "Skipped ("@ + decimal(t.skipped.len()) + "):"@,
        ] + t.skipped + seq!["Errors ("@ + decimal(t.errors.len()) + "):"@] + t.errors,
{
    let a = seq!["Skipped ("@ + decimal(t.skipped.len()) + "):"@] + t.skipped;
    let b = seq!["Errors ("@ + decimal(t.errors.len()) + "):"@] + t.errors;
    assert(Seq::<Seq<char>>::empty() + b == b);
    assert(a + Seq::<Seq<char>>::empty() == a);
    assert(a + b == seq!["Skipped ("@ + decimal(t.skipped.len()) + "):"@] + t.skipped + seq![
        "Errors ("@ + decimal(t.errors.len()) + "):"@,
    ] + t.errors);
}

/// Notes are numbered from one on, in their order.
pub proof fn notes_are_numbered_in_order(notes: Seq<Seq<char>>, i: int)
    ensures
        numbered_notes(notes).len() == notes.len(),
        0 <= i < notes.len() ==> numbered_notes(notes)[i] == decimal((i + 1) as nat) + ". "@
            + notes[i],
{
}

/// Progress is shown by how many files are done of how many, and by the name of
/// the last one.
pub proof fn progress_names_the_file(done: nat, total: nat, file: Seq<char>)
    ensures
        file_name(file) is Some ==> progress_words(done, total, file) == decimal(done) + "/"@
            + decimal(total) + " — "@ + file_name(file)->0,
        file_name(file) is None ==> progress_words(done, total, file) == decimal(done) + "/"@
            + decimal(total) + " — "@ + file,
{
}

} // verus!
