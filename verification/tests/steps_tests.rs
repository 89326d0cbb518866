use kosmokopy::exchange::Reply;
use kosmokopy::notes::{is_counted, mark, note, reports, Mark};
use kosmokopy::request::{ConflictMode, TransferMethod};
use kosmokopy::setup::{advance_setup, setup_trouble, start_setup, SetupStep};
use kosmokopy::steps::{advance_step, start, Job, Leg, Outcome, Plan, Route, Signal, Step};

const YES: Signal = Signal::Yes;
const NO: Signal = Signal::No;
const FAILED: Signal = Signal::Failed;

fn job(route: Route, method: TransferMethod, moving: bool, conflict: ConflictMode) -> Job {
    Job { route, method, moving, conflict }
}

fn plain(route: Route, moving: bool, conflict: ConflictMode) -> Job {
    job(route, TransferMethod::Standard, moving, conflict)
}

/// Goes through the steps with these answers and hands back where it ends.
fn walk(j: Job, from: Step, answers: &[Signal]) -> Step {
    let mut step = from;
    for a in answers {
        step = advance_step(j, step, *a);
    }
    step
}

const ROUTES: [Route; 4] = [Route::Local, Route::Upload, Route::Download, Route::Relay];
const METHODS: [TransferMethod; 2] = [TransferMethod::Standard, TransferMethod::Rsync];
const CONFLICTS: [ConflictMode; 3] =
    [ConflictMode::Skip, ConflictMode::Overwrite, ConflictMode::Rename];

#[test]
fn a_local_copy_is_compared_byte_by_byte() {
    let j = plain(Route::Local, false, ConflictMode::Skip);
    let first = start(j, Plan::Go, false, true);
    assert_eq!(first, Step::MakeParent);
    assert_eq!(walk(j, first, &[YES]), Step::Probe);
    assert_eq!(walk(j, first, &[YES, NO]), Step::Carry(Leg::Send));
    assert_eq!(walk(j, first, &[YES, NO, YES]), Step::Check);
    assert_eq!(walk(j, first, &[YES, NO, YES, YES]), Step::End(Outcome::Copied));
    assert_eq!(walk(j, first, &[YES, NO, YES, NO]), Step::DropTarget(Outcome::Mismatch));
    assert_eq!(walk(j, first, &[YES, NO, YES, NO, FAILED]), Step::End(Outcome::Mismatch));
    assert_eq!(walk(j, first, &[YES, NO, YES, FAILED]), Step::End(Outcome::Unverified));
    assert_eq!(walk(j, first, &[YES, NO, FAILED]), Step::End(Outcome::CarryFailed));
    assert_eq!(walk(j, first, &[FAILED]), Step::End(Outcome::ParentFailed));
    assert_eq!(start(j, Plan::Go, false, false), Step::Probe);
}

#[test]
fn a_local_move_is_renamed_where_it_can_be() {
    let j = plain(Route::Local, true, ConflictMode::Skip);
    let first = Step::Probe;
    assert_eq!(walk(j, first, &[NO]), Step::Shift);
    assert_eq!(walk(j, first, &[NO, YES]), Step::End(Outcome::Copied));
    assert_eq!(walk(j, first, &[NO, FAILED]), Step::Carry(Leg::Send));
    assert_eq!(walk(j, first, &[NO, FAILED, YES, YES]), Step::DropSource);
    assert_eq!(walk(j, first, &[NO, FAILED, YES, YES, YES]), Step::End(Outcome::Copied));
    assert_eq!(walk(j, first, &[NO, FAILED, YES, YES, FAILED]), Step::End(Outcome::SourceKept));
}

#[test]
fn the_table_for_existing_files_holds() {
    for moving in [false, true] {
        for method in METHODS {
            let skip = job(Route::Local, method, moving, ConflictMode::Skip);
            let over = job(Route::Local, method, moving, ConflictMode::Overwrite);
            let rename = job(Route::Local, method, moving, ConflictMode::Rename);
            let same = if moving {
                Step::Locate
            } else {
                Step::End(Outcome::Identical)
            };
            let go = if moving { Step::Shift } else { Step::Carry(Leg::Send) };
            for j in [skip, over, rename] {
                assert_eq!(walk(j, Step::Probe, &[YES, YES]), same);
                assert_eq!(walk(j, Step::Probe, &[YES, FAILED]), Step::End(Outcome::CompareFailed));
            }
            assert_eq!(walk(skip, Step::Probe, &[YES, NO]), Step::End(Outcome::Differs));
            assert_eq!(walk(over, Step::Probe, &[YES, NO]), go);
            assert_eq!(walk(rename, Step::Probe, &[YES, NO]), Step::PickName(1));
            assert_eq!(walk(rename, Step::PickName(1), &[YES, YES]), Step::PickName(3));
            assert_eq!(walk(rename, Step::PickName(3), &[NO]), go);
        }
    }
    let j = plain(Route::Local, true, ConflictMode::Skip);
    // A file that is its own target is not removed.
    assert_eq!(walk(j, Step::Locate, &[YES]), Step::End(Outcome::Identical));
    assert_eq!(walk(j, Step::Locate, &[NO]), Step::DropIdentical);
    assert_eq!(walk(j, Step::Locate, &[FAILED]), Step::End(Outcome::IdenticalKept));
    assert_eq!(walk(j, Step::DropIdentical, &[YES]), Step::End(Outcome::Copied));
    assert_eq!(walk(j, Step::DropIdentical, &[FAILED]), Step::End(Outcome::IdenticalKept));
}

#[test]
fn an_upload_is_hashed_at_both_ends() {
    let j = plain(Route::Upload, true, ConflictMode::Skip);
    let first = start(j, Plan::Go, false, false);
    assert_eq!(first, Step::Carry(Leg::Send));
    assert_eq!(walk(j, first, &[YES]), Step::HashHere(Leg::Send));
    assert_eq!(walk(j, first, &[YES, YES]), Step::HashThere(Leg::Send));
    assert_eq!(walk(j, first, &[YES, YES, YES]), Step::DropSource);
    assert_eq!(walk(j, first, &[YES, YES, NO]), Step::DropTarget(Outcome::Mismatch));
    assert_eq!(walk(j, first, &[YES, FAILED]), Step::End(Outcome::Unverified));
    assert_eq!(walk(j, first, &[NO]), Step::End(Outcome::Refused));
    assert_eq!(walk(j, first, &[FAILED]), Step::End(Outcome::CarryFailed));
    assert_eq!(start(j, Plan::Go, true, false), Step::End(Outcome::AlreadyThere));
    assert_eq!(start(j, Plan::OutsideSource, true, true), Step::End(Outcome::OutsideSource));
    assert_eq!(start(j, Plan::NoName, false, true), Step::End(Outcome::NoName));
}

#[test]
fn a_download_minds_what_is_there() {
    let skip = plain(Route::Download, true, ConflictMode::Skip);
    let rename = plain(Route::Download, true, ConflictMode::Rename);
    assert_eq!(walk(skip, Step::Probe, &[YES]), Step::End(Outcome::AlreadyThere));
    assert_eq!(walk(rename, Step::Probe, &[YES]), Step::PickName(1));
    let go = walk(skip, Step::Probe, &[NO]);
    assert_eq!(go, Step::Carry(Leg::Fetch));
    assert_eq!(walk(skip, go, &[NO]), Step::End(Outcome::FetchFailed));
    assert_eq!(walk(skip, go, &[FAILED]), Step::End(Outcome::FetchFailed));
    assert_eq!(walk(skip, go, &[YES, YES, YES, NO]), Step::End(Outcome::SourceKept));
    assert_eq!(walk(skip, go, &[YES, YES, NO, YES]), Step::End(Outcome::Mismatch));
}

#[test]
fn a_relay_cleans_up_what_it_staged() {
    let j = plain(Route::Relay, true, ConflictMode::Overwrite);
    let go = walk(j, start(j, Plan::Go, false, true), &[YES]);
    assert_eq!(go, Step::Carry(Leg::Fetch));
    assert_eq!(walk(j, go, &[NO]), Step::End(Outcome::FetchFailed));
    assert_eq!(walk(j, go, &[YES, YES, NO]), Step::DropStaged(Outcome::FetchMismatch));
    assert_eq!(walk(j, go, &[YES, FAILED, YES]), Step::End(Outcome::FetchUnverified));
    let send = walk(j, go, &[YES, YES, YES]);
    assert_eq!(send, Step::Carry(Leg::Send));
    assert_eq!(walk(j, send, &[NO]), Step::DropStaged(Outcome::SendFailed));
    assert_eq!(walk(j, send, &[YES, YES, YES]), Step::DropStaged(Outcome::Copied));
    assert_eq!(walk(j, send, &[YES, YES, YES, YES]), Step::DropSource);
    assert_eq!(walk(j, send, &[YES, YES, NO, NO, NO]), Step::End(Outcome::Mismatch));
    assert_eq!(walk(j, send, &[YES, YES, FAILED]), Step::DropStaged(Outcome::Unverified));
}

#[test]
fn a_copy_never_comes_to_remove_its_source() {
    for route in ROUTES {
        for method in METHODS {
            for conflict in CONFLICTS {
                let j = job(route, method, false, conflict);
                let mut open = vec![start(j, Plan::Go, false, true)];
                for _ in 0..14 {
                    let mut next = Vec::new();
                    for s in open {
                        assert_ne!(s, Step::DropSource);
                        assert_ne!(s, Step::DropIdentical);
                        assert_ne!(s, Step::Shift);
                        for a in [YES, NO, FAILED] {
                            let n = advance_step(j, s, a);
                            if !next.contains(&n) {
                                next.push(n);
                            }
                        }
                    }
                    open = next;
                }
            }
        }
    }
}

#[test]
fn the_words_for_each_outcome_are_these() {
    let std_local = plain(Route::Local, false, ConflictMode::Skip);
    let std_move = plain(Route::Local, true, ConflictMode::Skip);
    let rs_local = job(Route::Local, TransferMethod::Rsync, false, ConflictMode::Skip);
    let rs_move = job(Route::Local, TransferMethod::Rsync, true, ConflictMode::Skip);
    let up = plain(Route::Upload, false, ConflictMode::Skip);
    let up_move = job(Route::Upload, TransferMethod::Rsync, true, ConflictMode::Skip);
    let down = plain(Route::Download, false, ConflictMode::Skip);
    let down_move = plain(Route::Download, true, ConflictMode::Skip);
    let relay = plain(Route::Relay, false, ConflictMode::Skip);
    let rs_relay = job(Route::Relay, TransferMethod::Rsync, true, ConflictMode::Skip);
    let table: Vec<(Job, Outcome, &str)> = vec![
        (std_local, Outcome::OutsideSource, "f: outside source directory"),
        (std_local, Outcome::NoName, "f: no filename"),
        (std_local, Outcome::Identical, "f: identical at destination"),
        (std_local, Outcome::Differs, "f: different version exists at destination"),
        (up, Outcome::AlreadyThere, "f: already exists at destination"),
        (std_local, Outcome::ParentFailed, "f: why"),
        (relay, Outcome::ParentFailed, "f: temp dir error: why"),
        (
            std_move,
            Outcome::IdenticalKept,
            "f: identical at destination but failed to delete source: why",
        ),
        (std_local, Outcome::CompareFailed, "f: could not compare with destination: why"),
        (std_local, Outcome::CarryFailed, "f: why"),
        (up, Outcome::Refused, "f: scp failed (exit code why)"),
        (up_move, Outcome::Refused, "f: rsync failed (exit code why)"),
        (rs_local, Outcome::Refused, "f: rsync failed (exit code why)"),
        (down, Outcome::FetchFailed, "f: download from source failed"),
        (relay, Outcome::FetchFailed, "f: download from source failed"),
        (rs_relay, Outcome::FetchFailed, "f: rsync download from source failed"),
        (relay, Outcome::FetchMismatch, "f: download integrity check failed — hash mismatch"),
        (relay, Outcome::FetchUnverified, "f: download verification error: why"),
        (relay, Outcome::SendFailed, "f: upload to destination failed"),
        (rs_relay, Outcome::SendFailed, "f: rsync upload to destination failed"),
        (std_local, Outcome::Mismatch, "f: integrity check failed — copy removed"),
        (std_move, Outcome::Mismatch, "f: integrity check failed — original retained"),
        (
            rs_local,
            Outcome::Mismatch,
            "f: integrity check failed — byte comparison mismatch (original retained, copy removed)",
        ),
        (
            up,
            Outcome::Mismatch,
            "f: integrity check failed — hash mismatch (original retained, remote copy removed)",
        ),
        (
            down,
            Outcome::Mismatch,
            "f: download integrity check failed — hash mismatch (local copy removed)",
        ),
        (
            relay,
            Outcome::Mismatch,
            "f: upload integrity check failed — hash mismatch (source retained, dest copy removed)",
        ),
        (std_local, Outcome::Unverified, "f: verification error: why"),
        (std_move, Outcome::Unverified, "f: verification error (original retained): why"),
        (rs_local, Outcome::Unverified, "f: transferred but could not verify: why"),
        (
            rs_move,
            Outcome::Unverified,
            "f: transferred but verification failed: why (original retained)",
        ),
        (up, Outcome::Unverified, "f: transferred but could not verify: why"),
        (
            up_move,
            Outcome::Unverified,
            "f: transferred but verification failed: why (original retained)",
        ),
        (down, Outcome::Unverified, "f: downloaded but could not verify: why"),
        (
            down_move,
            Outcome::Unverified,
            "f: downloaded but verification failed: why (source retained)",
        ),
        (relay, Outcome::Unverified, "f: uploaded but could not verify: why"),
        (
            rs_relay,
            Outcome::Unverified,
            "f: uploaded but verification failed: why (source retained)",
        ),
        (std_move, Outcome::SourceKept, "f: why"),
        (
            rs_move,
            Outcome::SourceKept,
            "f: transferred and verified but failed to delete source: why",
        ),
        (
            up_move,
            Outcome::SourceKept,
            "f: transferred and verified but failed to delete local: why",
        ),
        (
            down_move,
            Outcome::SourceKept,
            "f: downloaded and verified but failed to delete from source",
        ),
        (
            rs_relay,
            Outcome::SourceKept,
            "f: transferred and verified but failed to delete from source",
        ),
    ];
    for (j, outcome, want) in table {
        assert_eq!(note(j, outcome, "f", "why"), want);
    }
}

#[test]
fn outcomes_are_counted_marked_and_reported() {
    let std_move = plain(Route::Local, true, ConflictMode::Skip);
    let up_move = plain(Route::Upload, true, ConflictMode::Skip);
    assert!(is_counted(std_move, Outcome::Copied));
    assert!(!is_counted(std_move, Outcome::SourceKept));
    assert!(is_counted(up_move, Outcome::SourceKept));
    assert!(!is_counted(up_move, Outcome::Mismatch));
    assert_eq!(mark(Outcome::Copied), Mark::Silent);
    assert_eq!(mark(Outcome::AlreadyThere), Mark::Skipped);
    assert_eq!(mark(Outcome::SourceKept), Mark::Error);
    assert!(!reports(Outcome::ParentFailed));
    assert!(!reports(Outcome::OutsideSource));
    assert!(!reports(Outcome::NoName));
    assert!(reports(Outcome::Copied) && reports(Outcome::AlreadyThere));
}

fn setup_order(j: Job, present: bool) -> Vec<SetupStep> {
    let mut all = vec![start_setup(j)];
    while *all.last().unwrap() != SetupStep::Ready {
        let next = advance_setup(j, *all.last().unwrap(), present);
        all.push(next);
    }
    all
}

#[test]
fn each_route_is_set_up_in_its_order() {
    let rs = TransferMethod::Rsync;
    let skip = ConflictMode::Skip;
    let over = ConflictMode::Overwrite;
    assert_eq!(
        setup_order(plain(Route::Local, false, skip), true),
        vec![SetupStep::ProbeTarget, SetupStep::Gather, SetupStep::Ready]
    );
    assert_eq!(
        setup_order(job(Route::Local, rs, false, skip), false),
        vec![SetupStep::CheckRsync, SetupStep::ProbeTarget, SetupStep::MakeTarget, SetupStep::Gather, SetupStep::Ready]
    );
    assert_eq!(
        setup_order(plain(Route::Upload, false, skip), true),
        vec![SetupStep::CheckTarget, SetupStep::Gather, SetupStep::MakeRemoteDirs, SetupStep::ListTarget, SetupStep::Ready]
    );
    assert_eq!(
        setup_order(job(Route::Upload, rs, false, over), true),
        vec![SetupStep::CheckTarget, SetupStep::CheckRsync, SetupStep::Gather, SetupStep::MakeRemoteDirs, SetupStep::Ready]
    );
    assert_eq!(
        setup_order(job(Route::Download, rs, false, skip), false),
        vec![SetupStep::CheckSource, SetupStep::Gather, SetupStep::ProbeTarget, SetupStep::MakeTarget, SetupStep::Ready]
    );
    assert_eq!(
        setup_order(job(Route::Relay, rs, false, skip), true),
        vec![
            SetupStep::CheckSource, SetupStep::CheckTarget, SetupStep::CheckRsync, SetupStep::Gather, SetupStep::MakeStaging, SetupStep::MakeRemoteDirs,
            SetupStep::ListTarget, SetupStep::Ready
        ]
    );
}

fn printed(success: bool, err: &str) -> Reply {
    Reply::Printed { success, stdout: Vec::new(), stderr: err.as_bytes().to_vec() }
}

#[test]
fn what_goes_wrong_in_the_setup_is_told() {
    let up = plain(Route::Upload, false, ConflictMode::Skip);
    let down = plain(Route::Download, false, ConflictMode::Skip);
    let relay = plain(Route::Relay, false, ConflictMode::Skip);
    let local = plain(Route::Local, false, ConflictMode::Skip);
    let not = |e: &str| Reply::DidNot(e.to_string());
    let check = |j: Job, s: SetupStep, r: &Reply| setup_trouble(j, s, "box", r);
    let bad = printed(false, " refused \n");
    assert_eq!(
        check(up, SetupStep::CheckTarget, &bad).unwrap(),
        "SSH connection to 'box' failed: refused"
    );
    assert_eq!(
        check(down, SetupStep::CheckSource, &bad).unwrap(),
        "SSH connection to source 'box' failed: refused"
    );
    assert_eq!(
        check(relay, SetupStep::CheckSource, &bad).unwrap(),
        "SSH connection to 'box' failed: refused"
    );
    assert_eq!(
        check(up, SetupStep::CheckTarget, &not("e")).unwrap(),
        "Could not run ssh command: e"
    );
    assert_eq!(check(down, SetupStep::CheckSource, &not("e")).unwrap(), "Could not run ssh: e");
    assert_eq!(check(relay, SetupStep::CheckTarget, &not("e")).unwrap(), "Could not run ssh: e");
    assert!(check(up, SetupStep::CheckTarget, &printed(true, "x")).is_none());
    let missing = "rsync is not installed or not found in PATH";
    assert_eq!(check(up, SetupStep::CheckRsync, &bad).unwrap(), missing);
    assert_eq!(check(up, SetupStep::CheckRsync, &not("e")).unwrap(), missing);
    assert!(check(up, SetupStep::CheckRsync, &printed(true, "")).is_none());
    assert_eq!(
        check(local, SetupStep::MakeTarget, &not("e")).unwrap(),
        "Failed to create destination directory: e"
    );
    assert_eq!(
        check(relay, SetupStep::MakeStaging, &not("e")).unwrap(),
        "Failed to create temp directory: e"
    );
    assert_eq!(
        check(up, SetupStep::MakeRemoteDirs, &bad).unwrap(),
        "Failed to create remote directories: refused"
    );
    assert_eq!(
        check(relay, SetupStep::MakeRemoteDirs, &bad).unwrap(),
        "Failed to create remote directories on destination: refused"
    );
    assert!(check(up, SetupStep::MakeRemoteDirs, &not("e")).is_none());
    assert!(check(up, SetupStep::ListTarget, &bad).is_none());
}
