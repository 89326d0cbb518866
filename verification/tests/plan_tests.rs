use kosmokopy::plan::{
    below_root_text, dirs_for, download_target_of, is_same_path, local_target_of, plan_download,
    plan_local, plan_relay, plan_upload, rel_text, relay_rel_of, remote_goal_of, root_name,
    root_text_of, tempdir_for_relay, upload_rel_of, Place, Task,
};
use kosmokopy::request::{ConflictMode, TransferMethod, TransferMode};
use kosmokopy::steps::{Job, Plan, Route};

const FOLDERS: TransferMode = TransferMode::FoldersAndFiles;
const FILES: TransferMode = TransferMode::FilesOnly;

fn upload_job() -> Job {
    Job {
        route: Route::Upload,
        method: TransferMethod::Standard,
        moving: false,
        conflict: ConflictMode::Skip,
    }
}

fn there(t: &Task) -> String {
    match &t.target {
        Place::There(p) => p.clone(),
        Place::Here(_) => panic!("not on a host"),
    }
}

fn here(t: &Task) -> Vec<u8> {
    match &t.target {
        Place::Here(p) => p.clone(),
        Place::There(_) => panic!("not on this machine"),
    }
}

#[test]
fn folders_are_kept_below_the_name_of_the_source() {
    let dir = Some(b"/home/me/pics".to_vec());
    assert_eq!(
        local_target_of(&dir, FOLDERS, b"/dst", b"/home/me/pics/2020/a.jpg"),
        Ok(b"/dst/pics/2020/a.jpg".to_vec())
    );
    assert_eq!(
        local_target_of(&dir, FOLDERS, b"/dst", b"/home/me/other/a.jpg"),
        Err(Plan::OutsideSource)
    );
    // A source without a name adds none.
    let up = Some(b"..".to_vec());
    assert_eq!(local_target_of(&up, FOLDERS, b"/dst", b"../a"), Ok(b"/dst/a".to_vec()));
    let root = Some(b"/".to_vec());
    assert_eq!(local_target_of(&root, FOLDERS, b"/dst", b"/x/a"), Ok(b"/dst/x/a".to_vec()));
}

#[test]
fn files_alone_go_right_into_the_destination() {
    let dir = Some(b"/home/me/pics".to_vec());
    assert_eq!(
        local_target_of(&dir, FILES, b"/dst", b"/home/me/pics/2020/a.jpg"),
        Ok(b"/dst/a.jpg".to_vec())
    );
    assert_eq!(
        local_target_of(&None, FOLDERS, b"/dst", b"/anywhere/b.jpg"),
        Ok(b"/dst/b.jpg".to_vec())
    );
    assert_eq!(local_target_of(&None, FILES, b"/dst", b"/.."), Err(Plan::NoName));
}

#[test]
fn spaces_are_removed_below_the_destination() {
    let dir = Some(b"/s/my pics".to_vec());
    let t = plan_local(&dir, FOLDERS, true, b"/my dst", b"/s/my pics/a b.jpg");
    assert_eq!(here(&t), b"/my dst/mypics/ab.jpg".to_vec());
    assert_eq!(t.plan, Plan::Go);
    let t = plan_local(&dir, FOLDERS, false, b"/my dst", b"/s/my pics/a b.jpg");
    assert_eq!(here(&t), b"/my dst/my pics/a b.jpg".to_vec());
    assert_eq!(plan_local(&dir, FOLDERS, true, b"/d", b"/x").plan, Plan::OutsideSource);
}

#[test]
fn paths_are_the_same_component_by_component() {
    let t = plan_local(&None, FILES, false, b"/d//./", b"/d/a");
    assert_eq!(t.plan, Plan::Go);
    assert!(is_same_path(&here(&t), b"/d/a"));
    assert!(!is_same_path(&here(&plan_local(&None, FILES, true, b"/d", b"/d/a b")), b"/d/a b"));
    assert!(is_same_path(b"/a//b/.", b"/a/b"));
    assert!(!is_same_path(b"/a/b", b"a/b"));
    assert!(!is_same_path(b"/a/b", b"/a/../a/b"));
}

#[test]
fn uploads_go_below_the_base() {
    let dir = Some(b"/s/my pics".to_vec());
    assert_eq!(
        upload_rel_of(&dir, FOLDERS, b"/s/my pics/x/a.jpg"),
        Ok("my pics/x/a.jpg".to_string())
    );
    assert_eq!(
        upload_rel_of(&Some(b"/".to_vec()), FOLDERS, b"/x/a.jpg"),
        Ok("x/a.jpg".to_string())
    );
    assert_eq!(upload_rel_of(&dir, FILES, b"/q/a.jpg"), Ok("a.jpg".to_string()));
    assert_eq!(upload_rel_of(&dir, FOLDERS, b"/q"), Err(Plan::OutsideSource));
    assert_eq!(upload_rel_of(&None, FILES, b".."), Err(Plan::NoName));
}

#[test]
fn the_base_keeps_its_spaces() {
    assert_eq!(remote_goal_of(false, "/my docs", "p q/a b.txt"), "/my docs/p q/a b.txt");
    assert_eq!(remote_goal_of(true, "/my docs", "p q/a b.txt"), "/my docs/pq/ab.txt");
    let files = vec![b"/s/a b.txt".to_vec()];
    let (tasks, _) = plan_upload(upload_job(), &None, FILES, true, "/my docs", &files);
    assert_eq!(there(&tasks[0]), "/my docs/ab.txt");
}

#[test]
fn files_without_a_target_are_noted_before_the_upload() {
    let dir = Some(b"/s".to_vec());
    let files = vec![b"/s/a b".to_vec(), b"/t/c".to_vec(), b"/s/d".to_vec()];
    let (tasks, notes) = plan_upload(upload_job(), &dir, FOLDERS, true, "/my srv", &files);
    assert_eq!(tasks.iter().map(there).collect::<Vec<_>>(), vec!["/my srv/s/ab", "/my srv/s/d"]);
    assert_eq!(notes, vec!["/t/c: outside source directory".to_string()]);
    let (tasks, notes) =
        plan_upload(upload_job(), &None, FILES, false, "/srv", &vec![b"/".to_vec()]);
    assert!(tasks.is_empty());
    assert_eq!(notes, vec!["/: no filename".to_string()]);
}

#[test]
fn downloads_go_below_the_destination() {
    assert_eq!(
        download_target_of("/r/pics/", FOLDERS, b"/dst", "/r/pics/x/a.jpg"),
        b"/dst/pics/x/a.jpg".to_vec()
    );
    assert_eq!(
        download_target_of("/r/pics", FILES, b"/dst", "/r/pics/x/a.jpg"),
        b"/dst/a.jpg".to_vec()
    );
    assert_eq!(download_target_of("/", FOLDERS, b"/dst", "/x/a"), b"/dst/x/a".to_vec());
    // A single file goes by its name.
    assert_eq!(
        download_target_of("/r/a.jpg", FOLDERS, b"/dst", "/r/a.jpg"),
        b"/dst/a.jpg".to_vec()
    );
    assert_eq!(download_target_of("/r/a.jpg", FILES, b"/dst", "/r/a.jpg"), b"/dst/a.jpg".to_vec());
    let t = plan_download("/r/my pics", FOLDERS, true, b"/d d", "/r/my pics/a b");
    assert_eq!(here(&t), b"/d d/mypics/ab".to_vec());
    assert!(matches!(&t.source, Place::There(p) if p == "/r/my pics/a b"));
}

#[test]
fn relayed_files_are_staged_as_they_lie() {
    assert_eq!(relay_rel_of("/r/pics", FOLDERS, "/r/pics/x/a"), "pics/x/a");
    assert_eq!(relay_rel_of("/r/pics", FILES, "/r/pics/x/a"), "a");
    assert_eq!(relay_rel_of("/r/x.txt", FOLDERS, "/r/x.txt"), "x.txt");
    assert_eq!(plan_relay("/r/x.txt", FOLDERS, false, "/t", "/r/x.txt").staged, b"x.txt".to_vec());
    assert_eq!(there(&plan_relay("/r/x.txt", FILES, false, "/t", "/r/x.txt")), "/t/x.txt");
    let t = plan_relay("/r/pics", FOLDERS, true, "/t t", "/r/pics/x y/a b");
    assert_eq!(there(&t), "/t t/pics/xy/ab");
    assert_eq!(t.staged, b"x y/a b".to_vec());
    assert_eq!(rel_text("/r/", "/r/q"), "q");
    assert_eq!(rel_text("/r/q", "/r/q"), "q");
    assert_eq!(rel_text("/r", "/q"), "q");
    assert_eq!(root_name("/r/pics///"), "pics");
    assert_eq!(root_name("/"), "");
    assert_eq!(root_text_of(b"/r/\xff"), "\u{fffd}");
    assert_eq!(below_root_text("", "a"), "a");
    assert_eq!(below_root_text("r", "a"), "r/a");
}

#[test]
fn each_directory_is_made_once() {
    let files = vec![b"/s/x/a".to_vec(), b"/s/x/b".to_vec(), b"/s/c".to_vec()];
    let (tasks, _) =
        plan_upload(upload_job(), &Some(b"/s".to_vec()), FOLDERS, false, "/srv", &files);
    assert_eq!(dirs_for("/srv", &tasks), vec!["/srv", "/srv/s/x", "/srv/s"]);
    assert_eq!(dirs_for("/srv", &[]), vec!["/srv"]);
}

#[test]
fn the_directory_for_staging_carries_the_number_of_the_process() {
    assert_eq!(tempdir_for_relay(b"/tmp", 4711), b"/tmp/kosmokopy_relay_4711".to_vec());
}

#[test]
fn places_are_shown_and_copied() {
    let a = Place::Here(b"/\xff".to_vec());
    assert_eq!(a.shown(), "/\u{fffd}");
    assert_eq!(a.here(), b"/\xff".to_vec());
    assert_eq!(a.there(), "");
    let b = Place::There("/x".to_string());
    assert_eq!(b.copied().shown(), "/x");
    assert!(b.here().is_empty());
}
