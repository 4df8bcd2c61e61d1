use backup_games::backup::{
    directory_name, is_excluded, sort_subdirs, BackupAction, BackupEvent, BackupRequest, Notice, Phase, SourceBackup,
    Step, SubdirEntry,
};
use backup_games::copy::CopyOpts;

fn strings(v: &[&str]) -> Vec<String> {
    v.iter().map(|s| s.to_string()).collect()
}

fn entry(name: &str, path: &str, mtime: u64) -> SubdirEntry {
    SubdirEntry { name: name.to_string(), path: path.to_string(), mtime }
}

fn request(source: &str, keep_dir: bool) -> BackupRequest {
    BackupRequest {
        source: source.to_string(),
        dest: "/dst".to_string(),
        full: false,
        force_folders: Vec::new(),
        keep_dir,
        min_size_gb: 0,
        excludes: strings(&["c"]),
        backup_exclude: strings(&["webCaches/"]),
    }
}

fn copy(src: &str, dst: &str) -> BackupAction {
    BackupAction::Copy(CopyOpts::new(src, dst).checkers(8).update(true).exclude(&strings(&["webCaches/"])))
}

fn step(m: &mut SourceBackup, ev: BackupEvent) -> Step {
    assert!(m.accepts(&ev), "event {:?} in phase {:?}", ev, m.phase);
    m.step(ev)
}

fn saved_contents(s: &Step) -> String {
    match &s.action {
        BackupAction::SaveManifest { path, contents } => {
            assert!(path.ends_with(".local/share/backup-games/manifest"), "{}", path);
            contents.clone()
        }
        other => panic!("expected a manifest save, got {:?}", other),
    }
}

#[test]
fn flat_source_skips_unchanged_copies_changed_and_prunes_excluded() {
    let (mut m, s) = SourceBackup::start(request("/src", false), 8, "a=10\n");
    assert_eq!(s.action, BackupAction::ListSubdirs("/src".to_string()));
    let list = vec![entry("a", "/src/a", 10), entry("b", "/src/b", 20), entry("c", "/src/c", 5)];
    let s = step(&mut m, BackupEvent::Subdirs(Ok(list)));
    assert_eq!(s.action, BackupAction::CheckInterrupted);
    assert_eq!(m.excluded, strings(&["c"]));
    let s = step(&mut m, BackupEvent::Interrupted(false));
    assert_eq!(s.notices, vec![Notice::Unchanged("a".to_string())]);
    assert_eq!(s.action, BackupAction::CheckInterrupted);
    let s = step(&mut m, BackupEvent::Interrupted(false));
    assert_eq!(s.notices, vec![Notice::Copying("b".to_string())]);
    assert_eq!(s.action, copy("/src/b", "/dst/b"));
    let s = step(&mut m, BackupEvent::Copied(Ok(())));
    assert_eq!(saved_contents(&s), "a=10\nb=20\n");
    let s = step(&mut m, BackupEvent::Saved(Ok(())));
    assert_eq!(saved_contents(&s), "a=10\nb=20\n");
    let s = step(&mut m, BackupEvent::Saved(Ok(())));
    assert_eq!(s.action, BackupAction::CheckExists("/dst/c".to_string()));
    let s = step(&mut m, BackupEvent::Exists(true));
    assert_eq!(s.notices, vec![Notice::Pruning("c".to_string())]);
    assert_eq!(s.action, BackupAction::Delete("/dst/c".to_string()));
    let s = step(&mut m, BackupEvent::Deleted);
    assert_eq!(s.notices, vec![Notice::Pruned("c".to_string()), Notice::Summary { changed: 1, skipped: 1 }]);
    assert_eq!(s.action, BackupAction::Finish(Ok(1)));
    assert_eq!(m.phase, Phase::Done);
    assert!(!m.accepts(&BackupEvent::Deleted));
}

#[test]
fn full_backup_copies_unchanged_directories() {
    let mut req = request("/src", false);
    req.full = true;
    let (mut m, _) = SourceBackup::start(req, 8, "a=10\n");
    assert_eq!(m.manifest.len(), 0);
    step(&mut m, BackupEvent::Subdirs(Ok(vec![entry("a", "/src/a", 10)])));
    let s = step(&mut m, BackupEvent::Interrupted(false));
    assert_eq!(s.action, copy("/src/a", "/dst/a"));
}

#[test]
fn forced_directories_are_copied() {
    let mut req = request("/src", false);
    req.force_folders = strings(&["a"]);
    let (mut m, _) = SourceBackup::start(req, 8, "a=10\n");
    step(&mut m, BackupEvent::Subdirs(Ok(vec![entry("a", "/src/a", 10)])));
    let s = step(&mut m, BackupEvent::Interrupted(false));
    assert_eq!(s.action, copy("/src/a", "/dst/a"));
}

#[test]
fn all_excluded_copies_nothing() {
    let (mut m, _) = SourceBackup::start(request("/src", false), 8, "");
    let s = step(&mut m, BackupEvent::Subdirs(Ok(vec![entry("c", "/src/c", 1)])));
    assert_eq!(s.notices, vec![Notice::AllExcluded]);
    assert_eq!(s.action, BackupAction::Finish(Ok(0)));
}

#[test]
fn no_subdirectories_copies_the_whole_tree() {
    let (mut m, _) = SourceBackup::start(request("/src", false), 4, "");
    let s = step(&mut m, BackupEvent::Subdirs(Ok(Vec::new())));
    assert_eq!(s.notices, vec![Notice::NoSubdirectories]);
    assert_eq!(
        s.action,
        BackupAction::Copy(CopyOpts::new("/src", "/dst").checkers(4).update(true).exclude(&strings(&["webCaches/"])))
    );
    let s = step(&mut m, BackupEvent::Copied(Ok(())));
    assert_eq!(saved_contents(&s), "");
    let s = step(&mut m, BackupEvent::Saved(Ok(())));
    assert_eq!(s.action, BackupAction::Finish(Ok(1)));
}

#[test]
fn listing_error_ends_the_backup() {
    let (mut m, _) = SourceBackup::start(request("/src", false), 8, "");
    let s = step(&mut m, BackupEvent::Subdirs(Err("no such dir".to_string())));
    assert_eq!(s.action, BackupAction::Finish(Err("no such dir".to_string())));
}

#[test]
fn interruption_between_directories_saves_and_prunes() {
    let (mut m, _) = SourceBackup::start(request("/src", false), 8, "");
    step(&mut m, BackupEvent::Subdirs(Ok(vec![entry("a", "/src/a", 1), entry("c", "/src/c", 1)])));
    let s = step(&mut m, BackupEvent::Interrupted(true));
    assert_eq!(s.notices, vec![Notice::Interrupted]);
    assert_eq!(saved_contents(&s), "");
    let s = step(&mut m, BackupEvent::Saved(Ok(())));
    assert_eq!(s.action, BackupAction::CheckExists("/dst/c".to_string()));
    let s = step(&mut m, BackupEvent::Exists(false));
    assert_eq!(s.notices, vec![Notice::Summary { changed: 0, skipped: 0 }]);
    assert_eq!(s.action, BackupAction::Finish(Ok(0)));
}

#[test]
fn interrupted_copy_saves_progress_and_stops() {
    let (mut m, _) = SourceBackup::start(request("/src", false), 8, "");
    step(&mut m, BackupEvent::Subdirs(Ok(vec![entry("a", "/src/a", 1), entry("b", "/src/b", 2)])));
    step(&mut m, BackupEvent::Interrupted(false));
    let s = step(&mut m, BackupEvent::Copied(Ok(())));
    assert_eq!(saved_contents(&s), "a=1\n");
    step(&mut m, BackupEvent::Saved(Err("disk full".to_string())));
    let s = step(&mut m, BackupEvent::Interrupted(false));
    assert_eq!(s.action, copy("/src/b", "/dst/b"));
    let s = step(&mut m, BackupEvent::Copied(Err("rclone copy failed".to_string())));
    assert_eq!(s.action, BackupAction::CheckInterrupted);
    let s = step(&mut m, BackupEvent::Interrupted(true));
    assert_eq!(saved_contents(&s), "a=1\n");
    let s = step(&mut m, BackupEvent::Saved(Ok(())));
    assert_eq!(s.notices, vec![Notice::InterruptedSaved]);
    assert_eq!(s.action, BackupAction::Finish(Ok(1)));
}

#[test]
fn failed_copy_without_interruption_is_an_error() {
    let (mut m, _) = SourceBackup::start(request("/src", false), 8, "");
    step(&mut m, BackupEvent::Subdirs(Ok(vec![entry("a", "/src/a", 1)])));
    step(&mut m, BackupEvent::Interrupted(false));
    step(&mut m, BackupEvent::Copied(Err("rclone copy failed".to_string())));
    let s = step(&mut m, BackupEvent::Interrupted(false));
    assert_eq!(s.action, BackupAction::Finish(Err("rclone copy failed".to_string())));
}

#[test]
fn save_warning_does_not_stop_the_loop() {
    let (mut m, _) = SourceBackup::start(request("/src", false), 8, "");
    step(&mut m, BackupEvent::Subdirs(Ok(vec![entry("a", "/src/a", 1)])));
    step(&mut m, BackupEvent::Interrupted(false));
    step(&mut m, BackupEvent::Copied(Ok(())));
    let s = step(&mut m, BackupEvent::Saved(Err("read-only".to_string())));
    assert_eq!(s.notices, vec![Notice::SaveWarning("read-only".to_string())]);
    assert_eq!(saved_contents(&s), "a=1\n");
    assert_eq!(m.changed, 1);
}

#[test]
fn directory_source_unchanged_with_files_is_skipped() {
    let (mut m, s) = SourceBackup::start(request("/data/Foo/", true), 8, "Foo=7\n");
    assert_eq!(m.dir_name, "Foo");
    assert_eq!(s.action, BackupAction::ReadMtime("/data/Foo/".to_string()));
    let s = step(&mut m, BackupEvent::Mtime(Some(7)));
    assert_eq!(s.action, BackupAction::CheckDestHasFiles("/dst/Foo".to_string()));
    let s = step(&mut m, BackupEvent::DestHasFiles(true));
    assert_eq!(s.notices, vec![Notice::Unchanged("Foo".to_string())]);
    assert_eq!(s.action, BackupAction::Finish(Ok(0)));
}

#[test]
fn directory_source_with_empty_destination_is_copied() {
    let (mut m, _) = SourceBackup::start(request("/data/Foo", true), 8, "Foo=7\n");
    step(&mut m, BackupEvent::Mtime(Some(7)));
    let s = step(&mut m, BackupEvent::DestHasFiles(false));
    assert_eq!(s.notices, vec![Notice::Copying("Foo".to_string())]);
    assert_eq!(s.action, copy("/data/Foo", "/dst/Foo"));
    let s = step(&mut m, BackupEvent::Copied(Ok(())));
    assert_eq!(saved_contents(&s), "Foo=7\n");
    let s = step(&mut m, BackupEvent::Saved(Ok(())));
    assert_eq!(s.action, BackupAction::Finish(Ok(1)));
}

#[test]
fn small_directory_source_is_recorded_and_skipped() {
    let mut req = request("/data/Foo", true);
    req.min_size_gb = 5;
    let (mut m, _) = SourceBackup::start(req, 8, "");
    step(&mut m, BackupEvent::Mtime(None));
    let s = step(&mut m, BackupEvent::DestHasFiles(true));
    assert_eq!(s.action, BackupAction::MeasureSize { path: "/data/Foo".to_string(), min_size_gb: 5 });
    let s = step(&mut m, BackupEvent::TooSmall(true));
    assert_eq!(s.notices, vec![Notice::TooSmall { name: "Foo".to_string(), min_size_gb: 5 }]);
    assert_eq!(saved_contents(&s), "Foo=0\n");
    let s = step(&mut m, BackupEvent::Saved(Ok(())));
    assert_eq!(s.action, BackupAction::Finish(Ok(0)));
}

#[test]
fn directory_source_under_games_keeps_its_relative_path() {
    let (m, _) = SourceBackup::start(request("~/Games/honkers-railway-launcher/HSR", true), 8, "");
    assert_eq!(m.dir_name, "honkers-railway-launcher/HSR");
    let (m, _) = SourceBackup::start(request("/", true), 8, "");
    assert_eq!(m.dir_name, "backup");
}

#[test]
fn exclusion_by_name_or_expanded_path() {
    let ex = strings(&["skip", "/src/other"]);
    assert!(is_excluded("skip", "/src/skip", &ex, &None));
    assert!(is_excluded("other", "/src/other", &ex, &None));
    assert!(!is_excluded("keep", "/src/keep", &ex, &None));
    let ex = strings(&["~/Games/x"]);
    assert!(is_excluded("x", "/home/u/Games/x", &ex, &Some("/home/u".to_string())));
    assert!(!is_excluded("x", "/home/u/Games/x", &ex, &None));
}

#[test]
fn subdirectories_are_sorted_by_name() {
    let sorted = sort_subdirs(vec![entry("b", "/s/b", 1), entry("B", "/s/B", 2), entry("a", "/s/a", 3), entry("a", "/s/a2", 4)]);
    let names: Vec<(&str, &str)> = sorted.iter().map(|e| (e.name.as_str(), e.path.as_str())).collect();
    assert_eq!(names, vec![("B", "/s/B"), ("a", "/s/a"), ("a", "/s/a2"), ("b", "/s/b")]);
}

#[test]
fn directory_names() {
    assert_eq!(directory_name("/h/Games//HSR/x", "/h/Games", Some("x")), "HSR/x");
    assert_eq!(directory_name("/h/Games", "/h/Games", None), "");
    assert_eq!(directory_name("/data/Foo", "/h/Games", Some("Foo")), "Foo");
    assert_eq!(directory_name("/", "/h/Games", None), "backup");
    assert_eq!(directory_name("/home/u/GamesOld/X", "/home/u/Games", Some("X")), "X");
    assert_eq!(directory_name("/home/u/Games/X", "/home/u/Games", Some("X")), "X");
}
