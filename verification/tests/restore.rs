use backup_games::copy::CopyOpts;
use backup_games::text::non_empty_lines;
use backup_games::restore::{
    pick_subdir, restore_destination, restore_item, restore_target, RestoreAction, RestoreEvent, RestoreNotice,
    RestoreSession,
};

#[test]
fn picks_only_a_single_subdirectory() {
    assert_eq!(pick_subdir(""), None);
    assert_eq!(pick_subdir("\n\n"), None);
    assert_eq!(pick_subdir("/b/Game/Sub \n"), Some("/b/Game/Sub".to_string()));
    assert_eq!(pick_subdir("/b/NTE/Client\n/b/NTE/NTEGlobal\n"), None);
}

#[test]
fn non_empty_lines_drop_blank_lines() {
    assert_eq!(non_empty_lines("a\n\nb\r\n"), vec!["a".to_string(), "b".to_string()]);
    assert_eq!(non_empty_lines(""), Vec::<String>::new());
}

#[test]
fn whole_item_is_restored_below_the_destination() {
    let ex = vec!["webCaches/".to_string()];
    let r = restore_item("/mnt/b/Celeste", "/mnt/b", "/home/u/Games", "", &ex);
    assert_eq!(r.shown, "Celeste");
    assert_eq!(r.single_subdir, None);
    assert_eq!(r.opts, CopyOpts::new("/mnt/b/Celeste", "/home/u/Games/Celeste").exclude(&ex));
    assert!(!r.opts.update);
}

#[test]
fn single_subdirectory_is_restored_on_its_own() {
    let r = restore_item("/mnt/b/Game", "/mnt/b", "/home/u/Games", "/mnt/b/Game/Sub\n", &[]);
    assert_eq!(r.shown, "Game/Sub");
    assert_eq!(r.single_subdir, Some("Sub".to_string()));
    assert_eq!(r.opts.src, "/mnt/b/Game/Sub");
    assert_eq!(r.opts.dst, "/home/u/Games/Game/Sub");
}

#[test]
fn item_outside_the_root_is_shown_whole() {
    let r = restore_item("/other/X", "/mnt/b", "/d", "", &[]);
    assert_eq!(r.shown, "/other/X");
    assert_eq!(r.opts.dst, "/d//other/X");
    let (shown, dest) = restore_target("/other/X", None, "/d");
    assert_eq!((shown.as_str(), dest.as_str()), ("/other/X", "/d//other/X"));
    let (shown, dest) = restore_target("/mnt/b/X", Some("X"), "/d");
    assert_eq!((shown.as_str(), dest.as_str()), ("X", "/d/X"));
}

#[test]
fn blank_answer_restores_to_the_default() {
    assert_eq!(restore_destination("  \n", "/home/u/Games"), "/home/u/Games");
    assert_eq!(restore_destination(" /tmp/r \n", "/home/u/Games"), "/tmp/r");
}

fn ok(s: &str) -> Result<String, String> {
    Ok(s.to_string())
}

#[test]
fn missing_backup_root_stops_before_the_prompt() {
    let (mut s, step) = RestoreSession::start("/nonexistent/backups", &[], false);
    assert!(step.notices.is_empty());
    assert_eq!(step.action, RestoreAction::CheckExists("/nonexistent/backups".to_string()));
    assert!(!s.accepts(&RestoreEvent::Answer(ok(""))));
    let step = s.step(RestoreEvent::Exists(false));
    assert_eq!(step.notices, vec![RestoreNotice::RootMissing("/nonexistent/backups".to_string())]);
    assert_eq!(step.action, RestoreAction::Finish(Ok(())));
    assert!(!s.accepts(&RestoreEvent::Exists(true)));
}

#[test]
fn full_restore_copies_every_listed_item_in_order() {
    let ex = vec!["webCaches/".to_string()];
    let (mut s, _) = RestoreSession::start("/b", &ex, true);
    let step = s.step(RestoreEvent::Exists(true));
    assert!(matches!(step.action, RestoreAction::Prompt(_)));
    let step = s.step(RestoreEvent::Answer(ok("  /r \n")));
    assert_eq!(step.action, RestoreAction::ListItems("/b".to_string()));
    let step = s.step(RestoreEvent::Listing(ok("/b/A\n\n/b/B\n")));
    assert_eq!(
        step.notices,
        vec![RestoreNotice::Found { count: 2, root: "/b".to_string() }, RestoreNotice::FullRestore]
    );
    assert_eq!(step.action, RestoreAction::ListSubdirs("/b/A".to_string()));
    let step = s.step(RestoreEvent::SubdirListing(ok("")));
    assert_eq!(
        step.notices,
        vec![RestoreNotice::Copying { shown: "A".to_string(), dst: "/r/A".to_string() }]
    );
    assert_eq!(step.action, RestoreAction::Copy(CopyOpts::new("/b/A", "/r/A").exclude(&ex)));
    let step = s.step(RestoreEvent::Copied(Ok(())));
    assert!(step.notices.is_empty());
    assert_eq!(step.action, RestoreAction::ListSubdirs("/b/B".to_string()));
    let step = s.step(RestoreEvent::SubdirListing(ok("/b/B/Sub\n")));
    assert_eq!(
        step.notices,
        vec![
            RestoreNotice::SingleSubdir("Sub".to_string()),
            RestoreNotice::Copying { shown: "B/Sub".to_string(), dst: "/r/B/Sub".to_string() },
        ]
    );
    assert_eq!(step.action, RestoreAction::Copy(CopyOpts::new("/b/B/Sub", "/r/B/Sub").exclude(&ex)));
    let step = s.step(RestoreEvent::Copied(Ok(())));
    assert_eq!(step.action, RestoreAction::Finish(Ok(())));
}

#[test]
fn selection_decides_what_is_restored() {
    let (mut s, _) = RestoreSession::start("/b", &[], false);
    s.step(RestoreEvent::Exists(true));
    s.step(RestoreEvent::Answer(ok("/r")));
    let listing = "/b/A\n/b/B\n/b/C\n";
    let step = s.step(RestoreEvent::Listing(ok(listing)));
    assert_eq!(step.notices, vec![RestoreNotice::Found { count: 3, root: "/b".to_string() }]);
    assert_eq!(step.action, RestoreAction::Select(listing.to_string()));
    let step = s.step(RestoreEvent::Selected(ok("/b/C\n/b/A\n")));
    assert_eq!(step.notices, vec![RestoreNotice::Restoring { count: 2, dest: "/r".to_string() }]);
    assert_eq!(step.action, RestoreAction::ListSubdirs("/b/C".to_string()));
    s.step(RestoreEvent::SubdirListing(ok("/b/C/x\n/b/C/y\n")));
    let step = s.step(RestoreEvent::Copied(Ok(())));
    assert_eq!(step.action, RestoreAction::ListSubdirs("/b/A".to_string()));
}

#[test]
fn empty_listing_or_selection_restores_nothing() {
    let (mut s, _) = RestoreSession::start("/b", &[], false);
    s.step(RestoreEvent::Exists(true));
    s.step(RestoreEvent::Answer(ok("")));
    let step = s.step(RestoreEvent::Listing(ok("\n")));
    assert_eq!(step.notices, vec![RestoreNotice::NoBackups("/b".to_string())]);
    assert_eq!(step.action, RestoreAction::Finish(Ok(())));

    let (mut s, _) = RestoreSession::start("/b", &[], false);
    s.step(RestoreEvent::Exists(true));
    s.step(RestoreEvent::Answer(ok("")));
    s.step(RestoreEvent::Listing(ok("/b/A\n")));
    let step = s.step(RestoreEvent::Selected(ok("")));
    assert_eq!(step.notices, vec![RestoreNotice::NoneSelected]);
    assert_eq!(step.action, RestoreAction::Finish(Ok(())));
}

#[test]
fn a_failure_ends_the_restore() {
    let (mut s, _) = RestoreSession::start("/b", &[], true);
    s.step(RestoreEvent::Exists(true));
    s.step(RestoreEvent::Answer(ok("/r")));
    s.step(RestoreEvent::Listing(ok("/b/A\n/b/B\n")));
    s.step(RestoreEvent::SubdirListing(ok("")));
    let step = s.step(RestoreEvent::Copied(Err("copy failed".to_string())));
    assert_eq!(step.action, RestoreAction::Finish(Err("copy failed".to_string())));
    assert!(!s.accepts(&RestoreEvent::Copied(Ok(()))));

    let (mut s, _) = RestoreSession::start("/b", &[], false);
    s.step(RestoreEvent::Exists(true));
    let step = s.step(RestoreEvent::Answer(Err("no input".to_string())));
    assert_eq!(step.action, RestoreAction::Finish(Err("no input".to_string())));
}

#[test]
fn blank_answer_uses_the_default_destination() {
    let (mut s, _) = RestoreSession::start("/b", &[], true);
    let step = s.step(RestoreEvent::Exists(true));
    let default_dest = match step.action {
        RestoreAction::Prompt(d) => d,
        other => panic!("unexpected action {:?}", other),
    };
    s.step(RestoreEvent::Answer(ok("\n")));
    s.step(RestoreEvent::Listing(ok("/b/A\n")));
    let step = s.step(RestoreEvent::SubdirListing(ok("")));
    assert_eq!(
        step.notices,
        vec![RestoreNotice::Copying { shown: "A".to_string(), dst: format!("{}/A", default_dest) }]
    );
}
