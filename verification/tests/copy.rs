use backup_games::copy::{copy_command, copy_command_with, CopyOpts};

#[test]
fn backup_copy_arguments() {
    let o = CopyOpts::new("/src/a", "/dst/a").checkers(3).update(true).exclude(&["webCaches/".to_string()]);
    let c = copy_command(&o);
    assert_eq!(c.destination, "/dst/a");
    assert_eq!(
        c.args,
        vec![
            "copy", "/src/a", "/dst/a", "--progress", "--stats=1s", "--checkers=3", "--transfers=3",
            "--update", "--verbose", "--exclude", "webCaches/",
        ]
        .iter()
        .map(|s| s.to_string())
        .collect::<Vec<_>>()
    );
}

#[test]
fn restore_copy_has_no_update_flag() {
    let o = CopyOpts::new("/b/x", "/r/x").ntfs(true).skip_links(true);
    let c = copy_command(&o);
    assert_eq!(
        c.args,
        vec!["copy", "/b/x", "/r/x", "--progress", "--stats=1s", "--verbose", "--skip-links", "--ignore-errors"]
            .iter()
            .map(|s| s.to_string())
            .collect::<Vec<_>>()
    );
}

#[test]
fn copy_paths_are_expanded() {
    let c = copy_command(&CopyOpts::new("~/Games/x", "/d"));
    assert!(!c.args[1].starts_with("~/") || c.args[1] == "~/Games/x");
    assert!(c.args[1].ends_with("/Games/x"));
}

#[test]
fn copy_paths_are_expanded_against_a_given_home() {
    let o = CopyOpts::new("~/Games/x", "~");
    let c = copy_command_with(&o, &Some("/home/u".to_string()));
    assert_eq!(c.destination, "/home/u");
    assert_eq!(&c.args[..3], &["copy".to_string(), "/home/u/Games/x".to_string(), "/home/u".to_string()]);
    let c = copy_command_with(&o, &None);
    assert_eq!(&c.args[..3], &["copy".to_string(), "~/Games/x".to_string(), "~".to_string()]);
}
