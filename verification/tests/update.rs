use backup_games::update::{confirms_install, is_on_tag, update_status, UpdateStatus};

#[test]
fn on_tag_means_the_tag_or_a_describe_of_it() {
    assert!(is_on_tag("v2.1.2", "v2.1.2"));
    assert!(is_on_tag("v2.1.2-3-gabcdef", "v2.1.2"));
    assert!(!is_on_tag("v2.1.20", "v2.1.2"));
    assert!(!is_on_tag("v2.1.1", "v2.1.2"));
}

#[test]
fn blank_or_y_confirms() {
    assert!(confirms_install(Some("\n")));
    assert!(confirms_install(Some(" Y\n")));
    assert!(confirms_install(Some("y")));
    assert!(!confirms_install(Some("n\n")));
    assert!(!confirms_install(Some("yes")));
    assert!(confirms_install(None));
}

#[test]
fn empty_or_failed_fetch_cannot_tell() {
    assert_eq!(update_status("v2.1.2", None), UpdateStatus::CouldNotCheck);
    assert_eq!(update_status("v2.1.2", Some("")), UpdateStatus::CouldNotCheck);
    assert_eq!(update_status("v2.1.2", Some("v2.1.2")), UpdateStatus::UpToDate);
    assert_eq!(update_status("v2.1.2-3-gabcdef", Some("v2.1.2")), UpdateStatus::UpToDate);
    assert_eq!(update_status("v2.1.20", Some("v2.1.2")), UpdateStatus::Available);
    assert_eq!(update_status("v2.1.1", Some("v2.1.2")), UpdateStatus::Available);
}
