use backup_games::system::{
    detect_path, detect_pm, disk_kind, install_command, missing_deps, os_id, probe_after_df,
    probe_after_lsblk, probe_after_rotational, probe_start, ProbeAction,
};

#[test]
fn df_failures_and_pseudo_devices_use_the_default() {
    assert_eq!(probe_after_df(None), ProbeAction::Done(8));
    assert_eq!(probe_after_df(Some("")), ProbeAction::Done(8));
    assert_eq!(probe_after_df(Some("Filesystem")), ProbeAction::Done(8));
    assert_eq!(probe_after_df(Some("tmpfs")), ProbeAction::Done(8));
    assert_eq!(probe_after_df(Some(" /dev/sda1 ")), ProbeAction::RunLsblk("/dev/sda1".to_string()));
}

#[test]
fn nvme_disks_get_sixteen() {
    assert_eq!(probe_after_lsblk("/dev/nvme0n1p2", None), ProbeAction::Done(16));
    assert_eq!(probe_after_lsblk("/dev/sda1", Some("nvme1n1\n")), ProbeAction::Done(16));
    assert_eq!(probe_after_lsblk("/dev/sda1", Some("sda")), ProbeAction::ReadRotational("sda".to_string()));
    assert_eq!(probe_after_lsblk("/dev/sdb1", None), ProbeAction::ReadRotational("sdb1".to_string()));
    assert_eq!(probe_after_lsblk("/dev/sdb1", Some("")), ProbeAction::ReadRotational("".to_string()));
}

#[test]
fn spinning_disks_get_three() {
    assert_eq!(probe_after_rotational(Some("1\n")), 3);
    assert_eq!(probe_after_rotational(Some("0\n")), 8);
    assert_eq!(probe_after_rotational(None), 8);
}

#[test]
fn probe_starts_with_df_on_the_expanded_destination() {
    assert_eq!(probe_start("/mnt/HDD4T/GAMES"), ProbeAction::RunDf("/mnt/HDD4T/GAMES".to_string()));
    match probe_start("~/x") {
        ProbeAction::RunDf(p) => assert!(p.ends_with("/x")),
        other => panic!("{:?}", other),
    }
}

#[test]
fn disk_kinds() {
    assert_eq!(disk_kind(3), "HDD");
    assert_eq!(disk_kind(8), "SSD");
    assert_eq!(disk_kind(16), "NVMe");
}

#[test]
fn os_id_reads_the_id_line() {
    assert_eq!(os_id(Some("NAME=\"Arch Linux\"\nID=\"arch\"\nID_LIKE=x\n")), "arch");
    assert_eq!(os_id(Some("ID=debian\n")), "debian");
    assert_eq!(os_id(Some("NAME=x\n")), "linux");
    assert_eq!(os_id(None), "linux");
}

#[test]
fn per_machine_path() {
    assert_eq!(detect_path("/b", "s", Some("box"), Some("ID=fedora\n")), "/b/box-fedora/s");
    assert_eq!(detect_path("/b", "s", None, None), "/b/unknown-linux/s");
}

#[test]
fn missing_dependencies_in_order() {
    assert_eq!(missing_deps(&[true, false, true, false]), vec!["gdu".to_string(), "jq".to_string()]);
    assert_eq!(missing_deps(&[true, true, true, true]), Vec::<String>::new());
}

#[test]
fn first_package_manager_found_wins() {
    assert_eq!(detect_pm(&[false, true, true, false]), "pacman");
    assert_eq!(detect_pm(&[false, false, false, false]), "unknown");
    assert_eq!(detect_pm(&[true, true, true, true]), "apt");
}

#[test]
fn install_commands() {
    let m = vec!["rclone".to_string(), "fzf".to_string()];
    assert_eq!(install_command("apt", &m), Ok("sudo apt install -y rclone fzf".to_string()));
    assert_eq!(install_command("pacman", &m), Ok("sudo pacman -S --noconfirm rclone fzf".to_string()));
    assert_eq!(install_command("dnf", &m), Ok("sudo dnf install -y rclone fzf".to_string()));
    assert_eq!(install_command("zypper", &m), Ok("sudo zypper install -y rclone fzf".to_string()));
    assert_eq!(
        install_command("unknown", &m),
        Err("Unsupported package manager. Install manually: rclone, fzf".to_string())
    );
}
