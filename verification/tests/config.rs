use backup_games::config::{
    load_backup_exclude, load_dir_sources, load_dir_sources_for, load_excludes, load_min_size_gb, load_sources,
    resolve_dest, UserConfig, DEFAULT_DEST, DEFAULT_SOURCE,
};
use backup_games::paths::{config_file_for, expand_tilde, user_config_path};

const SAMPLE: &str = "# comment\nsources=~/Games\ndirsources=~/Games/honkers-railway-launcher/HSR,~/.local/share/honkers\n\nexclude=~/Games/honkers-railway-launcher\ndest=/mnt/HDD4T/GAMES\nbackup_exclude = webCaches/\nno equals sign\n  #indented comment=1\nmin_size=5\n";

#[test]
fn parses_the_documented_config() {
    let cfg = UserConfig::parse(SAMPLE);
    assert_eq!(cfg.get("sources"), Some("~/Games".to_string()));
    assert_eq!(cfg.get("backup_exclude"), Some("webCaches/".to_string()));
    assert_eq!(cfg.get("no equals sign"), None);
    assert_eq!(cfg.get("#indented comment"), None);
    assert_eq!(
        load_dir_sources(&cfg),
        vec!["~/Games/honkers-railway-launcher/HSR".to_string(), "~/.local/share/honkers".to_string()]
    );
    assert_eq!(load_excludes(&cfg), vec!["~/Games/honkers-railway-launcher".to_string()]);
    assert_eq!(load_backup_exclude(&cfg), vec!["webCaches/".to_string()]);
    assert_eq!(load_min_size_gb(&cfg), 5);
    assert_eq!(resolve_dest(&cfg, None), "/mnt/HDD4T/GAMES");
}

#[test]
fn later_settings_win_and_values_are_trimmed() {
    let cfg = UserConfig::parse("dest = /a \ndest=/b=c\n");
    assert_eq!(cfg.get("dest"), Some("/b=c".to_string()));
}

#[test]
fn command_line_source_overrides_config() {
    let cfg = UserConfig::parse(SAMPLE);
    assert_eq!(load_sources(&cfg, Some("~/Other")), vec!["~/Other".to_string()]);
    assert_eq!(load_sources(&cfg, None), vec!["~/Games".to_string()]);
    assert_eq!(load_dir_sources_for(&cfg, Some("~/Other")), Vec::<String>::new());
    assert_eq!(load_dir_sources_for(&cfg, None), load_dir_sources(&cfg));
}

#[test]
fn single_source_key_and_default() {
    let cfg = UserConfig::parse("source=/games\n");
    assert_eq!(load_sources(&cfg, None), vec!["/games".to_string()]);
    let empty = UserConfig::empty();
    assert_eq!(load_sources(&empty, None), vec![DEFAULT_SOURCE.to_string()]);
    assert_eq!(load_dir_sources(&empty), Vec::<String>::new());
    assert_eq!(load_min_size_gb(&empty), 0);
    assert_eq!(resolve_dest(&empty, None), DEFAULT_DEST);
    assert_eq!(resolve_dest(&empty, Some("/x")), "/x");
}

#[test]
fn unreadable_min_size_means_no_limit() {
    let cfg = UserConfig::parse("min_size=ten\n");
    assert_eq!(load_min_size_gb(&cfg), 0);
}

#[test]
fn tilde_expansion_leaves_other_paths_alone() {
    assert_eq!(expand_tilde("/mnt/HDD4T/GAMES"), "/mnt/HDD4T/GAMES");
    assert_eq!(expand_tilde("~user/x"), "~user/x");
    assert_eq!(expand_tilde("a/~/b"), "a/~/b");
}

#[test]
fn tilde_expands_to_the_home_directory() {
    let home = expand_tilde("~");
    let games = expand_tilde("~/Games");
    if home != "~" {
        assert!(!home.is_empty());
        let want = if home.ends_with('/') { format!("{}Games", home) } else { format!("{}/Games", home) };
        assert_eq!(games, want);
    } else {
        assert_eq!(games, "~/Games");
    }
}

#[test]
fn config_file_lives_under_backup_games() {
    let p = user_config_path();
    assert!(p.ends_with("/backup-games/config"), "{}", p);
    assert_ne!(p, "backup-games/config");
}

#[test]
fn config_file_for_a_given_directory() {
    assert_eq!(config_file_for(Some("/home/u/.config")), "/home/u/.config/backup-games/config");
    assert_eq!(config_file_for(Some("/xdg/")), "/xdg/backup-games/config");
    assert_eq!(config_file_for(None), "~/.config/backup-games/config");
}
