use slnky::config::{
    config_dir, config_path, daemon_log_path, daemon_pid_path, default_debounce_ms,
    default_true, expand_tilde, stow_dir_candidates, Config, ConflictResolution,
};

#[test]
fn test_defaults() {
    assert!(default_true());
    assert_eq!(default_debounce_ms(), 1000);
    let c = Config::default_for_home("/home/sam");
    assert_eq!(c.stow_dir, "/home/sam/.dotfiles");
    assert_eq!(c.target_dir, "/home/sam");
    assert!(c.packages.is_empty());
    assert!(c.secrets_enabled);
    assert!(c.auto_sync.enabled);
    assert!(c.auto_sync.auto_link_new_packages);
    assert!(c.auto_sync.auto_git_pull);
    assert_eq!(c.auto_sync.conflict_resolution, ConflictResolution::Backup);
    assert_eq!(c.auto_sync.debounce_ms, 1000);
}

#[test]
fn test_well_known_paths() {
    assert_eq!(config_dir("/home/sam"), "/home/sam/.config/slinky");
    assert_eq!(config_path("/home/sam"), "/home/sam/.config/slinky/config.toml");
    assert_eq!(daemon_pid_path("/home/sam"), "/home/sam/.config/slinky/daemon.pid");
    assert_eq!(daemon_log_path("/home/sam"), "/home/sam/.config/slinky/daemon.log");
}

#[test]
fn test_stow_dir_candidates() {
    let c = stow_dir_candidates("/home/sam");
    assert_eq!(
        c,
        vec![
            "/home/sam/.dotfiles".to_string(),
            "/home/sam/dotfiles".to_string(),
            "/home/sam/.config/dotfiles".to_string(),
            "/home/sam/code/dotfiles".to_string(),
            "/home/sam/projects/dotfiles".to_string(),
        ]
    );
}

#[test]
fn test_expand_tilde() {
    let home = "/home/sam".to_string();
    assert_eq!(expand_tilde("~/dotfiles", Some(&home)), "/home/sam/dotfiles");
    assert_eq!(expand_tilde("/abs/path", Some(&home)), "/abs/path");
    assert_eq!(expand_tilde("~/dotfiles", None), "~/dotfiles");
    assert_eq!(expand_tilde("~nothome", Some(&home)), "~nothome");
}
