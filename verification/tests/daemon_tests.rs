use slnky::config::{AutoSyncConfig, ConflictResolution};
use slnky::daemon::{
    backup_path_for, chrono_lite_now, daemon_start_decision, format_log_line,
    get_package_from_path, interpret_pull_output, is_daemon_running, is_git_dir_change,
    parse_pid_file, resolve_conflict, should_ignore_path, ConflictEffect, DaemonAction,
    DaemonError, DaemonEvent, DaemonState, PullOutcome,
};
use slnky::stow::TargetState;

fn default_cfg() -> AutoSyncConfig {
    AutoSyncConfig {
        enabled: true,
        auto_link_new_packages: true,
        auto_git_pull: true,
        conflict_resolution: ConflictResolution::Backup,
        debounce_ms: 1000,
    }
}

#[test]
fn test_debounce_coalescing() {
    // Many change events for one package within a window yield exactly
    // one relink attempt on the next tick.
    let mut state = DaemonState::new(vec!["nvim".to_string()]);
    let cfg = default_cfg();
    for _ in 0..5 {
        state.handle_event(
            DaemonEvent::DotfileChanged("/dots/nvim/init.lua".to_string()),
            &cfg,
            "/dots",
        );
    }
    let work = state.drain_relink_queue();
    assert_eq!(work, vec!["nvim".to_string()]);
    // The queue is drained: the next tick has nothing left to do.
    assert!(state.drain_relink_queue().is_empty());
}

#[test]
fn test_events_for_two_packages() {
    let mut state = DaemonState::new(vec!["nvim".to_string(), "zsh".to_string()]);
    let cfg = default_cfg();
    state.handle_event(
        DaemonEvent::DotfileChanged("/dots/nvim/a".to_string()),
        &cfg,
        "/dots",
    );
    state.handle_event(
        DaemonEvent::DotfileChanged("/dots/zsh/b".to_string()),
        &cfg,
        "/dots",
    );
    state.handle_event(
        DaemonEvent::DotfileChanged("/dots/nvim/c".to_string()),
        &cfg,
        "/dots",
    );
    let work = state.drain_relink_queue();
    assert_eq!(work, vec!["nvim".to_string(), "zsh".to_string()]);
}

#[test]
fn test_new_package_auto_link() {
    let mut state = DaemonState::new(vec![]);
    let cfg = default_cfg();
    let act = state.handle_event(
        DaemonEvent::NewPackage("tmux".to_string()),
        &cfg,
        "/dots",
    );
    assert!(matches!(act, DaemonAction::AutoLink(ref n) if n == "tmux"));
    // A second sighting of the same package is an ordinary relink.
    let act2 = state.handle_event(
        DaemonEvent::NewPackage("tmux".to_string()),
        &cfg,
        "/dots",
    );
    assert!(matches!(act2, DaemonAction::Nothing));
    assert_eq!(state.drain_relink_queue(), vec!["tmux".to_string()]);
}

#[test]
fn test_git_pull_coalesces() {
    let mut state = DaemonState::new(vec![]);
    let cfg = default_cfg();
    state.handle_event(DaemonEvent::GitChanged, &cfg, "/dots");
    state.handle_event(DaemonEvent::GitChanged, &cfg, "/dots");
    state.handle_event(DaemonEvent::GitChanged, &cfg, "/dots");
    assert!(state.take_git_pull());
    // The flag was taken: one pull per tick, however many signals came.
    assert!(!state.take_git_pull());
}

#[test]
fn test_symlink_deleted_relinks_all_known() {
    let mut state = DaemonState::new(vec!["a".to_string(), "b".to_string()]);
    let cfg = default_cfg();
    state.handle_event(
        DaemonEvent::SymlinkDeleted("/home/.bashrc".to_string()),
        &cfg,
        "/dots",
    );
    let work = state.drain_relink_queue();
    assert_eq!(work.len(), 2);
    assert!(work.contains(&"a".to_string()));
    assert!(work.contains(&"b".to_string()));
}

#[test]
fn test_shutdown_event() {
    let mut state = DaemonState::new(vec![]);
    let cfg = default_cfg();
    assert!(state.running);
    state.handle_event(DaemonEvent::Shutdown, &cfg, "/dots");
    assert!(!state.running);
}

#[test]
fn test_singleton_enforcement() {
    // A live PID refuses a second daemon; a stale PID is ignored.
    match daemon_start_decision(Some(4242), true) {
        Err(DaemonError::AlreadyRunning(pid)) => assert_eq!(pid, 4242),
        _ => panic!("expected AlreadyRunning"),
    }
    assert!(daemon_start_decision(Some(4242), false).is_ok());
    assert!(daemon_start_decision(None, false).is_ok());
    assert!(is_daemon_running(Some(7), true));
    assert!(!is_daemon_running(Some(7), false));
    assert!(!is_daemon_running(None, false));
}

#[test]
fn test_parse_pid_file() {
    assert_eq!(parse_pid_file("1234\n"), Some(1234));
    assert_eq!(parse_pid_file("  77  "), Some(77));
    assert_eq!(parse_pid_file("abc"), None);
    assert_eq!(parse_pid_file(""), None);
    assert_eq!(parse_pid_file("99999999999999999999"), None);
}

#[test]
fn test_package_from_path() {
    assert_eq!(
        get_package_from_path("/dots/nvim/init.lua", "/dots"),
        Some("nvim".to_string())
    );
    assert_eq!(get_package_from_path("/dots/zsh", "/dots"), Some("zsh".to_string()));
    assert_eq!(get_package_from_path("/dots/.git/HEAD", "/dots"), None);
    assert_eq!(get_package_from_path("/elsewhere/nvim/x", "/dots"), None);
    assert_eq!(get_package_from_path("/dots", "/dots"), None);
}

#[test]
fn test_should_ignore_path() {
    assert!(should_ignore_path("/dots/.git/HEAD"));
    assert!(should_ignore_path("/dots/nvim/.init.lua.swp"));
    assert!(should_ignore_path("/dots/nvim/#init.lua#"));
    assert!(should_ignore_path("/dots/nvim/init.lua~"));
    assert!(should_ignore_path("/dots/nvim/x.tmp"));
    assert!(!should_ignore_path("/dots/nvim/init.lua"));
}

#[test]
fn test_is_git_dir_change() {
    assert!(is_git_dir_change("/dots/.git/HEAD", "/dots"));
    assert!(is_git_dir_change("/dots/.git", "/dots"));
    assert!(!is_git_dir_change("/dots/.gitignore", "/dots"));
    assert!(!is_git_dir_change("/dots/nvim/init.lua", "/dots"));
}

#[test]
fn test_resolve_conflict_policies() {
    let on_file = resolve_conflict(ConflictResolution::Backup, &TargetState::PresentFile);
    assert!(on_file.proceed);
    assert!(matches!(on_file.effect, ConflictEffect::BackupThenRemove));

    let skip = resolve_conflict(ConflictResolution::Skip, &TargetState::PresentFile);
    assert!(!skip.proceed);
    assert!(matches!(skip.effect, ConflictEffect::NoEffect));

    let over_dir = resolve_conflict(ConflictResolution::Overwrite, &TargetState::PresentDir);
    assert!(over_dir.proceed);
    assert!(matches!(over_dir.effect, ConflictEffect::RemoveDirAll));

    let over_file = resolve_conflict(ConflictResolution::Overwrite, &TargetState::PresentFile);
    assert!(over_file.proceed);
    assert!(matches!(over_file.effect, ConflictEffect::RemoveFile));

    let backup_absent = resolve_conflict(ConflictResolution::Backup, &TargetState::Absent);
    assert!(backup_absent.proceed);
    assert!(matches!(backup_absent.effect, ConflictEffect::NoEffect));
}

#[test]
fn test_backup_path() {
    assert_eq!(backup_path_for("/home/user/.bashrc"), "/home/user/.bashrc.backup");
}

#[test]
fn test_interpret_pull_output() {
    assert!(matches!(
        interpret_pull_output(true, "Updating 1f2e..9a8b\n", ""),
        PullOutcome::Changed
    ));
    assert!(matches!(
        interpret_pull_output(true, "Already up to date.\n", ""),
        PullOutcome::UpToDate
    ));
    assert!(matches!(
        interpret_pull_output(false, "", "Already up to date.\n"),
        PullOutcome::UpToDate
    ));
    match interpret_pull_output(false, "", "fatal: not a repository") {
        PullOutcome::Failed(msg) => assert_eq!(msg, "fatal: not a repository"),
        _ => panic!("expected failure"),
    }
}

#[test]
fn test_chrono_lite_now() {
    // 01:02:03 past midnight.
    assert_eq!(chrono_lite_now(3723), "01:02:03");
    assert_eq!(chrono_lite_now(0), "00:00:00");
    assert_eq!(chrono_lite_now(86399), "23:59:59");
}

#[test]
fn test_format_log_line() {
    assert_eq!(
        format_log_line("12:00:00", "Daemon starting..."),
        "[12:00:00] Daemon starting...\n"
    );
}

#[test]
fn test_daemon_error_message() {
    assert_eq!(
        DaemonError::AlreadyRunning(512).message(),
        "Daemon already running (PID: 512)"
    );
    assert_eq!(DaemonError::NotRunning.message(), "Daemon is not running");
}
