use slnky::ignore::{glob_match, is_ignored};
use slnky::stow::{
    analyze_package, execute_operations, find_packages, parse_ignore_rules, DirEntryInfo,
    DirListing, ExecAction, OpType, PackageTree, ScanEntry, StowError, TargetState,
};

fn entry(rel: &str, is_dir: bool, target: TargetState) -> ScanEntry {
    ScanEntry { rel_path: rel.to_string(), is_dir, target }
}

fn tree(root: &str, ignore_file: Option<&str>, entries: Vec<ScanEntry>) -> PackageTree {
    PackageTree {
        root: root.to_string(),
        root_exists: true,
        root_is_dir: true,
        ignore_file: ignore_file.map(|s| s.to_string()),
        entries,
    }
}

#[test]
fn test_glob_match() {
    assert!(glob_match("test.txt", "*.txt"));
    assert!(glob_match("foo.bar.txt", "*.txt"));
    assert!(glob_match("test.txt", "test.*"));
    assert!(glob_match("test.txt", "*"));
    assert!(!glob_match("test.md", "*.txt"));
}

#[test]
fn test_glob_match_multiple_stars() {
    // Middle pieces are found in order; the last piece must close the
    // text without overlapping them.
    assert!(glob_match("axbyc", "a*b*c"));
    assert!(glob_match("abXbc", "a*b*bc"));
    assert!(!glob_match("abc", "a*b*bc"));
    assert!(glob_match("anything", "*"));
    assert!(glob_match("a", "a*"));
    assert!(!glob_match("b", "a*"));
}

#[test]
fn test_glob_match_ignore_rules() {
    // *.tmp matches plain and nested names, but not a longer extension.
    assert!(glob_match("foo.tmp", "*.tmp"));
    assert!(glob_match("dir/bar.tmp", "*.tmp"));
    assert!(!glob_match("foo.tmpx", "*.tmp"));
}

#[test]
fn test_literal_rule_matches_file_name() {
    let rules = vec!["notes.backup".to_string()];
    assert!(is_ignored("notes.backup", &rules));
    assert!(is_ignored("dir/notes.backup", &rules));
    assert!(!is_ignored("other.txt", &rules));
    assert!(!is_ignored("dir/notes.txt", &rules));
}

#[test]
fn test_ignore_rules_parsing() {
    let rules = parse_ignore_rules(&Some("# comment\n\n  *.tmp  \nnotes.backup\n".to_string()));
    assert_eq!(rules.len(), 2);
    assert_eq!(rules[0], "*.tmp");
    assert_eq!(rules[1], "notes.backup");
    let none = parse_ignore_rules(&None);
    assert!(none.is_empty());
}

#[test]
fn test_find_packages() {
    let dir = DirListing {
        path: "/tmp/slinky_test_find".to_string(),
        exists: true,
        is_dir: true,
        entries: vec![
            DirEntryInfo { name: "package1".to_string(), is_dir: true },
            DirEntryInfo { name: "package2".to_string(), is_dir: true },
            DirEntryInfo { name: ".hidden".to_string(), is_dir: true },
            DirEntryInfo { name: "README.md".to_string(), is_dir: false },
        ],
    };
    let packages = find_packages(&dir).unwrap();
    assert_eq!(packages.len(), 2);
    let names: Vec<&str> = packages.iter().map(|p| p.name.as_str()).collect();
    assert!(names.contains(&"package1"));
    assert!(names.contains(&"package2"));
}

#[test]
fn test_find_packages_missing_dir() {
    let dir = DirListing {
        path: "/nowhere".to_string(),
        exists: false,
        is_dir: false,
        entries: Vec::new(),
    };
    assert!(matches!(find_packages(&dir), Err(StowError::InvalidPath(_))));
}

#[test]
fn test_analyze_package_simple() {
    let t = tree(
        "/tmp/slinky_test_analyze/testpkg",
        None,
        vec![
            entry(".config", true, TargetState::Absent),
            entry(".config/test.conf", false, TargetState::Absent),
        ],
    );
    let ops = analyze_package(&t, "/tmp/slinky_test_analyze/target").unwrap();
    assert_eq!(ops.len(), 1);
    assert!(matches!(ops[0].op_type, OpType::Create));
}

#[test]
fn test_stow_ignore() {
    let t = tree(
        "/tmp/slinky_test_ignore/testpkg",
        Some("*.tmp"),
        vec![
            entry(".config", true, TargetState::Absent),
            entry(".config/keep.conf", false, TargetState::Absent),
            entry(".config/ignore.tmp", false, TargetState::Absent),
        ],
    );
    let ops = analyze_package(&t, "/tmp/slinky_test_ignore/target").unwrap();
    let create_ops: Vec<_> =
        ops.iter().filter(|op| matches!(op.op_type, OpType::Create)).collect();
    let skip_ops: Vec<_> =
        ops.iter().filter(|op| matches!(op.op_type, OpType::Skip(_))).collect();
    assert_eq!(create_ops.len(), 1);
    assert_eq!(skip_ops.len(), 1);
}

#[test]
fn test_stow_workflow() {
    let pkg = "/tmp/slinky_integration_test/dotfiles/nvim";
    let home = "/tmp/slinky_integration_test/home";

    let stow_dir = DirListing {
        path: "/tmp/slinky_integration_test/dotfiles".to_string(),
        exists: true,
        is_dir: true,
        entries: vec![DirEntryInfo { name: "nvim".to_string(), is_dir: true }],
    };
    let packages = find_packages(&stow_dir).unwrap();
    assert_eq!(packages.len(), 1);
    assert_eq!(packages[0].name, "nvim");

    let t = tree(
        pkg,
        None,
        vec![
            entry(".config", true, TargetState::Absent),
            entry(".config/nvim", true, TargetState::Absent),
            entry(".config/nvim/init.lua", false, TargetState::Absent),
        ],
    );
    let operations = analyze_package(&t, home).unwrap();
    assert_eq!(operations.len(), 1);
    assert!(matches!(operations[0].op_type, OpType::Create));
    assert_eq!(operations[0].source, format!("{}/.config/nvim/init.lua", pkg));
    assert_eq!(operations[0].target, format!("{}/.config/nvim/init.lua", home));

    let results = execute_operations(&operations, false);
    assert_eq!(results.len(), 1);
    assert!(matches!(results[0], ExecAction::DoCreate { .. }));

    // After the link is made, the target holds a symlink to the source,
    // and a second analysis reports the entry as already linked.
    let t2 = tree(
        pkg,
        None,
        vec![
            entry(".config", true, TargetState::Absent),
            entry(".config/nvim", true, TargetState::Absent),
            entry(
                ".config/nvim/init.lua",
                false,
                TargetState::SymlinkTo(operations[0].source.clone()),
            ),
        ],
    );
    let replanned = analyze_package(&t2, home).unwrap();
    assert_eq!(replanned.len(), 1);
    match &replanned[0].op_type {
        OpType::Skip(reason) => assert_eq!(reason, "Already linked correctly"),
        _ => panic!("expected a skip"),
    }
}

#[test]
fn test_stow_with_ignore() {
    let t = tree(
        "/tmp/slinky_ignore_test/package",
        Some("*.tmp\n"),
        vec![
            entry("keep.txt", false, TargetState::Absent),
            entry("ignore.tmp", false, TargetState::Absent),
        ],
    );
    let operations = analyze_package(&t, "/tmp/slinky_ignore_test/target").unwrap();
    let create_count =
        operations.iter().filter(|op| matches!(op.op_type, OpType::Create)).count();
    let skip_count =
        operations.iter().filter(|op| matches!(op.op_type, OpType::Skip(_))).count();
    assert_eq!(create_count, 1);
    assert_eq!(skip_count, 1);
}

#[test]
fn test_stow_dry_run() {
    let t = tree(
        "/tmp/slinky_dryrun_test/package",
        None,
        vec![entry("test.txt", false, TargetState::Absent)],
    );
    let operations = analyze_package(&t, "/tmp/slinky_dryrun_test/target").unwrap();
    let results = execute_operations(&operations, true);
    assert_eq!(results.len(), 1);
    assert!(matches!(results[0], ExecAction::WouldCreate { .. }));
}

#[test]
fn test_dry_run_never_mutates() {
    let t = tree(
        "/pkg",
        None,
        vec![
            entry("a.txt", false, TargetState::Absent),
            entry("b.txt", false, TargetState::SymlinkTo("/pkg/b.txt".to_string())),
        ],
    );
    let operations = analyze_package(&t, "/target").unwrap();
    let steps = execute_operations(&operations, true);
    for step in &steps {
        assert!(!matches!(
            step,
            ExecAction::DoCreate { .. } | ExecAction::DoRemoveIfSymlink { .. }
        ));
    }
}

#[test]
fn test_conflict_on_existing_file() {
    let t = tree(
        "/pkg",
        None,
        vec![entry("bashrc", false, TargetState::PresentFile)],
    );
    let r = analyze_package(&t, "/home/user");
    assert!(matches!(r, Err(StowError::ConflictDetected(_))));
}

#[test]
fn test_conflict_on_foreign_symlink() {
    let t = tree(
        "/pkg",
        None,
        vec![entry(
            "bashrc",
            false,
            TargetState::SymlinkTo("/somewhere/else".to_string()),
        )],
    );
    let r = analyze_package(&t, "/home/user");
    assert!(matches!(r, Err(StowError::ConflictDetected(_))));
}

#[test]
fn test_analyze_missing_package() {
    let t = PackageTree {
        root: "/nowhere".to_string(),
        root_exists: false,
        root_is_dir: false,
        ignore_file: None,
        entries: Vec::new(),
    };
    assert!(matches!(
        analyze_package(&t, "/target"),
        Err(StowError::InvalidPackage(_))
    ));
}

#[test]
fn test_planner_deterministic() {
    let build = || {
        tree(
            "/pkg",
            Some("*.tmp"),
            vec![
                entry("keep.txt", false, TargetState::Absent),
                entry("drop.tmp", false, TargetState::Absent),
            ],
        )
    };
    let a = analyze_package(&build(), "/target").unwrap();
    let b = analyze_package(&build(), "/target").unwrap();
    assert_eq!(a.len(), b.len());
    for (x, y) in a.iter().zip(b.iter()) {
        assert_eq!(x.source, y.source);
        assert_eq!(x.target, y.target);
        match (&x.op_type, &y.op_type) {
            (OpType::Create, OpType::Create) => {}
            (OpType::Skip(r1), OpType::Skip(r2)) => assert_eq!(r1, r2),
            _ => panic!("plans differ"),
        }
    }
}

#[test]
fn test_ignored_dir_shadows_children() {
    // A whole ignored directory is reported once; its children produce
    // nothing at all.
    let t = tree(
        "/pkg",
        Some("cache"),
        vec![
            entry("cache", true, TargetState::Absent),
            entry("cache/blob.bin", false, TargetState::Absent),
            entry("real.txt", false, TargetState::Absent),
        ],
    );
    let ops = analyze_package(&t, "/target").unwrap();
    assert_eq!(ops.len(), 2);
    assert!(matches!(ops[0].op_type, OpType::Skip(_)));
    assert_eq!(ops[0].target, "/target/cache");
    assert!(matches!(ops[1].op_type, OpType::Create));
    assert_eq!(ops[1].target, "/target/real.txt");
}
