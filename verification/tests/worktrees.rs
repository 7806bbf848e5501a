use justanothergitgui::worktrees::{LinkedWorktree, LinkedWorktreeStatus};

#[test]
fn summary_names_every_non_zero_count() {
    let status = LinkedWorktreeStatus::Dirty {
        modified: 4,
        staged: 0,
        untracked: 1,
    };
    assert_eq!(status.summary(), "4 modified files, 1 untracked file");
    assert_eq!(
        status.damage_lines(),
        vec![
            "4 modified files".to_string(),
            "1 untracked file".to_string()
        ]
    );
}

#[test]
fn clean_and_missing_never_report_damage() {
    assert_eq!(LinkedWorktreeStatus::Clean.summary(), "Clean");
    assert!(LinkedWorktreeStatus::Clean.damage_lines().is_empty());
    assert_eq!(LinkedWorktreeStatus::Missing.summary(), "Missing from disk");
    assert!(LinkedWorktreeStatus::Missing.damage_lines().is_empty());
}

#[test]
fn detached_head_falls_back_to_the_short_oid() {
    let worktree = LinkedWorktree {
        name: "wt".into(),
        path: "/tmp/wt".into(),
        branch: None,
        head_short_oid: "abc1234".into(),
        is_main: false,
        is_current: false,
        is_locked: false,
        lock_reason: None,
        status: LinkedWorktreeStatus::Clean,
    };
    assert_eq!(worktree.branch_label(), "detached at abc1234");
    assert!(!worktree.has_uncommitted_changes());
}
