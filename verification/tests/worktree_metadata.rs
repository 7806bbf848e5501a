use justanothergitgui::worktree_metadata::{
    storage_key, ReviewState, TestState, WorktreeMetadata, MAX_AGENT_LEN, MAX_NOTES_LEN,
    MAX_TASK_LEN,
};
use justanothergitgui::worktrees::{LinkedWorktree, LinkedWorktreeStatus};

fn worktree(name: &str, is_main: bool) -> LinkedWorktree {
    LinkedWorktree {
        name: name.into(),
        path: format!("/tmp/{name}"),
        branch: None,
        head_short_oid: String::new(),
        is_main,
        is_current: false,
        is_locked: false,
        lock_reason: None,
        status: LinkedWorktreeStatus::Clean,
    }
}

/// A linked worktree may be called the same thing as the repository folder,
/// which is the only name the main worktree has.
#[test]
fn the_main_worktree_can_never_collide_with_a_linked_one() {
    assert_ne!(
        storage_key(&worktree("myapp", true)),
        storage_key(&worktree("myapp", false))
    );
    assert_eq!(storage_key(&worktree("anything", true)), "main:");
    assert_eq!(
        storage_key(&worktree("feature-auth", false)),
        "wt:feature-auth"
    );
}

#[test]
fn oversized_free_text_is_trimmed_on_a_character_boundary() {
    let metadata = WorktreeMetadata {
        task: "å".repeat(MAX_TASK_LEN),
        agent: "b".repeat(MAX_AGENT_LEN * 2),
        notes: "ö".repeat(MAX_NOTES_LEN),
        ..WorktreeMetadata::default()
    }
    .clamped();

    assert!(metadata.task.len() <= MAX_TASK_LEN);
    assert!(metadata.agent.len() <= MAX_AGENT_LEN);
    assert!(metadata.notes.len() <= MAX_NOTES_LEN);
    assert!(metadata.notes.chars().all(|c| c == 'ö'));
    // Trimming mid-codepoint would have panicked or produced invalid UTF-8.
    assert!(metadata.task.chars().all(|c| c == 'å'));
}

#[test]
fn a_non_ascii_base_commit_does_not_panic() {
    let metadata = WorktreeMetadata {
        base_commit: "åäöåäöåäö".into(),
        ..WorktreeMetadata::default()
    };

    assert_eq!(metadata.short_base_commit(), Some("åäöåäöå"));
}

#[test]
fn an_entry_is_empty_only_while_every_field_is_default() {
    let mut metadata = WorktreeMetadata::default();
    assert!(metadata.is_empty());

    metadata.task = "Add OAuth login".into();
    assert!(!metadata.is_empty());

    metadata = WorktreeMetadata::default();
    metadata.review = ReviewState::NeedsReview;
    assert!(!metadata.is_empty());

    metadata = WorktreeMetadata::default();
    metadata.test = TestState::Failing;
    assert!(!metadata.is_empty());

    metadata = WorktreeMetadata::default();
    metadata.notes = "worth remembering".into();
    assert!(!metadata.is_empty());

    metadata = WorktreeMetadata::default();
    metadata.started = 1_700_000_000;
    assert!(!metadata.is_empty());
}

#[test]
fn the_base_commit_is_shortened_for_display_and_absent_when_unknown() {
    let mut metadata = WorktreeMetadata::default();
    assert_eq!(metadata.short_base_commit(), None);

    metadata.base_commit = "a1b2c3d4e5f6a7b8c9d0".into();
    assert_eq!(metadata.short_base_commit(), Some("a1b2c3d"));

    // A short oid must not be truncated past its own length.
    metadata.base_commit = "abc".into();
    assert_eq!(metadata.short_base_commit(), Some("abc"));
}

#[test]
fn only_non_default_states_earn_a_chip() {
    assert!(!ReviewState::Unreviewed.is_noteworthy());
    assert!(ReviewState::Approved.is_noteworthy());
    assert!(!TestState::Unknown.is_noteworthy());
    assert!(TestState::Passing.is_noteworthy());
}

#[test]
fn differently_named_worktrees_keep_their_own_metadata() {
    let keys = [
        storage_key(&worktree("auth", false)),
        storage_key(&worktree("auth2", false)),
        storage_key(&worktree("wt:auth", false)),
        storage_key(&worktree("auth", true)),
    ];
    for i in 0..keys.len() {
        for j in (i + 1)..keys.len() {
            assert_ne!(keys[i], keys[j]);
        }
    }
}
