use justanothergitgui::metadata_store::{load_for_repo, update_entry, MetadataStore};
use justanothergitgui::worktree_metadata::{ReviewState, TestState, WorktreeMetadata, MAX_TASK_LEN};

fn metadata(task: &str) -> WorktreeMetadata {
    WorktreeMetadata {
        task: task.into(),
        agent: "pair-programmer".into(),
        notes: "waiting on review".into(),
        base_commit: "a1b2c3d4".into(),
        started: 1_700_000_000,
        review: ReviewState::NeedsReview,
        test: TestState::Passing,
    }
}

#[test]
fn metadata_survives_a_round_trip() {
    let mut store = MetadataStore::new();
    let repo = "/projects/myapp";

    let returned = update_entry(&mut store, repo, "wt:feature-auth", Some(metadata("Add OAuth login")));

    assert_eq!(returned.get("wt:feature-auth").expect("entry").task, "Add OAuth login");
    let loaded = load_for_repo(&store, repo);
    assert_eq!(loaded.len(), returned.len());
    assert_eq!(loaded.get("wt:feature-auth"), returned.get("wt:feature-auth"));
    assert_eq!(loaded.get("wt:feature-auth"), Some(&metadata("Add OAuth login")));
}

#[test]
fn a_missing_repository_loads_as_empty() {
    let store = MetadataStore::new();

    assert!(load_for_repo(&store, "/projects/myapp").is_empty());
}

/// The reason writes go one entry at a time: several tabs can show the same
/// repository at once.
#[test]
fn writing_one_entry_never_disturbs_another() {
    let mut store = MetadataStore::new();
    let repo = "/projects/myapp";

    update_entry(&mut store, repo, "wt:alpha", Some(metadata("alpha work")));
    update_entry(&mut store, repo, "wt:beta", Some(metadata("beta work")));

    let loaded = load_for_repo(&store, repo);
    assert_eq!(loaded.get("wt:alpha").expect("alpha").task, "alpha work");
    assert_eq!(loaded.get("wt:beta").expect("beta").task, "beta work");
}

#[test]
fn saving_one_repository_leaves_the_others_untouched() {
    let mut store = MetadataStore::new();
    let first = "/projects/alpha";
    let second = "/projects/beta";

    update_entry(&mut store, first, "wt:a", Some(metadata("alpha work")));
    update_entry(&mut store, second, "wt:b", Some(metadata("beta work")));

    assert_eq!(load_for_repo(&store, first).get("wt:a").expect("a").task, "alpha work");
    assert_eq!(load_for_repo(&store, second).get("wt:b").expect("b").task, "beta work");
}

#[test]
fn an_entry_with_nothing_in_it_is_not_persisted() {
    let mut store = MetadataStore::new();
    let repo = "/projects/myapp";

    let returned = update_entry(&mut store, repo, "wt:blank", Some(WorktreeMetadata::default()));

    assert!(returned.is_empty());
    assert!(load_for_repo(&store, repo).is_empty());
}

#[test]
fn clearing_the_last_entry_removes_the_repository_from_the_file() {
    let mut store = MetadataStore::new();
    let repo = "/projects/myapp";
    update_entry(&mut store, repo, "wt:only", Some(metadata("work")));

    let returned = update_entry(&mut store, repo, "wt:only", None);

    assert!(returned.is_empty());
    assert!(store.repositories.get(repo).is_none(), "an emptied repository should leave no section behind");
    assert!(store.repositories.is_empty());
}

#[test]
fn oversized_text_is_clamped_before_it_reaches_the_file() {
    let mut store = MetadataStore::new();
    let repo = "/projects/myapp";
    let huge = WorktreeMetadata {
        task: "x".repeat(10_000),
        ..WorktreeMetadata::default()
    };

    let returned = update_entry(&mut store, repo, "wt:big", Some(huge));

    assert!(returned.get("wt:big").expect("big").task.len() <= MAX_TASK_LEN);
    assert_eq!(returned.get("wt:big").expect("big").task.len(), MAX_TASK_LEN);
}

#[test]
fn saving_back_what_was_read_changes_nothing() {
    let mut store = MetadataStore::new();
    let repo = "/projects/myapp";
    let huge = WorktreeMetadata {
        task: "é".repeat(10_000),
        ..metadata("")
    };
    let first = update_entry(&mut store, repo, "wt:a", Some(huge));
    update_entry(&mut store, repo, "wt:b", Some(metadata("other")));
    let stored = first.get("wt:a").expect("a").clone();

    let again = update_entry(&mut store, repo, "wt:a", Some(stored.clone()));

    assert_eq!(again.get("wt:a"), Some(&stored));
    assert_eq!(again.get("wt:b"), Some(&metadata("other")));
    assert_eq!(again.len(), 2);
}
