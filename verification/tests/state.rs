use justanothergitgui::conflicts::{ConflictChoice, ConflictData, ConflictPart, FileStyle};
use justanothergitgui::state::{resolution_save_error, WorktreeMetadataDialogState};
use justanothergitgui::worktree_metadata::{ReviewState, TestState, WorktreeMetadata};

/// The form shows `base_commit` and `started` but cannot edit either, so
/// [`WorktreeMetadataDialogState::metadata`] has to carry them through.
/// Rebuilding the struct without them would silently forget where and when
/// the worktree began, on every save.
#[test]
fn a_save_carries_the_fields_the_form_cannot_edit() {
    let stored = WorktreeMetadata {
        task: "Add OAuth login".into(),
        agent: "pair-programmer".into(),
        notes: "Waiting on review.".into(),
        base_commit: "a1b2c3d4e5".into(),
        started: 1_700_000_000,
        review: ReviewState::NeedsReview,
        test: TestState::Passing,
    };

    let mut dialog = WorktreeMetadataDialogState::default();
    dialog.open("feature-auth", &stored);
    // The user edits only what the form exposes.
    dialog.review = ReviewState::Approved;

    let saved = dialog.metadata();

    assert_eq!(saved.base_commit, stored.base_commit);
    assert_eq!(saved.started, stored.started);
    assert_eq!(saved.notes, stored.notes);
    assert_eq!(saved.review, ReviewState::Approved);
}

/// Notes are prose: the paragraph breaks inside them belong to the user, and
/// only the trailing whitespace a text box collects is dropped.
#[test]
fn saving_notes_keeps_their_internal_line_breaks() {
    let dialog = WorktreeMetadataDialogState {
        notes: "First line.\n\nSecond line.\n\n".into(),
        ..WorktreeMetadataDialogState::default()
    };

    assert_eq!(dialog.metadata().notes, "First line.\n\nSecond line.");
}

#[test]
fn open_draft_blocks_saving_even_when_previous_choice_is_resolved() {
    let mut conflict = ConflictData::new(
        "test.txt".into(),
        vec![ConflictPart::Conflict {
            ours: "ours".into(),
            theirs: "theirs".into(),
            resolution: ConflictChoice::Ours,
        }],
        FileStyle::default(),
    );
    assert!(resolution_save_error(false, Some(&conflict)).is_none());
    assert_eq!(
        resolution_save_error(true, Some(&conflict)),
        Some("Apply or cancel your edit before saving.")
    );
    assert!(resolution_save_error(false, Some(&conflict)).is_none());
    conflict.set_resolution(0, ConflictChoice::Unresolved);
    assert!(resolution_save_error(false, Some(&conflict)).is_some());
    assert!(resolution_save_error(false, None).is_some());
}
