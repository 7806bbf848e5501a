use justanothergitgui::dialogs::{
    branch_confirm_frame, branch_form_frame, cleanup_dialog_frame, discard_dialog_frame,
    open_cleanup_dialog, open_discard_dialog, open_tag_dialog, tag_dialog_frame,
};
use justanothergitgui::git::{CreateBranchPreview, DiscardPreview, StaleBranch};
use justanothergitgui::state::{
    BranchDialogState, BusyAction, CleanupBranchesDialogState, DiscardDialogState, TagDialogState,
};

#[test]
fn a_closed_branch_form_forgets_the_name() {
    let mut branch = BranchDialogState::default();
    branch.show_create_branch_dialog = true;
    branch.new_branch_name = "topic".to_string();
    assert_eq!(branch_form_frame(&mut branch, true, None), None);
    assert_eq!(branch.new_branch_name, "topic");
    let submitted = branch_form_frame(&mut branch, false, Some("topic".to_string()));
    assert_eq!(submitted.as_deref(), Some("topic"));
    assert!(!branch.show_create_branch_dialog && branch.new_branch_name.is_empty());
}

#[test]
fn a_closed_confirmation_forgets_the_pending_branch() {
    let mut branch = BranchDialogState::default();
    branch.show_create_branch_confirm = true;
    branch.pending_new_branch_name = Some("topic".to_string());
    branch.create_branch_preview = Some(CreateBranchPreview::default());
    assert!(!branch_confirm_frame(&mut branch, true, false));
    assert!(branch.pending_new_branch_name.is_some());
    assert!(branch_confirm_frame(&mut branch, false, true));
    assert!(branch.pending_new_branch_name.is_none() && branch.create_branch_preview.is_none());
    assert!(!branch.show_create_branch_confirm);
}

#[test]
fn the_tag_dialog_stays_open_while_its_tag_is_created() {
    let mut tag = TagDialogState::default();
    tag.show_create_tag_dialog = true;
    tag.new_tag_name = "v1.0.0.0".to_string();
    tag_dialog_frame(&mut tag, Some(BusyAction::CreateTag), false, None);
    assert!(tag.show_create_tag_dialog);
    assert_eq!(tag.new_tag_name, "v1.0.0.0");
    tag_dialog_frame(&mut tag, Some(BusyAction::Push), false, None);
    assert!(!tag.show_create_tag_dialog && tag.new_tag_name.is_empty());
    let mut tag = TagDialogState::default();
    tag.show_create_tag_dialog = true;
    let submitted = tag_dialog_frame(&mut tag, None, true, Some("v2.0.0.0".to_string()));
    assert_eq!(submitted.as_deref(), Some("v2.0.0.0"));
}

fn stale(name: &str, selected: bool) -> StaleBranch {
    StaleBranch { name: name.to_string(), merged_into_head: selected, selected }
}

#[test]
fn delete_asks_only_for_the_picked_branches() {
    let mut cleanup = CleanupBranchesDialogState::default();
    cleanup.show_cleanup_branches_dialog = true;
    cleanup.stale_branches = vec![stale("a", true), stale("b", false), stale("c", true)];
    let names = cleanup_dialog_frame(&mut cleanup, true, true).unwrap();
    assert_eq!(names, vec!["a".to_string(), "c".to_string()]);
    assert_eq!(cleanup.stale_branches.len(), 3);

    let mut cleanup = CleanupBranchesDialogState::default();
    cleanup.stale_branches = vec![stale("b", false)];
    assert!(cleanup_dialog_frame(&mut cleanup, false, true).is_none());
    assert!(cleanup.stale_branches.is_empty() && !cleanup.show_cleanup_branches_dialog);
}

#[test]
fn the_discard_dialog_carries_the_untracked_choice_and_stays_open_while_resetting() {
    let mut discard = DiscardDialogState::default();
    discard.show_discard_dialog = true;
    discard.discard_clean_untracked = true;
    discard.discard_preview = Some(DiscardPreview::default());
    assert_eq!(discard_dialog_frame(&mut discard, None, true, true), Some(true));
    assert_eq!(
        discard_dialog_frame(&mut discard, Some(BusyAction::DiscardAndReset), false, false),
        None
    );
    assert!(discard.show_discard_dialog && discard.discard_preview.is_some());
    discard_dialog_frame(&mut discard, None, false, false);
    assert!(!discard.show_discard_dialog && discard.discard_preview.is_none());
    assert!(!discard.discard_clean_untracked);
}

#[test]
fn opening_the_dialogs() {
    let mut discard = DiscardDialogState::default();
    discard.discard_clean_untracked = true;
    open_discard_dialog(&mut discard, DiscardPreview { dirty_files: 2, untracked_files: 1, local_only_commits: 0 });
    assert!(discard.show_discard_dialog && !discard.discard_clean_untracked);
    assert_eq!(discard.discard_preview.as_ref().map(|p| p.dirty_files), Some(2));

    let mut cleanup = CleanupBranchesDialogState::default();
    assert_eq!(open_cleanup_dialog(&mut cleanup, Err("locked".to_string())), Err("locked".to_string()));
    assert!(!cleanup.show_cleanup_branches_dialog);
    open_cleanup_dialog(&mut cleanup, Ok(vec![stale("old", true)])).unwrap();
    assert!(cleanup.show_cleanup_branches_dialog);
    assert_eq!(cleanup.stale_branches.len(), 1);

    let mut tag = TagDialogState::default();
    open_tag_dialog(&mut tag, "v1.2.0.1".to_string());
    assert_eq!(tag.new_tag_name, "v1.2.0.1");
    assert!(tag.show_create_tag_dialog && tag.focus_new_tag_name_requested);
}
