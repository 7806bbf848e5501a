use justanothergitgui::state::{BusyAction, DialogState, StatusLevel};
use justanothergitgui::views::{
    any_dialog_open, close_topmost_dialog, close_topmost_tab_dialog, status_message_for_error,
    status_message_for_worker_dispatch, AppOverlays,
};

#[test]
fn failures_report_at_error_level_and_keep_the_summary() {
    let status = status_message_for_error("Push", "fatal: could not read Username");

    assert_eq!(status.level(), StatusLevel::Error);
    assert!(
        status.text().starts_with("Push failed: "),
        "unexpected text: {}",
        status.text()
    );
    assert!(status.text().ends_with("See Logs."));
}

#[test]
fn a_worker_that_will_not_start_is_an_error_too() {
    let status = status_message_for_worker_dispatch("Pull");

    assert_eq!(status.level(), StatusLevel::Error);
    assert_eq!(status.text(), "Pull could not start. Please try again.");
}

fn overlays() -> AppOverlays {
    AppOverlays {
        show_log_viewer: false,
        github_auth_prompt: None,
        settings_open: false,
        settings_focus_requested: false,
        publish_open: false,
        publish_focus_requested: false,
    }
}

#[test]
fn escape_closes_the_log_viewer_before_anything_else() {
    let mut o = overlays();
    o.show_log_viewer = true;
    o.settings_open = true;
    let mut dialogs = DialogState::default();
    dialogs.cleanup.show_cleanup_branches_dialog = true;
    assert!(any_dialog_open(&o, Some(&dialogs)));
    assert!(close_topmost_dialog(&mut o, true, &mut dialogs, None, false));
    assert!(!o.show_log_viewer && o.settings_open);
    assert!(dialogs.cleanup.show_cleanup_branches_dialog);
}

#[test]
fn a_tabs_dialog_closes_before_the_windows_settings() {
    let mut o = overlays();
    o.settings_open = true;
    let mut dialogs = DialogState::default();
    dialogs.tag.show_create_tag_dialog = true;
    dialogs.tag.new_tag_name = "v1".to_string();
    assert!(close_topmost_dialog(&mut o, true, &mut dialogs, None, false));
    assert!(!dialogs.tag.show_create_tag_dialog && dialogs.tag.new_tag_name.is_empty());
    assert!(o.settings_open);
    assert!(close_topmost_dialog(&mut o, true, &mut dialogs, None, false));
    assert!(!o.settings_open);
    assert!(!close_topmost_dialog(&mut o, true, &mut dialogs, None, false));
}

#[test]
fn a_dialog_whose_work_is_running_stays_open() {
    let mut o = overlays();
    let mut dialogs = DialogState::default();
    dialogs.discard.show_discard_dialog = true;
    assert!(!close_topmost_dialog(&mut o, true, &mut dialogs, Some(BusyAction::DiscardAndReset), false));
    assert!(dialogs.discard.show_discard_dialog);
    o.publish_open = true;
    assert!(!close_topmost_dialog(&mut o, false, &mut dialogs, None, true));
    assert!(o.publish_open);
    assert!(close_topmost_dialog(&mut o, false, &mut dialogs, None, false));
    assert!(!o.publish_open);
}

#[test]
fn the_branch_confirmation_closes_before_the_branch_form() {
    let mut o = overlays();
    let mut dialogs = DialogState::default();
    dialogs.branch.show_create_branch_dialog = true;
    dialogs.branch.show_create_branch_confirm = true;
    dialogs.branch.pending_new_branch_name = Some("topic".to_string());
    assert!(close_topmost_tab_dialog(&mut dialogs, None));
    assert!(!dialogs.branch.show_create_branch_confirm);
    assert!(dialogs.branch.pending_new_branch_name.is_none());
    assert!(dialogs.branch.show_create_branch_dialog);
    assert!(close_topmost_tab_dialog(&mut dialogs, None));
    assert!(!dialogs.branch.show_create_branch_dialog);
    assert!(!any_dialog_open(&o, Some(&dialogs)));
    o.github_auth_prompt = None;
    assert!(!any_dialog_open(&o, None));
}
