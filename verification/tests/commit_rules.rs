use justanothergitgui::commit_rules::{
    apply_prefix, build_message, cargo_package_name, default_initial_commit_summary,
    custom_scopes_input, infer_commit_scopes, parse_custom_scopes, prefix_suggestions, repo_default_scope,
    validate_for_submit, validation_error, CommitMessageRuleSet, CommitMessageRules,
};

#[test]
fn parses_custom_scopes_and_dedupes_values() {
    let scopes = parse_custom_scopes("ui, settings, ui, worker/core").unwrap();

    assert_eq!(scopes, vec!["ui", "settings", "worker/core"]);
}

#[test]
fn resolves_runtime_rules_from_selector() {
    let rules = CommitMessageRuleSet::ConventionalCommits.runtime();

    assert_eq!(rules.display_name(), "Conventional Commits");
    assert_eq!(rules.default_initial_summary(), "chore: initial commit");
}

#[test]
fn rejects_invalid_custom_scope_values() {
    let error = parse_custom_scopes("ui, bad scope").unwrap_err();

    assert!(error.contains("bad scope"));
}

#[test]
fn infers_scopes_from_changed_paths_and_ranks_them() {
    let repo_root = "/tmp/justanothergitgui";
    let scopes = infer_commit_scopes(
        Some(repo_root),
        None,
        &[
            "src/ui/commit_panel.rs",
            "src/ui/diff_panel.rs",
            "src/settings.rs",
        ],
    );

    assert_eq!(scopes, vec!["ui", "justanothergitgui"]);
}

#[test]
fn suggests_plain_and_scoped_prefixes_for_partial_subjects() {
    let suggestions = prefix_suggestions(
        CommitMessageRuleSet::ConventionalCommits,
        "fix",
        &["ui".into(), "settings".into()],
        &["worker".into()],
    );

    assert_eq!(
        suggestions,
        vec![
            "fix: ",
            "fix(ui,settings): ",
            "fix(ui): ",
            "fix(settings): ",
            "fix(worker): ",
        ]
    );
}

#[test]
fn falls_back_to_plain_prefix_when_no_scope_matches_exist() {
    let suggestions =
        prefix_suggestions(CommitMessageRuleSet::ConventionalCommits, "fix", &[], &[]);

    assert_eq!(suggestions, vec!["fix: "]);
}

#[test]
fn apply_prefix_replaces_partial_prefix_fragments() {
    let mut message = "fix(".to_string();

    apply_prefix(
        CommitMessageRuleSet::ConventionalCommits,
        &mut message,
        "fix(ui): ",
    );

    assert_eq!(message, "fix(ui): ");
}

#[test]
fn apply_prefix_preserves_existing_summary_text() {
    let mut message = "fix: preserve the summary".to_string();

    apply_prefix(
        CommitMessageRuleSet::ConventionalCommits,
        &mut message,
        "fix(ui): ",
    );

    assert_eq!(message, "fix(ui): preserve the summary");
}

#[test]
fn build_message_joins_summary_and_body_with_blank_line() {
    let message = build_message(
        "feat: add split commit UI",
        "The body explains why.\n\nIt keeps details optional.",
    );

    assert_eq!(
        message,
        "feat: add split commit UI\n\nThe body explains why.\n\nIt keeps details optional."
    );
}

#[test]
fn build_message_omits_body_separator_when_body_is_empty() {
    let message = build_message("feat: add split commit UI", "   ");

    assert_eq!(message, "feat: add split commit UI");
}

#[test]
fn the_settings_text_for_custom_scopes_reads_back_unchanged() {
    let scopes = parse_custom_scopes("ui, settings, worker/core").unwrap();
    let shown = custom_scopes_input(&scopes);
    assert_eq!(shown, "ui, settings, worker/core");
    assert_eq!(parse_custom_scopes(&shown).unwrap(), scopes);
    assert_eq!(custom_scopes_input(&Vec::new()), "");
    assert!(parse_custom_scopes("").unwrap().is_empty());
}
