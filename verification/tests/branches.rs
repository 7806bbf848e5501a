use justanothergitgui::tags::check_tag_creation;
use justanothergitgui::branches::{
    check_branch_creation, new_branch_name_problem, stale_branches, validate_new_branch_name,
    LocalBranch,
};

fn locals() -> Vec<String> {
    vec!["main".into(), "feature/login".into()]
}

const INVALID: &str = "Invalid name. Avoid spaces, '..', '~', '^', ':', '?', '*', '[', '\\', and leading/trailing '/' or '.'.";

#[test]
fn an_empty_name_raises_no_complaint_while_typing() {
    assert_eq!(validate_new_branch_name("", &locals()), None);
    assert_eq!(validate_new_branch_name("   ", &locals()), None);
}

#[test]
fn names_libgit2_refuses_are_invalid() {
    assert_eq!(validate_new_branch_name("has space", &locals()), Some(INVALID.into()));
    assert_eq!(validate_new_branch_name("a..b", &locals()), Some(INVALID.into()));
    assert_eq!(validate_new_branch_name("wip~1", &locals()), Some(INVALID.into()));
    assert_eq!(validate_new_branch_name("feature/", &locals()), Some(INVALID.into()));
}

#[test]
fn an_existing_branch_is_named_in_the_complaint() {
    assert_eq!(
        validate_new_branch_name("  feature/login ", &locals()),
        Some("A branch named 'feature/login' already exists.".into())
    );
    assert_eq!(validate_new_branch_name("feature/signup", &locals()), None);
}

#[test]
fn the_verdict_follows_the_validity_it_is_given() {
    assert_eq!(new_branch_name_problem("x", false, &locals()), Some(INVALID.into()));
    assert_eq!(new_branch_name_problem("x", true, &locals()), None);
    assert_eq!(new_branch_name_problem("", false, &locals()), None);
}

#[test]
fn creation_refuses_what_feedback_complains_about() {
    assert_eq!(check_branch_creation(" ", &locals()), Err("Branch name cannot be empty".into()));
    assert_eq!(check_branch_creation("has space", &locals()), Err("Invalid branch name".into()));
    assert_eq!(check_branch_creation("main", &locals()), Err("Branch already exists".into()));
    assert_eq!(check_branch_creation("  feature/new  ", &locals()), Ok("feature/new".into()));
}

fn branch(name: Option<&str>, is_head: bool, upstream_gone: bool, merged: bool) -> LocalBranch {
    LocalBranch {
        name: name.map(str::to_string),
        is_head,
        upstream_gone,
        merged_into_head: merged,
    }
}

#[test]
fn stale_branches_are_those_whose_upstream_is_gone() {
    let stale = stale_branches(&[
        branch(Some("current"), true, true, true),
        branch(Some("main"), false, true, true),
        branch(Some("master"), false, true, false),
        branch(Some("tracking"), false, false, true),
        branch(None, false, true, true),
        branch(Some("merged"), false, true, true),
        branch(Some("unmerged"), false, true, false),
    ]);

    assert_eq!(stale.len(), 2);
    assert_eq!(stale[0].name, "merged");
    assert!(stale[0].merged_into_head && stale[0].selected);
    assert_eq!(stale[1].name, "unmerged");
    assert!(!stale[1].merged_into_head && !stale[1].selected);
}

#[test]
fn tag_names_are_checked_before_a_tag_is_made() {
    assert_eq!(check_tag_creation("v1.0.0.1", false), None);
    assert_eq!(check_tag_creation("bad name", false), Some("Invalid tag name.".into()));
    assert_eq!(check_tag_creation("v1.0.0.1", true), Some("Tag already exists.".into()));
}
