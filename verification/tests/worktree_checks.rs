use justanothergitgui::worktree_checks::{
    check_add_worktree, check_destination, prune_blocker, validate_new_worktree, worktree_not_found,
    BranchStart,
    Destination, DestinationState, WorktreeRepoFacts,
};
use justanothergitgui::worktrees::{LinkedWorktreeStatus, NewWorktreeRequest};

fn request(name: &str, branch: &str, path: &str) -> NewWorktreeRequest {
    NewWorktreeRequest {
        name: name.into(),
        branch: branch.into(),
        base_branch: None,
        path: path.into(),
    }
}

/// A repository with its main worktree on `main` and a linked worktree
/// `taken` on `feature/taken`.
fn facts(branch: &str) -> Result<WorktreeRepoFacts, String> {
    let holder = match branch {
        "main" => Some("repo".to_string()),
        "feature/taken" => Some("taken".to_string()),
        _ => None,
    };
    Ok(WorktreeRepoFacts {
        worktree_names: vec!["taken".into()],
        branch_exists: holder.is_some(),
        branch_holder: holder,
    })
}

#[test]
fn validation_rejects_bad_names_duplicates_and_busy_branches() {
    let vacant = "/work/repo-worktrees/fresh";
    let check = |req: NewWorktreeRequest, state: DestinationState| {
        let repo = facts(req.branch.trim());
        validate_new_worktree(&req, &repo, true, &state)
    };

    // Incomplete input says nothing yet, so the dialog stays quiet while typing.
    assert!(check(request("", "", vacant), DestinationState::Vacant).is_none());
    assert!(check(request("ok", "feature/ok", vacant), DestinationState::Vacant).is_none());

    assert_eq!(
        check(request("a/b", "feature/ok", vacant), DestinationState::Vacant),
        Some("Worktree names cannot contain '/' or '\\'.".into())
    );
    assert_eq!(
        check(request("taken", "feature/ok", vacant), DestinationState::Vacant),
        Some("A worktree named 'taken' already exists.".into())
    );
    assert!(check(request("ok", "main", vacant), DestinationState::Vacant).is_some_and(|problem| problem
        .starts_with("Branch 'main' is already checked out in another worktree")));
    assert!(check(request("ok", "has space", vacant), DestinationState::Vacant)
        .is_some_and(|problem| problem.starts_with("Invalid branch name")));
    assert!(check(request("ok", "feature/ok", "/work/repo-worktrees/taken"), DestinationState::NotEmpty)
        .is_some_and(|problem| problem.contains("is not empty")));
}

#[test]
fn a_branch_checked_out_elsewhere_is_refused() {
    let req = request("second-main", "main", "/work/repo-worktrees/second");
    let error = check_add_worktree(&req, &facts("main"), true, &DestinationState::Vacant)
        .expect_err("main is checked out in the main worktree");

    assert!(error.contains("already checked out"), "unexpected message: {error}");
}

#[test]
fn a_duplicate_worktree_name_is_refused() {
    let req = request("taken", "feature/two", "/work/repo-worktrees/two");
    let error = check_add_worktree(&req, &facts("feature/two"), true, &DestinationState::Vacant)
        .expect_err("duplicate name");

    assert!(error.contains("already exists"));
}

#[test]
fn a_non_empty_destination_is_refused() {
    let req = request("occupied", "feature/x", "/work/repo-worktrees/occupied");
    let error = check_add_worktree(&req, &facts("feature/x"), true, &DestinationState::NotEmpty)
        .expect_err("non-empty destination");

    assert!(error.contains("is not empty"), "unexpected message: {error}");
}

#[test]
fn an_empty_destination_directory_is_reused() {
    let req = request("empty", "feature/empty", "/work/repo-worktrees/empty");
    let plan = check_add_worktree(&req, &facts("feature/empty"), true, &DestinationState::EmptyFolder)
        .expect("add worktree into an empty folder");

    assert_eq!(plan.destination, Destination::EmptyFolder);
    assert_eq!(plan.name, "empty");
    assert_eq!(plan.branch, "feature/empty");
}

#[test]
fn a_new_branch_starts_from_the_requested_base() {
    let mut req = request("from-base", "feature/from-base", "/work/repo-worktrees/from-base");
    req.base_branch = Some(" release ".into());
    let plan = check_add_worktree(&req, &facts("feature/from-base"), true, &DestinationState::Vacant)
        .expect("plan");

    assert!(matches!(plan.start, BranchStart::FromBranch(ref b) if b == "release"));

    req.base_branch = Some("   ".into());
    let plan = check_add_worktree(&req, &facts("feature/from-base"), true, &DestinationState::Vacant)
        .expect("plan");
    assert!(matches!(plan.start, BranchStart::FromHead));
}

#[test]
fn an_existing_free_branch_is_checked_out_instead_of_created() {
    let req = request("reuse", "existing", "/work/repo-worktrees/reuse");
    let repo = Ok(WorktreeRepoFacts {
        worktree_names: vec![],
        branch_exists: true,
        branch_holder: None,
    });
    let plan = check_add_worktree(&req, &repo, true, &DestinationState::Vacant).expect("plan");

    assert!(matches!(plan.start, BranchStart::Existing));
    assert_eq!(plan.destination, Destination::Vacant);
}

#[test]
fn adding_checks_run_in_order_and_trim_their_input() {
    let repo = facts("feature/ok");
    let vacant = DestinationState::Vacant;
    assert_eq!(
        check_add_worktree(&request(" ", "b", "/p/q"), &repo, true, &vacant).err(),
        Some("Worktree name cannot be empty".into())
    );
    assert_eq!(
        check_add_worktree(&request("n", "", "/p/q"), &repo, true, &vacant).err(),
        Some("Branch name cannot be empty".into())
    );
    assert_eq!(
        check_add_worktree(&request("..", "b", "/p/q"), &repo, true, &vacant).err(),
        Some("'.' and '..' are not valid worktree names.".into())
    );
    assert_eq!(
        check_add_worktree(&request("n", "bad..name", "/p/q"), &repo, true, &vacant).err(),
        Some("Invalid branch name".into())
    );
    assert_eq!(
        check_add_worktree(&request("n", "b", "/p/q"), &Err("no repository".into()), true, &vacant).err(),
        Some("no repository".into())
    );
    let plan = check_add_worktree(&request("  n  ", " feature/ok ", "/p/q"), &repo, true, &vacant)
        .expect("plan");
    assert_eq!(plan.name, "n");
    assert_eq!(plan.branch, "feature/ok");
}

#[test]
fn destinations_are_checked_before_anything_is_created() {
    assert_eq!(
        check_destination("", true, &DestinationState::Vacant).err(),
        Some("Choose a destination folder for the worktree.".into())
    );
    assert_eq!(
        check_destination("/", false, &DestinationState::Vacant).err(),
        Some("Destination '/' has no parent folder.".into())
    );
    assert_eq!(
        check_destination("/p/file", true, &DestinationState::NotAFolder).err(),
        Some("Destination '/p/file' already exists and is not a folder.".into())
    );
    assert_eq!(
        check_destination("/p/x", true, &DestinationState::Unreadable("denied".into())).err(),
        Some("Destination '/p/x' could not be read: denied".into())
    );
    assert_eq!(check_destination("/p/x", true, &DestinationState::Vacant), Ok(Destination::Vacant));
}

#[test]
fn removing_a_dirty_worktree_is_refused_and_changes_survive() {
    let dirty = LinkedWorktreeStatus::Dirty { modified: 1, staged: 0, untracked: 0 };
    let error = prune_blocker("dirty", &None, &Some(dirty)).expect("dirty removal must be refused");

    assert!(error.contains("uncommitted changes"), "unexpected message: {error}");
}

#[test]
fn untracked_only_changes_also_block_removal() {
    let dirty = LinkedWorktreeStatus::Dirty { modified: 0, staged: 0, untracked: 1 };
    let error = prune_blocker("untracked", &None, &Some(dirty)).expect("untracked work must block removal");

    assert!(error.contains("uncommitted changes"));
}

#[test]
fn staged_only_changes_also_block_removal() {
    let dirty = LinkedWorktreeStatus::Dirty { modified: 0, staged: 1, untracked: 0 };
    let error = prune_blocker("staged", &None, &Some(dirty)).expect("staged work must block removal");

    assert!(error.contains("uncommitted changes"));
}

#[test]
fn force_removal_still_works_for_a_dirty_worktree() {
    // A forced removal does not inspect the checkout at all.
    assert!(prune_blocker("forced", &None, &None).is_none());
}

#[test]
fn pruning_explains_locks_and_unreadable_checkouts() {
    assert_eq!(
        prune_blocker("held", &Some(Some("agent running".into())), &None),
        Some("Worktree 'held' is locked: agent running. Unlock it before removing.".into())
    );
    assert_eq!(
        prune_blocker("held", &Some(None), &Some(LinkedWorktreeStatus::Clean)),
        Some("Worktree 'held' is locked: no reason given. Unlock it before removing.".into())
    );
    assert_eq!(
        prune_blocker("odd", &None, &Some(LinkedWorktreeStatus::Unavailable("bad index".into()))),
        Some("Cannot remove worktree 'odd' because its status could not be read: bad index".into())
    );
    assert!(prune_blocker("gone", &None, &Some(LinkedWorktreeStatus::Missing)).is_none());
    assert!(prune_blocker("clean", &None, &Some(LinkedWorktreeStatus::Clean)).is_none());
}

#[test]
fn removing_an_unknown_worktree_names_it() {
    let error = worktree_not_found("nope");

    assert!(error.contains("'nope'"));
    assert_eq!(error, "Worktree 'nope' was not found in this repository.");
}
