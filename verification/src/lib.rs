//! Verified core of a desktop Git client: conflict merging, patch parsing,
//! commit-message rules, worktree bookkeeping and the policies that decide
//! what a push, pull, tag or worktree operation may do.

use vstd::prelude::*;

pub mod actions;
pub mod branches;
pub mod commit_rules;
pub mod conflicts;
pub mod dialogs;
pub mod diff;
pub mod git;
pub mod git_status;
pub mod github;
pub mod inspector;
pub mod logging;
pub mod metadata_store;
pub mod outcomes;
pub mod publish;
pub mod remotes;
pub mod review;
pub mod settings;
pub mod state;
pub mod sync;
pub mod paths;
pub mod ports;
pub mod tags;
pub mod text;
pub mod text_map;
pub mod toolbar;
pub mod views;
pub mod welcome;
pub mod worktree_checks;
pub mod worktree_metadata;
pub mod worktree_service;
pub mod worktrees;

verus! {

} // verus!
