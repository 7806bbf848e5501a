//! What the app keeps between launches: the user's preferences and the
//! repositories that were open.

use vstd::prelude::*;

use crate::commit_rules::CommitMessageRuleSet;

verus! {

/// The user's preferences.
#[derive(Clone, Debug, PartialEq, Eq)]
pub struct AppSettings {
    pub commit_message_ruleset: CommitMessageRuleSet,
    pub commit_message_custom_scopes: Vec<String>,
}

impl Default for AppSettings {
    fn default() -> (r: AppSettings)
        ensures
            r.commit_message_ruleset == CommitMessageRuleSet::Off,
            r.commit_message_custom_scopes@.len() == 0,
    {
        AppSettings {
            commit_message_ruleset: CommitMessageRuleSet::Off,
            commit_message_custom_scopes: Vec::new(),
        }
    }
}

/// Which repositories were open and which was active, so the tabs come back
/// on the next launch.
#[derive(Clone, Debug)]
pub struct SessionState {
    pub open_repos: Vec<String>,
    pub active_repo: Option<String>,
}

impl Default for SessionState {
    fn default() -> (r: SessionState)
        ensures
            r.open_repos@.len() == 0,
            r.active_repo is None,
    {
        SessionState { open_repos: Vec::new(), active_repo: None }
    }
}

} // verus!
