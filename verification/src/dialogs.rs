//! One frame of each of a tab's dialogs: given what the user did in it this
//! frame, what the dialog keeps, and the action it asks for. Drawing the
//! dialog and running the action are the caller's.

use vstd::prelude::*;

use crate::state::{
    BranchDialogState, BusyAction, CleanupBranchesDialogState, DiscardDialogState, TagDialogState,
};
use crate::git::{DiscardPreview, StaleBranch};
use crate::text::strs;

verus! {

/// The new-branch form after a frame: a submitted name goes on to the
/// confirmation step; a form that closes forgets what was typed.
pub fn branch_form_frame(branch: &mut BranchDialogState, keep_open: bool, submitted: Option<String>) -> (r: Option<String>)
    ensures
        r == submitted,
        final(branch).show_create_branch_dialog == keep_open,
        !keep_open && old(branch).show_create_branch_dialog ==> {
            &&& final(branch).new_branch_name@.len() == 0
            &&& !final(branch).focus_new_branch_name_requested
        },
        keep_open || !old(branch).show_create_branch_dialog ==> {
            &&& final(branch).new_branch_name == old(branch).new_branch_name
            &&& final(branch).focus_new_branch_name_requested == old(branch).focus_new_branch_name_requested
        },
        final(branch).show_create_branch_confirm == old(branch).show_create_branch_confirm,
        final(branch).create_branch_preview == old(branch).create_branch_preview,
        final(branch).pending_new_branch_name == old(branch).pending_new_branch_name,
{
    if !keep_open && branch.show_create_branch_dialog {
        branch.new_branch_name = String::new();
        branch.focus_new_branch_name_requested = false;
    }
    branch.show_create_branch_dialog = keep_open;
    submitted
}

/// The branch confirmation after a frame: a confirmation is passed on; a
/// confirmation that closes forgets the pending branch.
pub fn branch_confirm_frame(branch: &mut BranchDialogState, keep_open: bool, confirmed: bool) -> (r: bool)
    ensures
        r == confirmed,
        final(branch).show_create_branch_confirm == keep_open,
        !keep_open && old(branch).show_create_branch_confirm ==> {
            &&& final(branch).create_branch_preview is None
            &&& final(branch).pending_new_branch_name is None
            &&& final(branch).new_branch_name@.len() == 0
        },
        keep_open || !old(branch).show_create_branch_confirm ==> {
            &&& final(branch).create_branch_preview == old(branch).create_branch_preview
            &&& final(branch).pending_new_branch_name == old(branch).pending_new_branch_name
            &&& final(branch).new_branch_name == old(branch).new_branch_name
        },
        final(branch).show_create_branch_dialog == old(branch).show_create_branch_dialog,
        final(branch).focus_new_branch_name_requested == old(branch).focus_new_branch_name_requested,
{
    if !keep_open && branch.show_create_branch_confirm {
        branch.create_branch_preview = None;
        branch.pending_new_branch_name = None;
        branch.new_branch_name = String::new();
    }
    branch.show_create_branch_confirm = keep_open;
    confirmed
}

/// Whether the tab's worker is running `action`.
pub open spec fn running(busy: Option<BusyAction>, action: BusyAction) -> bool {
    busy == Some(action)
}

/// The tag dialog after a frame: it stays open while its tag is being
/// created, whatever the user did; once closed its draft is gone.
pub fn tag_dialog_frame(tag: &mut TagDialogState, busy: Option<BusyAction>, keep_open: bool, submitted: Option<String>) -> (r: Option<String>)
    ensures
        r == submitted,
        final(tag).show_create_tag_dialog == (running(busy, BusyAction::CreateTag) || keep_open),
        !final(tag).show_create_tag_dialog ==> final(tag).new_tag_name@.len() == 0
            && !final(tag).focus_new_tag_name_requested,
        final(tag).show_create_tag_dialog ==> final(tag).new_tag_name == old(tag).new_tag_name
            && final(tag).focus_new_tag_name_requested == old(tag).focus_new_tag_name_requested,
{
    let tag_busy = match busy {
        Some(BusyAction::CreateTag) => true,
        _ => false,
    };
    tag.show_create_tag_dialog = if tag_busy { true } else { keep_open };
    if !tag.show_create_tag_dialog {
        tag.new_tag_name = String::new();
        tag.focus_new_tag_name_requested = false;
    }
    submitted
}

/// The names of the stale branches picked for deletion, in order.
pub open spec fn picked_names(stale: Seq<StaleBranch>) -> Seq<Seq<char>>
    decreases stale.len(),
{
    if stale.len() == 0 {
        Seq::empty()
    } else if stale.last().selected {
        picked_names(stale.drop_last()).push(stale.last().name@)
    } else {
        picked_names(stale.drop_last())
    }
}

/// The clean-up dialog after a frame: Delete asks to delete the picked
/// branches, when any are picked; once closed its list is gone.
pub fn cleanup_dialog_frame(cleanup: &mut CleanupBranchesDialogState, keep_open: bool, delete_requested: bool) -> (r: Option<Vec<String>>)
    ensures
        match r {
            Some(names) => delete_requested && strs(names@) == picked_names(old(cleanup).stale_branches@)
                && names@.len() > 0,
            None => !delete_requested || picked_names(old(cleanup).stale_branches@).len() == 0,
        },
        final(cleanup).show_cleanup_branches_dialog == keep_open,
        keep_open ==> final(cleanup).stale_branches == old(cleanup).stale_branches,
        !keep_open ==> final(cleanup).stale_branches@.len() == 0,
{
    let mut picked: Option<Vec<String>> = None;
    if delete_requested {
        let mut names: Vec<String> = Vec::new();
        let mut i: usize = 0;
        while i < cleanup.stale_branches.len()
            invariant
                0 <= i <= cleanup.stale_branches@.len(),
                strs(names@) == picked_names(cleanup.stale_branches@.take(i as int)),
            decreases cleanup.stale_branches@.len() - i,
        {
            assert(cleanup.stale_branches@.take(i + 1).drop_last() =~= cleanup.stale_branches@.take(i as int));
            if cleanup.stale_branches[i].selected {
                let ghost before = names@;
                names.push(cleanup.stale_branches[i].name.clone());
                assert(strs(names@) =~= strs(before).push(cleanup.stale_branches@[i as int].name@));
            }
            i = i + 1;
        }
        assert(cleanup.stale_branches@.take(cleanup.stale_branches@.len() as int) =~= cleanup.stale_branches@);
        if names.len() > 0 {
            picked = Some(names);
        }
    }
    cleanup.show_cleanup_branches_dialog = keep_open;
    if !keep_open {
        cleanup.stale_branches = Vec::new();
    }
    picked
}

/// The discard dialog after a frame: Confirm asks for a reset, carrying
/// whether untracked files go too; it stays open while the reset runs, and
/// once closed its preview and choice are gone.
pub fn discard_dialog_frame(discard: &mut DiscardDialogState, busy: Option<BusyAction>, keep_open: bool, confirmed: bool) -> (r: Option<bool>)
    ensures
        confirmed ==> r == Some(old(discard).discard_clean_untracked),
        !confirmed ==> r is None,
        final(discard).show_discard_dialog == (running(busy, BusyAction::DiscardAndReset) || keep_open),
        !final(discard).show_discard_dialog ==> final(discard).discard_preview is None
            && !final(discard).discard_clean_untracked,
        final(discard).show_discard_dialog ==> final(discard).discard_preview == old(discard).discard_preview
            && final(discard).discard_clean_untracked == old(discard).discard_clean_untracked,
{
    let reset_busy = match busy {
        Some(BusyAction::DiscardAndReset) => true,
        _ => false,
    };
    let request = if confirmed {
        Some(discard.discard_clean_untracked)
    } else {
        None
    };
    discard.show_discard_dialog = if reset_busy { true } else { keep_open };
    if !discard.show_discard_dialog {
        discard.discard_preview = None;
        discard.discard_clean_untracked = false;
    }
    request
}

/// Opens the discard dialog on what a reset would throw away; untracked
/// files are kept unless the user says otherwise.
pub fn open_discard_dialog(discard: &mut DiscardDialogState, preview: DiscardPreview)
    ensures
        final(discard).show_discard_dialog,
        final(discard).discard_preview == Some(preview),
        !final(discard).discard_clean_untracked,
{
    discard.discard_preview = Some(preview);
    discard.discard_clean_untracked = false;
    discard.show_discard_dialog = true;
}

/// Opens the clean-up dialog on the stale branches, when they could be
/// listed; otherwise the dialog stays as it was and the failure comes back.
pub fn open_cleanup_dialog(cleanup: &mut CleanupBranchesDialogState, listed: Result<Vec<StaleBranch>, String>) -> (r: Result<(), String>)
    ensures
        match listed {
            Ok(stale) => r is Ok && final(cleanup).stale_branches == stale && final(cleanup).show_cleanup_branches_dialog,
            Err(e) => r == Err::<(), String>(e) && *final(cleanup) == *old(cleanup),
        },
{
    match listed {
        Ok(stale) => {
            cleanup.stale_branches = stale;
            cleanup.show_cleanup_branches_dialog = true;
            Ok(())
        },
        Err(e) => Err(e),
    }
}

/// Opens the tag dialog with the suggested next tag typed in.
pub fn open_tag_dialog(tag: &mut TagDialogState, suggestion: String)
    ensures
        final(tag).new_tag_name == suggestion,
        final(tag).show_create_tag_dialog,
        final(tag).focus_new_tag_name_requested,
{
    tag.new_tag_name = suggestion;
    tag.show_create_tag_dialog = true;
    tag.focus_new_tag_name_requested = true;
}

} // verus!
