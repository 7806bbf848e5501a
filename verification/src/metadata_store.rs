//! The stored worktree metadata of every repository: one map per
//! repository, keyed by storage key, changed one entry at a time so that two
//! tabs showing one repository cannot undo each other's edits.

use vstd::prelude::*;

use crate::text_map::TextMap;
use crate::worktree_metadata::{
    clamp_text, metadata_is_default, WorktreeMetadata, MAX_AGENT_LEN, MAX_NOTES_LEN, MAX_TASK_LEN,
};

verus! {

/// What `clamped` makes of `md`: `v`.
pub open spec fn clamps_to(md: WorktreeMetadata, v: WorktreeMetadata) -> bool {
    &&& v.task@ == clamp_text(md.task@, MAX_TASK_LEN)
    &&& v.agent@ == clamp_text(md.agent@, MAX_AGENT_LEN)
    &&& v.notes@ == clamp_text(md.notes@, MAX_NOTES_LEN)
    &&& v.base_commit == md.base_commit
    &&& v.started == md.started
    &&& v.review == md.review
    &&& v.test == md.test
}

/// Whether `md`, once clamped, still says anything.
pub open spec fn worth_storing(md: WorktreeMetadata) -> bool {
    ||| clamp_text(md.task@, MAX_TASK_LEN).len() > 0
    ||| clamp_text(md.agent@, MAX_AGENT_LEN).len() > 0
    ||| clamp_text(md.notes@, MAX_NOTES_LEN).len() > 0
    ||| md.base_commit@.len() > 0
    ||| md.started != 0
    ||| md.review != crate::worktree_metadata::ReviewState::Unreviewed
    ||| md.test != crate::worktree_metadata::TestState::Unknown
}

/// `after` is `before` with the entry for `key` set from `entry`: stored
/// clamped when it says anything, removed otherwise; every other entry
/// unchanged.
pub open spec fn entry_updated(
    before: Map<Seq<char>, WorktreeMetadata>,
    after: Map<Seq<char>, WorktreeMetadata>,
    key: Seq<char>,
    entry: Option<WorktreeMetadata>,
) -> bool {
    &&& forall|k: Seq<char>|
        k != key ==> (#[trigger] after.contains_key(k) == before.contains_key(k) && (
        before.contains_key(k) ==> after[k] == before[k]))
    &&& match entry {
        Some(md) => if worth_storing(md) {
            after.contains_key(key) && clamps_to(md, after[key])
        } else {
            !after.contains_key(key)
        },
        None => !after.contains_key(key),
    }
}

/// Two entries say the same thing.
pub open spec fn same_entry(a: WorktreeMetadata, b: WorktreeMetadata) -> bool {
    &&& a.task@ == b.task@
    &&& a.agent@ == b.agent@
    &&& a.notes@ == b.notes@
    &&& a.base_commit@ == b.base_commit@
    &&& a.started == b.started
    &&& a.review == b.review
    &&& a.test == b.test
}

/// Saving back an entry exactly as it was read changes nothing: a stored
/// entry is already clamped and still says something, so it is stored again
/// as it is, and every other entry stays as it was.
pub proof fn law_saving_back_what_was_read_changes_nothing(
    earlier: Map<Seq<char>, WorktreeMetadata>,
    before: Map<Seq<char>, WorktreeMetadata>,
    after: Map<Seq<char>, WorktreeMetadata>,
    key: Seq<char>,
    md: WorktreeMetadata,
)
    requires
        entry_updated(earlier, before, key, Some(md)),
        worth_storing(md),
        entry_updated(before, after, key, Some(before[key])),
    ensures
        after.dom() == before.dom(),
        same_entry(after[key], before[key]),
        forall|k: Seq<char>| k != key && #[trigger] before.contains_key(k) ==> after[k] == before[k],
{
    let stored = before[key];
    crate::worktree_metadata::lemma_clamp_fits(md.task@, MAX_TASK_LEN);
    crate::worktree_metadata::lemma_clamp_fits(md.agent@, MAX_AGENT_LEN);
    crate::worktree_metadata::lemma_clamp_fits(md.notes@, MAX_NOTES_LEN);
    crate::worktree_metadata::lemma_clamp_fits(stored.task@, MAX_TASK_LEN);
    crate::worktree_metadata::lemma_clamp_fits(stored.agent@, MAX_AGENT_LEN);
    crate::worktree_metadata::lemma_clamp_fits(stored.notes@, MAX_NOTES_LEN);
    assert(worth_storing(stored));
    assert(after.dom() =~= before.dom());
}

impl WorktreeMetadata {
    /// A copy of this metadata.
    pub fn duplicate(&self) -> (r: WorktreeMetadata)
        ensures
            r == *self,
    {
        WorktreeMetadata {
            task: self.task.clone(),
            agent: self.agent.clone(),
            base_commit: self.base_commit.clone(),
            notes: self.notes.clone(),
            started: self.started,
            review: self.review,
            test: self.test,
        }
    }
}

/// Metadata for every worktree of one repository, keyed by storage key.
pub type WorktreeMetadataMap = TextMap<WorktreeMetadata>;

impl TextMap<WorktreeMetadata> {
    /// A copy of this map.
    pub fn duplicate(&self) -> (r: TextMap<WorktreeMetadata>)
        requires
            self.wf(),
        ensures
            r.wf(),
            r.as_map() == self.as_map(),
    {
        let mut out: TextMap<WorktreeMetadata> = TextMap::new();
        let n = self.len();
        let mut i: usize = 0;
        while i < n
            invariant
                self.wf(),
                n == self.keys().len(),
                0 <= i <= n,
                out.wf(),
                forall|k: Seq<char>|
                    #[trigger] out.as_map().contains_key(k) <==> self.keys().take(i as int).contains(k),
                forall|k: Seq<char>|
                    #[trigger] out.as_map().contains_key(k) ==> out.as_map()[k] == self.as_map()[k],
            decreases n - i,
        {
            let (k, v) = self.entry_at(i);
            let ghost before = out.as_map();
            out.insert(k.clone(), v.duplicate());
            assert forall|k2: Seq<char>| #[trigger] out.as_map().contains_key(k2) <==> self.keys().take(i + 1).contains(k2) by {
                let t = self.keys().take(i + 1);
                if k2 == k@ {
                    assert(t[i as int] == k2);
                }
                if self.keys().take(i as int).contains(k2) {
                    let j = choose|j: int| 0 <= j < i && self.keys().take(i as int)[j] == k2;
                    assert(t[j] == k2);
                }
                if t.contains(k2) && k2 != k@ {
                    let j = choose|j: int| 0 <= j < t.len() && t[j] == k2;
                    assert(self.keys().take(i as int)[j] == k2);
                }
            }
            i = i + 1;
        }
        proof {
            assert(self.keys().take(n as int) =~= self.keys());
            assert forall|k: Seq<char>| #[trigger] self.as_map().contains_key(k) <==> self.keys().contains(k) by {
                self.lemma_keys(k);
            }
            assert(out.as_map() =~= self.as_map());
        }
        out
    }
}

} // verus!

verus! {

/// Every repository's worktree metadata, keyed by repository.
pub struct MetadataStore {
    pub repositories: TextMap<WorktreeMetadataMap>,
}

impl MetadataStore {
    /// Both levels keep their keys in order.
    pub open spec fn wf(&self) -> bool {
        &&& self.repositories.wf()
        &&& forall|k: Seq<char>|
            #[trigger] self.repositories.as_map().contains_key(k)
                ==> self.repositories.as_map()[k].wf()
    }

    /// The metadata of one repository, empty when it has none.
    pub open spec fn repo_view(&self, repo: Seq<char>) -> Map<Seq<char>, WorktreeMetadata> {
        if self.repositories.as_map().contains_key(repo) {
            self.repositories.as_map()[repo].as_map()
        } else {
            Map::empty()
        }
    }

    /// A store that holds nothing.
    pub fn new() -> (r: MetadataStore)
        ensures
            r.wf(),
            r.repositories.as_map() == Map::<Seq<char>, WorktreeMetadataMap>::empty(),
    {
        MetadataStore { repositories: TextMap::new() }
    }
}

/// One repository's metadata. A repository that never had any comes back
/// empty, which is not an error.
pub fn load_for_repo(store: &MetadataStore, repo_key: &str) -> (r: WorktreeMetadataMap)
    requires
        store.wf(),
    ensures
        r.wf(),
        r.as_map() == store.repo_view(repo_key@),
{
    match store.repositories.get(repo_key) {
        Some(m) => m.duplicate(),
        None => TextMap::new(),
    }
}

/// Sets or clears one worktree's entry and returns the repository's
/// metadata as it now stands. An entry that says nothing is removed rather
/// than stored, and a repository left without entries is dropped.
pub fn update_entry(
    store: &mut MetadataStore,
    repo_key: &str,
    worktree_key: &str,
    entry: Option<WorktreeMetadata>,
) -> (r: WorktreeMetadataMap)
    requires
        old(store).wf(),
    ensures
        final(store).wf(),
        r.wf(),
        entry_updated(old(store).repo_view(repo_key@), r.as_map(), worktree_key@, entry),
        final(store).repo_view(repo_key@) == r.as_map(),
        r.as_map() == Map::<Seq<char>, WorktreeMetadata>::empty() ==> !final(store).repositories.as_map().contains_key(repo_key@),
        forall|k: Seq<char>|
            k != repo_key@ ==> (#[trigger] final(store).repositories.as_map().contains_key(k)
                == old(store).repositories.as_map().contains_key(k) && final(store).repo_view(k)
                == old(store).repo_view(k)),
{
    let mut entries = load_for_repo(store, repo_key);
    let ghost before = entries.as_map();
    match entry {
        Some(md) => {
            let c = md.clamped();
            if !c.is_empty() {
                entries.insert(worktree_key.to_string(), c);
            } else {
                entries.remove(worktree_key);
            }
        },
        None => {
            entries.remove(worktree_key);
        },
    }
    let remaining = entries.duplicate();
    let ghost old_repos = store.repositories.as_map();
    if remaining.is_empty() {
        store.repositories.remove(repo_key);
    } else {
        store.repositories.insert(repo_key.to_string(), entries);
    }
    proof {
        assert forall|k: Seq<char>| #[trigger] store.repositories.as_map().contains_key(k) implies store.repositories.as_map()[k].wf() by {
            if k != repo_key@ {
                assert(old_repos.contains_key(k));
            }
        }
    }
    remaining
}

} // verus!
