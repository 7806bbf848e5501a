//! Publishing a folder as a new GitHub repository: commit what is there,
//! create the repository, add it as `origin` and push.

use vstd::prelude::*;

use crate::github::{CreateGithubRepoRequest, CreateGithubRepoSuccess, PushSuccess};
use crate::ports::{
    calls_added, GitBranchReadPort, GitCall, GitHubCall, GitHubRemoteInfoPort, GitHubRepoCreationPort,
    GitRemoteInfoPort, GitRemoteSyncPort, GitRepoBootstrapPort, GitWorktreeCommitPort,
};
use crate::sync;
use crate::text::{chars_of, lit, push_all, string_of, trim, trim_chars};

verus! {

/// What the app found at the folder to publish.
#[derive(Clone, Debug)]
pub enum FolderCheck {
    /// A folder, by its canonical path.
    Folder(String),
    /// Something that is not a folder.
    NotAFolder,
    /// The path could not be resolved; the text says why.
    Invalid(String),
}

/// What is wrong with a publish request before anything is touched.
pub open spec fn publish_problem(repo_name: Seq<char>, commit_message: Seq<char>) -> Option<Seq<char>> {
    if trim(repo_name).len() == 0 {
        Some("Repository name cannot be empty"@)
    } else if trim(commit_message).len() == 0 {
        Some("Initial commit message cannot be empty"@)
    } else {
        None
    }
}

/// The folder to publish, or why it cannot be.
pub open spec fn folder_plan(check: FolderCheck) -> Result<Seq<char>, Seq<char>> {
    match check {
        FolderCheck::Folder(p) => Ok(p@),
        FolderCheck::NotAFolder => Err("Selected path is not a folder"@),
        FolderCheck::Invalid(e) => Err("Invalid folder: "@ + e@),
    }
}

pub fn publish_request_problem(repo_name: &str, commit_message: &str) -> (r: Option<String>)
    ensures
        match publish_problem(repo_name@, commit_message@) {
            Some(m) => r matches Some(x) && x@ == m,
            None => r is None,
        },
{
    if trim_chars(chars_of(repo_name).as_slice()).len() == 0 {
        Some(string_of(lit("Repository name cannot be empty").as_slice()))
    } else if trim_chars(chars_of(commit_message).as_slice()).len() == 0 {
        Some(string_of(lit("Initial commit message cannot be empty").as_slice()))
    } else {
        None
    }
}

pub fn publish_folder(check: FolderCheck) -> (r: Result<String, String>)
    ensures
        match folder_plan(check) {
            Ok(p) => r matches Ok(x) && x@ == p,
            Err(e) => r matches Err(x) && x@ == e,
        },
{
    match check {
        FolderCheck::Folder(p) => Ok(p),
        FolderCheck::NotAFolder => Err(string_of(lit("Selected path is not a folder").as_slice())),
        FolderCheck::Invalid(e) => {
            let mut out = lit("Invalid folder: ");
            push_all(&mut out, chars_of(e.as_str()).as_slice());
            Err(string_of(out.as_slice()))
        },
    }
}

/// Whether a folder gets a first commit before publishing: it has changes,
/// or no commit at all.
pub open spec fn needs_first_commit(has_changes: bool, has_head: bool) -> bool {
    has_changes || !has_head
}

/// The GitHub call that creates the requested repository.
pub open spec fn creation_call(request: CreateGithubRepoRequest) -> GitHubCall {
    GitHubCall::CreateRepository {
        auth: request.auth,
        name: trim(request.repo_name@),
        visibility: request.visibility,
    }
}

/// The last steps of publishing, and the git and GitHub calls `made` and
/// `github_made` for them, given the ports' answers: the repository is
/// created on GitHub, added as `origin`, and the folder is pushed.
pub open spec fn published_remotely<G, H>(
    request: CreateGithubRepoRequest,
    path: Seq<char>,
    r: Result<CreateGithubRepoSuccess, String>,
    made: Seq<GitCall>,
    github_made: Seq<GitHubCall>,
) -> bool where
    G: GitRepoBootstrapPort + GitRemoteInfoPort + GitWorktreeCommitPort + GitBranchReadPort + GitRemoteSyncPort,
    H: GitHubRepoCreationPort + GitHubRemoteInfoPort,
 {
    exists|created: Result<String, String>|
        #![trigger H::creation_answer(request.auth, trim(request.repo_name@), request.visibility, created)]
        H::creation_answer(request.auth, trim(request.repo_name@), request.visibility, created)
            && github_made == seq![creation_call(request)]
            && match created {
            Err(e) => r == Err::<CreateGithubRepoSuccess, String>(e) && made == Seq::<GitCall>::empty(),
            Ok(url) => exists|added: Result<(), String>|
                #![trigger G::remote_add_answer(path, "origin"@, url@, added)]
                G::remote_add_answer(path, "origin"@, url@, added) && match added {
                    Err(e) => r == Err::<CreateGithubRepoSuccess, String>(e)
                        && made == seq![GitCall::AddRemote { repo: path, name: "origin"@, url: url@ }],
                    Ok(_) => exists|pushed: Result<PushSuccess, String>, pushing: Seq<GitCall>|
                        #![trigger sync::push_result::<G, H>(path, Some(request.auth), pushed, pushing)]
                        sync::push_result::<G, H>(path, Some(request.auth), pushed, pushing)
                            && made == seq![GitCall::AddRemote { repo: path, name: "origin"@, url: url@ }] + pushing
                            && match pushed {
                            Err(e) => r == Err::<CreateGithubRepoSuccess, String>(e),
                            Ok(p) => r matches Ok(x) && x.folder_path@ == path && x.message@
                                == "Created GitHub repository "@ + trim(request.repo_name@) + ". "@ + p.message@,
                        },
                },
        }
}

/// Publishing from the first commit on, and the calls made for it, given the
/// ports' answers: when the folder has changes or no commit yet, everything
/// is staged and committed with the trimmed message first.
pub open spec fn published_from<G, H>(
    request: CreateGithubRepoRequest,
    path: Seq<char>,
    needs_commit: bool,
    r: Result<CreateGithubRepoSuccess, String>,
    made: Seq<GitCall>,
    github_made: Seq<GitHubCall>,
) -> bool where
    G: GitRepoBootstrapPort + GitRemoteInfoPort + GitWorktreeCommitPort + GitBranchReadPort + GitRemoteSyncPort,
    H: GitHubRepoCreationPort + GitHubRemoteInfoPort,
 {
    if needs_commit {
        exists|staged: Result<(), String>|
            #![trigger G::staging_answer(path, staged)]
            G::staging_answer(path, staged) && match staged {
                Err(e) => r == Err::<CreateGithubRepoSuccess, String>(e) && made == seq![GitCall::StageAll { repo: path }]
                    && github_made == Seq::<GitHubCall>::empty(),
                Ok(_) => exists|committed: Result<(), String>|
                    #![trigger G::commit_answer(path, trim(request.commit_message@), committed)]
                    G::commit_answer(path, trim(request.commit_message@), committed) && match committed {
                        Err(e) => r == Err::<CreateGithubRepoSuccess, String>(e) && made == seq![
                            GitCall::StageAll { repo: path },
                            GitCall::CreateCommit { repo: path, message: trim(request.commit_message@) },
                        ] && github_made == Seq::<GitHubCall>::empty(),
                        Ok(_) => made.len() >= 2 && made.take(2) == seq![
                            GitCall::StageAll { repo: path },
                            GitCall::CreateCommit { repo: path, message: trim(request.commit_message@) },
                        ] && published_remotely::<G, H>(request, path, r, made.skip(2), github_made),
                    },
            }
    } else {
        published_remotely::<G, H>(request, path, r, made, github_made)
    }
}

/// What publishing ends in, and the git and GitHub calls `made` and
/// `github_made` for it, given the ports' answers: the folder is opened or
/// made a repository, must have no `origin`, gets a first commit when it has
/// changes or no commit, then the rest. A refused request makes no call.
pub open spec fn publish_result<G, H>(
    request: CreateGithubRepoRequest,
    folder: FolderCheck,
    r: Result<CreateGithubRepoSuccess, String>,
    made: Seq<GitCall>,
    github_made: Seq<GitHubCall>,
) -> bool where
    G: GitRepoBootstrapPort + GitRemoteInfoPort + GitWorktreeCommitPort + GitBranchReadPort + GitRemoteSyncPort,
    H: GitHubRepoCreationPort + GitHubRemoteInfoPort,
 {
    match publish_problem(request.repo_name@, request.commit_message@) {
        Some(m) => r matches Err(x) && x@ == m && made == Seq::<GitCall>::empty()
            && github_made == Seq::<GitHubCall>::empty(),
        None => match folder_plan(folder) {
            Err(e) => r matches Err(x) && x@ == e && made == Seq::<GitCall>::empty()
                && github_made == Seq::<GitHubCall>::empty(),
            Ok(path) => exists|opened: Result<(), String>|
                #![trigger G::opening_answer(path, opened)]
                G::opening_answer(path, opened) && match opened {
                    Err(e) => r == Err::<CreateGithubRepoSuccess, String>(e) && made == seq![
                        GitCall::OpenOrInitRepo { repo: path },
                    ] && github_made == Seq::<GitHubCall>::empty(),
                    Ok(_) => exists|origin: Result<bool, String>|
                        #![trigger G::origin_answer(path, origin)]
                        G::origin_answer(path, origin) && match origin {
                            Err(e) => r == Err::<CreateGithubRepoSuccess, String>(e) && made == seq![
                                GitCall::OpenOrInitRepo { repo: path },
                            ] && github_made == Seq::<GitHubCall>::empty(),
                            Ok(true) => r matches Err(x) && x@ == "Remote 'origin' already exists for this repository"@
                                && made == seq![GitCall::OpenOrInitRepo { repo: path }]
                                && github_made == Seq::<GitHubCall>::empty(),
                            Ok(false) => exists|changes: Result<bool, String>|
                                #![trigger G::changes_answer(path, changes)]
                                G::changes_answer(path, changes) && match changes {
                                    Err(e) => r == Err::<CreateGithubRepoSuccess, String>(e) && made == seq![
                                        GitCall::OpenOrInitRepo { repo: path },
                                    ] && github_made == Seq::<GitHubCall>::empty(),
                                    Ok(c) => exists|head: Result<bool, String>|
                                        #![trigger G::head_answer(path, head)]
                                        G::head_answer(path, head) && match head {
                                            Err(e) => r == Err::<CreateGithubRepoSuccess, String>(e) && made == seq![
                                                GitCall::OpenOrInitRepo { repo: path },
                                            ] && github_made == Seq::<GitHubCall>::empty(),
                                            Ok(h) => made.len() > 0 && made[0] == GitCall::OpenOrInitRepo { repo: path }
                                                && published_from::<G, H>(
                                                request,
                                                path,
                                                needs_first_commit(c, h),
                                                r,
                                                made.drop_first(),
                                                github_made,
                                            ),
                                        },
                                },
                        },
                },
        },
    }
}

/// The calls of a first commit with `message`, when one is needed.
pub open spec fn first_commit_calls(path: Seq<char>, message: Seq<char>, needed: bool) -> Seq<GitCall> {
    if needed {
        seq![GitCall::StageAll { repo: path }, GitCall::CreateCommit { repo: path, message }]
    } else {
        Seq::<GitCall>::empty()
    }
}

proof fn lemma_committed_then<G, H>(
    request: CreateGithubRepoRequest,
    path: Seq<char>,
    needed: bool,
    staged: Result<(), String>,
    committed: Result<(), String>,
    r: Result<CreateGithubRepoSuccess, String>,
    remote: Seq<GitCall>,
    github_made: Seq<GitHubCall>,
) where
    G: GitRepoBootstrapPort + GitRemoteInfoPort + GitWorktreeCommitPort + GitBranchReadPort + GitRemoteSyncPort,
    H: GitHubRepoCreationPort + GitHubRemoteInfoPort,

    requires
        needed ==> G::staging_answer(path, staged) && staged is Ok && G::commit_answer(
            path,
            trim(request.commit_message@),
            committed,
        ) && committed is Ok,
        published_remotely::<G, H>(request, path, r, remote, github_made),
    ensures
        published_from::<G, H>(
            request,
            path,
            needed,
            r,
            first_commit_calls(path, trim(request.commit_message@), needed) + remote,
            github_made,
        ),
{
    let made = first_commit_calls(path, trim(request.commit_message@), needed) + remote;
    if !needed {
        assert(made =~= remote);
    } else {
        assert(made.skip(2) =~= remote);
        assert(made.take(2) =~= first_commit_calls(path, trim(request.commit_message@), needed));
    }
}

proof fn lemma_opened_then<G, H>(
    request: CreateGithubRepoRequest,
    folder: FolderCheck,
    path: Seq<char>,
    opened: Result<(), String>,
    has_changes: bool,
    has_head: bool,
    r: Result<CreateGithubRepoSuccess, String>,
    rest: Seq<GitCall>,
    github_made: Seq<GitHubCall>,
) where
    G: GitRepoBootstrapPort + GitRemoteInfoPort + GitWorktreeCommitPort + GitBranchReadPort + GitRemoteSyncPort,
    H: GitHubRepoCreationPort + GitHubRemoteInfoPort,

    requires
        publish_problem(request.repo_name@, request.commit_message@) is None,
        folder_plan(folder) == Ok::<Seq<char>, Seq<char>>(path),
        G::opening_answer(path, opened),
        opened is Ok,
        G::origin_answer(path, Ok(false)),
        G::changes_answer(path, Ok(has_changes)),
        G::head_answer(path, Ok(has_head)),
        published_from::<G, H>(request, path, needs_first_commit(has_changes, has_head), r, rest, github_made),
    ensures
        publish_result::<G, H>(request, folder, r, seq![GitCall::OpenOrInitRepo { repo: path }] + rest, github_made),
{
    let made = seq![GitCall::OpenOrInitRepo { repo: path }] + rest;
    assert(made.drop_first() =~= rest);
    assert(made.len() > 0 && made[0] == GitCall::OpenOrInitRepo { repo: path });
    let head = Ok::<bool, String>(has_head);
    assert(G::head_answer(path, head));
    assert(exists|hd: Result<bool, String>|
        #![trigger G::head_answer(path, hd)]
        G::head_answer(path, hd) && match hd {
            Err(_) => false,
            Ok(h) => made.len() > 0 && made[0] == GitCall::OpenOrInitRepo { repo: path }
                && published_from::<G, H>(request, path, needs_first_commit(has_changes, h), r, made.drop_first(), github_made),
        });
    assert(exists|ch: Result<bool, String>|
        #![trigger G::changes_answer(path, ch)]
        G::changes_answer(path, ch) && match ch {
            Err(_) => false,
            Ok(c) => exists|hd: Result<bool, String>|
                #![trigger G::head_answer(path, hd)]
                G::head_answer(path, hd) && match hd {
                    Err(_) => false,
                    Ok(h) => made.len() > 0 && made[0] == GitCall::OpenOrInitRepo { repo: path }
                        && published_from::<G, H>(request, path, needs_first_commit(c, h), r, made.drop_first(), github_made),
                },
        }) by {
        assert(G::changes_answer(path, Ok::<bool, String>(has_changes)));
    }
    assert(folder_plan(folder) matches Ok(p) && p == path);
}

/// Publishes a folder as a new GitHub repository: it is opened (or made a
/// repository), must have no `origin` yet, gets a first commit when it needs
/// one, then the repository is created, added as `origin` and pushed.
pub fn create_github_repo<G, H>(
    request: &CreateGithubRepoRequest,
    folder: FolderCheck,
    git: &mut G,
    github: &mut H,
) -> (r: Result<CreateGithubRepoSuccess, String>) where
    G: GitRepoBootstrapPort + GitRemoteInfoPort + GitWorktreeCommitPort + GitBranchReadPort + GitRemoteSyncPort,
    H: GitHubRepoCreationPort + GitHubRemoteInfoPort,

    ensures
        publish_problem(request.repo_name@, request.commit_message@) matches Some(m) ==> (r matches Err(
            x,
        ) && x@ == m),
        (publish_problem(request.repo_name@, request.commit_message@) is None && folder_plan(
            folder,
        ) is Err) ==> (r matches Err(x) && Err::<Seq<char>, Seq<char>>(x@) == folder_plan(folder)),
        r matches Ok(s) ==> folder_plan(folder) == Ok::<Seq<char>, Seq<char>>(s.folder_path@),
        final(git).git_calls() == old(git).git_calls() + calls_added(old(git).git_calls(), final(git).git_calls()),
        final(github).github_calls() == old(github).github_calls() + calls_added(
            old(github).github_calls(),
            final(github).github_calls(),
        ),
        publish_result::<G, H>(
            *request,
            folder,
            r,
            calls_added(old(git).git_calls(), final(git).git_calls()),
            calls_added(old(github).github_calls(), final(github).github_calls()),
        ),
{
    let ghost before = git.git_calls();
    let ghost hbefore = github.github_calls();
    proof {
        assert(calls_added(before, before) =~= Seq::<GitCall>::empty());
        assert(before =~= before + Seq::<GitCall>::empty());
        assert(calls_added(hbefore, hbefore) =~= Seq::<GitHubCall>::empty());
        assert(hbefore =~= hbefore + Seq::<GitHubCall>::empty());
    }
    if let Some(problem) = publish_request_problem(request.repo_name.as_str(), request.commit_message.as_str()) {
        return Err(problem);
    }
    let repo_name = string_of(trim_chars(chars_of(request.repo_name.as_str()).as_slice()).as_slice());
    let commit_message = string_of(
        trim_chars(chars_of(request.commit_message.as_str()).as_slice()).as_slice(),
    );
    let ghost folder_v = folder;
    let folder_path = match publish_folder(folder) {
        Ok(p) => p,
        Err(e) => {
            return Err(e);
        },
    };
    let path = folder_path.as_str();
    let opened = git.open_or_init_repo(path);
    let ghost open_call = seq![GitCall::OpenOrInitRepo { repo: path@ }];
    proof {
        assert(G::opening_answer(path@, opened));
        assert(calls_added(before, git.git_calls()) =~= open_call);
        assert(git.git_calls() =~= before + open_call);
    }
    let ghost opened_v = opened;
    if let Err(e) = opened {
        return Err(e);
    }
    let origin = git.has_origin_remote(path);
    assert(G::origin_answer(path@, origin));
    match origin {
        Err(e) => {
            return Err(e);
        },
        Ok(true) => {
            return Err(string_of(lit("Remote 'origin' already exists for this repository").as_slice()));
        },
        Ok(false) => {},
    }
    assert(origin == Ok::<bool, String>(false));
    let changes = git.repo_has_changes(path);
    assert(G::changes_answer(path@, changes));
    let has_changes = match changes {
        Ok(b) => b,
        Err(e) => {
            return Err(e);
        },
    };
    assert(changes == Ok::<bool, String>(has_changes));
    let head = git.head_exists(path);
    assert(G::head_answer(path@, head));
    let has_head = match head {
        Ok(b) => b,
        Err(e) => {
            return Err(e);
        },
    };
    assert(head == Ok::<bool, String>(has_head));
    let ghost needed = needs_first_commit(has_changes, has_head);
    let ghost commit_calls = first_commit_calls(path@, trim(request.commit_message@), needed);
    let ghost mut staged_v: Result<(), String> = Ok(());
    let ghost mut committed_v: Result<(), String> = Ok(());
    if has_changes || !has_head {
        let staged = git.stage_all(path);
        proof {
            staged_v = staged;
        }
        proof {
            assert(G::staging_answer(path@, staged));
            assert(calls_added(before, git.git_calls()) =~= open_call + seq![GitCall::StageAll { repo: path@ }]);
            assert(git.git_calls() =~= before + calls_added(before, git.git_calls()));
        }
        if let Err(e) = staged {
            proof {
                let stage_call = seq![GitCall::StageAll { repo: path@ }];
                assert(published_from::<G, H>(
                    *request, path@, needs_first_commit(has_changes, has_head),
                    Err::<CreateGithubRepoSuccess, String>(e), stage_call, Seq::<GitHubCall>::empty()));
                lemma_opened_then::<G, H>(
                    *request, folder_v, path@, opened_v, has_changes, has_head,
                    Err::<CreateGithubRepoSuccess, String>(e), stage_call, Seq::<GitHubCall>::empty());
            }
            return Err(e);
        }
        let committed = git.create_commit(path, commit_message.as_str());
        proof {
            committed_v = committed;
        }
        proof {
            assert(G::commit_answer(path@, trim(request.commit_message@), committed));
            assert(calls_added(before, git.git_calls()) =~= open_call + commit_calls);
            assert(git.git_calls() =~= before + calls_added(before, git.git_calls()));
        }
        if let Err(e) = committed {
            proof {
                assert(published_from::<G, H>(
                    *request, path@, needs_first_commit(has_changes, has_head),
                    Err::<CreateGithubRepoSuccess, String>(e), commit_calls, Seq::<GitHubCall>::empty()));
                lemma_opened_then::<G, H>(
                    *request, folder_v, path@, opened_v, has_changes, has_head,
                    Err::<CreateGithubRepoSuccess, String>(e), commit_calls, Seq::<GitHubCall>::empty());
            }
            return Err(e);
        }
    }
    let ghost mid = git.git_calls();
    assert(mid =~= before + open_call + commit_calls);
    let created = github.create_repository(&request.auth, repo_name.as_str(), request.visibility);
    proof {
        assert(H::creation_answer(request.auth, trim(request.repo_name@), request.visibility, created));
        assert(calls_added(hbefore, github.github_calls()) =~= seq![creation_call(*request)]);
        assert(github.github_calls() =~= hbefore + seq![creation_call(*request)]);
        assert(calls_added(before, git.git_calls()) =~= open_call + commit_calls);
        assert(open_call + commit_calls =~= open_call + (commit_calls + Seq::<GitCall>::empty()));
    }
    let clone_url = match created {
        Ok(u) => u,
        Err(e) => {
            proof {
                lemma_committed_then::<G, H>(
                    *request, path@, needed, staged_v, committed_v, Err::<CreateGithubRepoSuccess, String>(e),
                    Seq::<GitCall>::empty(), seq![creation_call(*request)]);
                lemma_opened_then::<G, H>(
                    *request, folder_v, path@, opened_v, has_changes, has_head,
                    Err::<CreateGithubRepoSuccess, String>(e), commit_calls + Seq::<GitCall>::empty(), seq![creation_call(*request)]);
            }
            return Err(e);
        },
    };
    let origin_name = "origin";
    proof {
        reveal_strlit("origin");
    }
    let added = git.add_remote(path, origin_name, clone_url.as_str());
    let ghost add_call = seq![GitCall::AddRemote { repo: path@, name: "origin"@, url: clone_url@ }];
    proof {
        assert(G::remote_add_answer(path@, "origin"@, clone_url@, added));
        assert(calls_added(before, git.git_calls()) =~= open_call + (commit_calls + add_call));
        assert(git.git_calls() =~= before + calls_added(before, git.git_calls()));
    }
    if let Err(e) = added {
        proof {
            lemma_committed_then::<G, H>(
                *request, path@, needed, staged_v, committed_v, Err::<CreateGithubRepoSuccess, String>(e),
                add_call, seq![creation_call(*request)]);
            lemma_opened_then::<G, H>(
                *request, folder_v, path@, opened_v, has_changes, has_head,
                Err::<CreateGithubRepoSuccess, String>(e), commit_calls + add_call, seq![creation_call(*request)]);
        }
        return Err(e);
    }
    let ghost mid2 = git.git_calls();
    let push_outcome = sync::push(path, Some(&request.auth), git, &*github);
    let ghost pushing = calls_added(mid2, git.git_calls());
    proof {
        assert(sync::session_of(Some(&request.auth)) == Some(request.auth));
        assert(sync::push_result::<G, H>(path@, Some(request.auth), push_outcome, pushing));
        assert(calls_added(before, git.git_calls()) =~= open_call + (commit_calls + (add_call + pushing)));
        assert(git.git_calls() =~= before + calls_added(before, git.git_calls()));
    }
    let pushed = match push_outcome {
        Ok(p) => p,
        Err(e) => {
            proof {
                lemma_committed_then::<G, H>(
                    *request, path@, needed, staged_v, committed_v, Err::<CreateGithubRepoSuccess, String>(e),
                    add_call + pushing, seq![creation_call(*request)]);
                lemma_opened_then::<G, H>(
                    *request, folder_v, path@, opened_v, has_changes, has_head,
                    Err::<CreateGithubRepoSuccess, String>(e), commit_calls + (add_call + pushing), seq![creation_call(*request)]);
            }
            return Err(e);
        },
    };
    let mut message = lit("Created GitHub repository ");
    push_all(&mut message, chars_of(repo_name.as_str()).as_slice());
    push_all(&mut message, lit(". ").as_slice());
    push_all(&mut message, chars_of(pushed.message.as_str()).as_slice());
    let r = CreateGithubRepoSuccess { folder_path, message: string_of(message.as_slice()) };
    proof {
        assert(published_remotely::<G, H>(*request, path@, Ok::<CreateGithubRepoSuccess, String>(r), add_call + pushing, seq![creation_call(*request)]));
        lemma_committed_then::<G, H>(
            *request, path@, needed, staged_v, committed_v, Ok::<CreateGithubRepoSuccess, String>(r),
            add_call + pushing, seq![creation_call(*request)]);
        lemma_opened_then::<G, H>(
            *request, folder_v, path@, opened_v, has_changes, has_head,
            Ok::<CreateGithubRepoSuccess, String>(r), commit_calls + (add_call + pushing), seq![creation_call(*request)]);
    }
    Ok(r)
}

} // verus!
