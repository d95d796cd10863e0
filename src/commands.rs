//! The registry side of the create, add, clean and open commands.

use vstd::prelude::*;

use crate::command::owned;
use crate::error::XlaudeError;
use crate::paths::{join, joined, parent, parent_dir};
use crate::state::{
    doc_view, has_key, key_of, keys_unique, lemma_map_of_at, map_of, Timestamp, WorktreeInfo,
    XlaudeState,
};
use crate::text::text_eq;
use crate::vcs::VcsType;

verus! {

broadcast use vstd::string::group_string_axioms;

/// `{repo}-{name}`: the directory name of a new working copy.
pub open spec fn sibling_name(repo: Seq<char>, name: Seq<char>) -> Seq<char> {
    repo + seq!['-'] + name
}

/// The directory name of working copy `name` of repository `repo`.
pub fn workspace_dir_name(repo_name: &str, name: &str) -> (r: String)
    ensures
        r@ == sibling_name(repo_name@, name@),
{
    let mut s = owned(repo_name);
    crate::text::push_char(&mut s, '-');
    s.concat(name)
}

/// Where a new working copy goes: beside the current checkout.
pub fn new_workspace_path(current_dir: &str, repo_name: &str, name: &str) -> (r: Option<String>)
    ensures
        match parent_dir(current_dir@) {
            Some(up) => r matches Some(p) && p@ == joined(up, sibling_name(repo_name@, name@)),
            None => r is None,
        },
{
    match parent(current_dir) {
        Some(up) => {
            let d = workspace_dir_name(repo_name, name);
            Some(join(up.as_str(), d.as_str()))
        },
        None => None,
    }
}

/// A new working copy is made from a base branch (git only).
pub fn check_create_allowed(vcs: &VcsType, on_base_branch: bool) -> (r: Result<(), XlaudeError>)
    ensures
        (*vcs == VcsType::Git && !on_base_branch) ==> r matches Err(XlaudeError::NotOnBaseBranch),
        !(*vcs == VcsType::Git && !on_base_branch) ==> r is Ok,
{
    match vcs {
        VcsType::Git => if on_base_branch {
            Ok(())
        } else {
            Err(XlaudeError::NotOnBaseBranch)
        },
        VcsType::Jj => Ok(()),
    }
}

/// Registers a working copy just created: its branch is its name. A record
/// already under the key is replaced. Returns the key.
pub fn register_created(
    state: &mut XlaudeState,
    repo_name: String,
    name: String,
    path: String,
    created_at: Timestamp,
) -> (r: String)
    ensures
        r@ == key_of(repo_name@, name@),
        final(state).worktrees@ == old(state).worktrees@.insert(
            r@,
            WorktreeInfo { name, branch: name, path, repo_name, created_at },
        ),
        final(state).editor == old(state).editor,
        final(state).shell == old(state).shell,
{
    let key = XlaudeState::make_key(repo_name.as_str(), name.as_str());
    let info = WorktreeInfo { name: name.clone(), branch: name, path, repo_name, created_at };
    let k = key.clone();
    state.worktrees.insert(key, info);
    k
}

/// Registers an existing working copy under `name`, or its current branch
/// or workspace when no name is given. Refused when the current directory
/// is not a secondary working copy, or when the key is already managed.
pub fn register_existing(
    state: &mut XlaudeState,
    in_workspace: bool,
    repo_name: String,
    name: Option<String>,
    current_ref: String,
    path: String,
    created_at: Timestamp,
) -> (r: Result<String, XlaudeError>)
    ensures
        !in_workspace ==> (r matches Err(XlaudeError::NotInWorkspace) && final(state).worktrees@
            == old(state).worktrees@),
        in_workspace ==> {
            let n = match name {
                Some(x) => x,
                None => current_ref,
            };
            let k = key_of(repo_name@, n@);
            if old(state).worktrees@.contains_key(k) {
                r matches Err(XlaudeError::AlreadyManaged(e)) && e@ == k && final(state).worktrees@
                    == old(state).worktrees@
            } else {
                r matches Ok(key) && key@ == k && final(state).worktrees@ == old(state).worktrees@.insert(
                    k,
                    WorktreeInfo { name: n, branch: current_ref, path, repo_name, created_at },
                )
            }
        },
        final(state).editor == old(state).editor,
        final(state).shell == old(state).shell,
{
    if !in_workspace {
        return Err(XlaudeError::NotInWorkspace);
    }
    let n = match name {
        Some(x) => x,
        None => current_ref.clone(),
    };
    let key = XlaudeState::make_key(repo_name.as_str(), n.as_str());
    if state.worktrees.contains_key(key.as_str()) {
        return Err(XlaudeError::AlreadyManaged(key));
    }
    let info = WorktreeInfo { name: n, branch: current_ref, path, repo_name, created_at };
    let k = key.clone();
    state.worktrees.insert(key, info);
    Ok(k)
}

/// `p` is one of `paths`.
pub open spec fn listed(paths: Seq<String>, p: Seq<char>) -> bool {
    exists|i: int| 0 <= i < paths.len() && (#[trigger] paths[i])@ == p
}

fn is_listed(paths: &Vec<String>, p: &str) -> (r: bool)
    ensures
        r == listed(paths@, p@),
{
    let mut i: usize = 0;
    while i < paths.len()
        invariant
            i <= paths.len(),
            forall|j: int| 0 <= j < i ==> (#[trigger] paths@[j])@ != p@,
        decreases paths.len() - i,
    {
        if text_eq(paths[i].as_str(), p) {
            return true;
        }
        i += 1;
    }
    false
}

/// Drops every entry whose directory is not among the working copies that
/// the backends list; returns how many were dropped.
pub fn remove_invalid_worktrees(state: &mut XlaudeState, actual: &Vec<String>) -> (r: usize)
    ensures
        final(state).worktrees@ == old(state).worktrees@.restrict(
            old(state).worktrees@.dom().filter(|k: Seq<char>| listed(actual@, old(state).worktrees@[k].path@)),
        ),
        r == old(state).worktrees@.len() - final(state).worktrees@.len(),
        final(state).editor == old(state).editor,
        final(state).shell == old(state).shell,
{
    let entries = state.worktrees.entries();
    let ghost m0 = state.worktrees@;
    let ghost d = doc_view(entries@);
    let ghost keep = m0.dom().filter(|k: Seq<char>| listed(actual@, m0[k].path@));
    proof {
        crate::state::lemma_len_of_unique(d);
    }
    let mut removed: usize = 0;
    let mut i: usize = 0;
    while i < entries.len()
        invariant
            i <= entries.len(),
            d == doc_view(entries@),
            keys_unique(d),
            map_of(d) == m0,
            m0.dom().finite(),
            m0.len() == d.len(),
            state.editor == old(state).editor,
            state.shell == old(state).shell,
            state.worktrees@.dom() =~= m0.dom().filter(
                |k: Seq<char>| !exists|j: int| 0 <= j < i && d[j].0 == k && !listed(actual@, m0[k].path@),
            ),
            forall|k: Seq<char>| #[trigger] state.worktrees@.contains_key(k) ==> state.worktrees@[k] == m0[k],
            removed as int == m0.len() - state.worktrees@.len(),
            removed <= i,
        decreases entries.len() - i,
    {
        let ok = is_listed(actual, entries[i].1.path.as_str());
        proof {
            lemma_map_of_at(d, i as int);
        }
        if !ok {
            let ghost before = state.worktrees@;
            proof {
                assert(before.contains_key(d[i as int].0)) by {
                    assert forall|j: int| 0 <= j < i implies !(d[j].0 == d[i as int].0) by {}
                }
            }
            state.worktrees.remove(entries[i].0.as_str());
            proof {
                assert(state.worktrees@.dom() =~= before.dom().remove(d[i as int].0));
                assert(state.worktrees@.dom() =~= m0.dom().filter(
                    |k: Seq<char>| !exists|j: int| 0 <= j < i + 1 && d[j].0 == k && !listed(actual@, m0[k].path@),
                ));
            }
            removed += 1;
        } else {
            proof {
                assert(state.worktrees@.dom() =~= m0.dom().filter(
                    |k: Seq<char>| !exists|j: int| 0 <= j < i + 1 && d[j].0 == k && !listed(actual@, m0[k].path@),
                ));
            }
        }
        i += 1;
    }
    proof {
        assert forall|k: Seq<char>| m0.contains_key(k) implies ((exists|j: int| 0 <= j < d.len() && d[j].0 == k)) by {
            assert(has_key(d, k));
        }
        assert(state.worktrees@.dom() =~= keep);
        assert(state.worktrees@ =~= m0.restrict(keep));
    }
    removed
}

/// The working copy chosen to be opened.
#[derive(Debug)]
pub enum OpenTarget {
    /// The named workspace's entry.
    Named(String, WorktreeInfo),
    /// The user picks one of these `repo/name` labels; the keys are in the
    /// same order.
    Choose(Vec<String>, Vec<String>),
}

/// Which workspace `open` works on: the one named, or a choice among all
/// when prompts can be answered.
pub fn resolve_open_target(state: &XlaudeState, name: Option<String>, interactive: bool) -> (r: Result<
    OpenTarget,
    XlaudeError,
>)
    ensures
        state.worktrees@.len() == 0 ==> r matches Err(XlaudeError::NoWorktrees),
        state.worktrees@.len() > 0 ==> (match name {
            Some(n) => match r {
                Ok(OpenTarget::Named(k, w)) => state.worktrees@.contains_key(k@)
                    && state.worktrees@[k@] == w && w.name@ == n@,
                Err(XlaudeError::WorkspaceNotFound(e)) => e == n && forall|k: Seq<char>| #[trigger]
                    state.worktrees@.contains_key(k) ==> state.worktrees@[k].name@ != n@,
                _ => false,
            },
            None => if interactive {
                r matches Ok(OpenTarget::Choose(labels, keys)) && labels@.len() == keys@.len()
                    && keys@.len() == state.worktrees@.len() && forall|i: int|
                    0 <= i < keys@.len() ==> state.worktrees@.contains_key((#[trigger] keys@[i])@)
                        && labels@[i]@ == key_of(
                        state.worktrees@[keys@[i]@].repo_name@,
                        state.worktrees@[keys@[i]@].name@,
                    )
            } else {
                r matches Err(XlaudeError::SelectionUnavailable)
            },
        }),
{
    if state.worktrees.is_empty() {
        return Err(XlaudeError::NoWorktrees);
    }
    match name {
        Some(n) => match state.worktrees.find_by_name(n.as_str()) {
            Some((k, w)) => Ok(OpenTarget::Named(k, w)),
            None => Err(XlaudeError::WorkspaceNotFound(n)),
        },
        None => {
            if !interactive {
                return Err(XlaudeError::SelectionUnavailable);
            }
            let entries = state.worktrees.entries();
            let ghost d = doc_view(entries@);
            proof {
                crate::state::lemma_len_of_unique(d);
            }
            let mut labels: Vec<String> = Vec::new();
            let mut keys: Vec<String> = Vec::new();
            let mut i: usize = 0;
            while i < entries.len()
                invariant
                    i <= entries.len(),
                    d == doc_view(entries@),
                    keys_unique(d),
                    map_of(d) == state.worktrees@,
                    labels@.len() == i,
                    keys@.len() == i,
                    forall|j: int|
                        0 <= j < i ==> state.worktrees@.contains_key((#[trigger] keys@[j])@)
                            && labels@[j]@ == key_of(
                            state.worktrees@[keys@[j]@].repo_name@,
                            state.worktrees@[keys@[j]@].name@,
                        ),
                decreases entries.len() - i,
            {
                proof {
                    lemma_map_of_at(d, i as int);
                }
                let info = &entries[i].1;
                labels.push(XlaudeState::make_key(info.repo_name.as_str(), info.name.as_str()));
                keys.push(entries[i].0.clone());
                i += 1;
            }
            Ok(OpenTarget::Choose(labels, keys))
        },
    }
}

/// `p` is the main checkout of some registry entry's repository.
pub open spec fn repo_of_some(reg: Map<Seq<char>, WorktreeInfo>, p: Seq<char>) -> bool {
    exists|k: Seq<char>| #[trigger] reg.contains_key(k) && crate::delete::main_repo_path(reg[k]) == Some(p)
}

/// The main checkouts of the repositories that the registry's workspaces
/// belong to (`repo_name` beside each workspace), each once.
pub fn collect_repo_paths(state: &XlaudeState) -> (r: Vec<String>)
    ensures
        forall|i: int, j: int| 0 <= i < j < r@.len() ==> (#[trigger] r@[i])@ != (#[trigger] r@[j])@,
        forall|i: int| 0 <= i < r@.len() ==> repo_of_some(state.worktrees@, (#[trigger] r@[i])@),
        forall|k: Seq<char>| #[trigger]
            state.worktrees@.contains_key(k) && crate::delete::main_repo_path(state.worktrees@[k]) is Some
                ==> listed(r@, crate::delete::main_repo_path(state.worktrees@[k])->0),
{
    let entries = state.worktrees.entries();
    let ghost d = doc_view(entries@);
    let mut out: Vec<String> = Vec::new();
    let mut i: usize = 0;
    while i < entries.len()
        invariant
            i <= entries.len(),
            d == doc_view(entries@),
            keys_unique(d),
            map_of(d) == state.worktrees@,
            forall|a: int, b: int| 0 <= a < b < out@.len() ==> (#[trigger] out@[a])@ != (#[trigger] out@[b])@,
            forall|a: int| 0 <= a < out@.len() ==> repo_of_some(state.worktrees@, (#[trigger] out@[a])@),
            forall|q: int|
                0 <= q < i && crate::delete::main_repo_path((#[trigger] d[q]).1) is Some ==> listed(
                    out@,
                    crate::delete::main_repo_path(d[q].1)->0,
                ),
        decreases entries.len() - i,
    {
        proof {
            lemma_map_of_at(d, i as int);
        }
        match crate::delete::get_main_repo_path(&entries[i].1) {
            Ok(p) => {
                if !is_listed(&out, p.as_str()) {
                    let ghost before = out@;
                    out.push(p);
                    proof {
                        assert forall|q: int|
                            0 <= q < i + 1 && crate::delete::main_repo_path((#[trigger] d[q]).1) is Some
                                implies listed(out@, crate::delete::main_repo_path(d[q].1)->0) by {
                            if q < i {
                                let j = choose|j: int|
                                    0 <= j < before.len() && (#[trigger] before[j])@
                                        == crate::delete::main_repo_path(d[q].1)->0;
                                assert(out@[j] == before[j]);
                            } else {
                                assert(out@[before.len() as int]@ == crate::delete::main_repo_path(d[q].1)->0);
                            }
                        }
                        assert forall|a: int|
                            0 <= a < out@.len() implies repo_of_some(state.worktrees@, (#[trigger] out@[a])@) by {
                            if a < before.len() {
                                assert(out@[a] == before[a]);
                            } else {
                                assert(state.worktrees@.contains_key(d[i as int].0));
                            }
                        }
                    }
                }
            },
            Err(_) => {},
        }
        i += 1;
    }
    proof {
        assert forall|k: Seq<char>| #[trigger]
            state.worktrees@.contains_key(k) && crate::delete::main_repo_path(state.worktrees@[k]) is Some
                implies listed(out@, crate::delete::main_repo_path(state.worktrees@[k])->0) by {
            assert(has_key(d, k));
            let q = choose|q: int| 0 <= q < d.len() && d[q].0 == k;
            lemma_map_of_at(d, q);
        }
    }
    out
}

/// What `open` without a name does about the working copy it is run in.
#[derive(Debug)]
pub enum CurrentOpen {
    /// Not a secondary working copy off a base branch: choose among the
    /// registry instead.
    NotACandidate,
    /// Managed under this key: open it.
    Open(String),
    /// Not managed: ask whether to add it under this key, then open it.
    AskToAdd(String),
    /// Not managed and prompts cannot be answered: do nothing.
    Skip,
}

/// Decides `open` without a name in the current directory: a secondary
/// working copy that is not on a base branch is opened when the registry
/// has it, or offered for adding when it does not.
pub fn decide_open_current(
    state: &XlaudeState,
    in_worktree: bool,
    on_base: bool,
    repo_name: &str,
    worktree_name: &str,
    interactive: bool,
) -> (r: CurrentOpen)
    ensures
        !(in_worktree && !on_base) ==> r is NotACandidate,
        in_worktree && !on_base && state.worktrees@.contains_key(key_of(repo_name@, worktree_name@))
            ==> (r matches CurrentOpen::Open(k) && k@ == key_of(repo_name@, worktree_name@)),
        in_worktree && !on_base && !state.worktrees@.contains_key(key_of(repo_name@, worktree_name@))
            ==> if interactive {
            r matches CurrentOpen::AskToAdd(k) && k@ == key_of(repo_name@, worktree_name@)
        } else {
            r is Skip
        },
{
    if !(in_worktree && !on_base) {
        return CurrentOpen::NotACandidate;
    }
    let key = XlaudeState::make_key(repo_name, worktree_name);
    if state.worktrees.contains_key(key.as_str()) {
        CurrentOpen::Open(key)
    } else if interactive {
        CurrentOpen::AskToAdd(key)
    } else {
        CurrentOpen::Skip
    }
}

} // verus!
