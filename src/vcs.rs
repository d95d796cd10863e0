//! The version-control backend interface: one set of operations over the
//! branch-worktree model (git) and the named-workspace model (jj). Each
//! operation reads the answer the backend's tool gave, or names the
//! commands that change the working copies.

use vstd::prelude::*;

use crate::command::{owned, runs, Tool, ToolCommand};
use crate::error::XlaudeError;
use crate::jj;
use crate::paths::{base_name, file_name};
use crate::text::{
    chars_of, contains_text, has_substring, lines_of, split_lines, string_of, text_eq, trim_text,
    trimmed, views,
};

verus! {

broadcast use vstd::string::group_string_axioms;

/// The backend in use.
#[derive(Debug, Clone, Copy, PartialEq, Eq, Structural)]
pub enum VcsType {
    Git,
    Jj,
}

/// A working copy as the backend lists it: its directory.
#[derive(Debug)]
pub enum WorkspaceInfo {
    Git(String),
    Jj(String),
}

/// Picks the backend from the two probes: `jj root` is tried first, then
/// `git rev-parse --git-dir`; the first that succeeded wins.
pub fn detect_vcs(jj_root_succeeded: bool, git_dir_succeeded: bool) -> (r: Result<VcsType, XlaudeError>)
    ensures
        jj_root_succeeded ==> r == Ok::<VcsType, XlaudeError>(VcsType::Jj),
        !jj_root_succeeded && git_dir_succeeded ==> r == Ok::<VcsType, XlaudeError>(VcsType::Git),
        !jj_root_succeeded && !git_dir_succeeded ==> r matches Err(XlaudeError::BackendNotDetected),
{
    if jj_root_succeeded {
        Ok(VcsType::Jj)
    } else if git_dir_succeeded {
        Ok(VcsType::Git)
    } else {
        Err(XlaudeError::BackendNotDetected)
    }
}

/// The repository name. For git, `root` is the main checkout's directory
/// and the name is its last component; for jj, `root` is the current
/// workspace's root and the name is recovered from it and the current
/// workspace's name.
pub fn get_repo_name(vcs: &VcsType, root: &str, current_workspace: &str) -> (r: Result<
    String,
    XlaudeError,
>)
    ensures
        match base_name(root@) {
            None => r matches Err(XlaudeError::NoDirectoryName),
            Some(dir) => r matches Ok(n) && n@ == match vcs {
                VcsType::Git => dir,
                VcsType::Jj => jj::repo_name_from_dir(dir, current_workspace@),
            },
        },
{
    match vcs {
        VcsType::Git => match file_name(root) {
            Some(n) => Ok(n),
            None => Err(XlaudeError::NoDirectoryName),
        },
        VcsType::Jj => jj::get_repo_name(root, current_workspace),
    }
}

/// The current branch (git, from `git branch --show-current`) or the
/// current workspace's name (jj, from `jj workspace list`).
pub fn get_current_branch_or_workspace(vcs: &VcsType, output: &str) -> (r: String)
    ensures
        *vcs == VcsType::Git ==> r@ == trimmed(output@),
        *vcs == VcsType::Jj ==> match jj::marked_name(lines_of(output@)) {
            Some(n) => r@ == n,
            None => r@ == jj::default_name(),
        },
{
    match vcs {
        VcsType::Git => trim_text(output),
        VcsType::Jj => jj::get_current_workspace_name(output),
    }
}

/// The branch names that count as a base branch.
pub open spec fn is_base_branch_name(b: Seq<char>) -> bool {
    b == "main"@ || b == "master"@ || b == "develop"@
}

/// Whether the current state is the baseline: for git, `current` is the
/// current branch and must be a base branch name; for jj, `current` and
/// `trunk` are the commit ids of `@` and `trunk()` and must be equal.
pub fn is_on_base_branch(vcs: &VcsType, current: &str, trunk: &str) -> (r: bool)
    ensures
        *vcs == VcsType::Git ==> r == is_base_branch_name(current@),
        *vcs == VcsType::Jj ==> r == (current@ == trunk@),
{
    match vcs {
        VcsType::Git => text_eq(current, "main") || text_eq(current, "master") || text_eq(
            current,
            "develop",
        ),
        VcsType::Jj => jj::is_on_trunk(current, trunk),
    }
}

/// Whether the working copy has no local modifications: for git, from
/// `git status --porcelain` (nothing listed); for jj, from `jj st`.
pub fn is_working_tree_clean(vcs: &VcsType, status: &str) -> (r: bool)
    ensures
        *vcs == VcsType::Git ==> r == (trimmed(status@).len() == 0),
        *vcs == VcsType::Jj ==> r == has_substring(status@, jj::no_changes_text()),
{
    match vcs {
        VcsType::Git => {
            let t = trim_text(status);
            t.as_str().is_empty()
        },
        VcsType::Jj => jj::is_working_copy_clean(status),
    }
}

/// Whether there is work absent from the remote or trunk: the listing of
/// local-only commits (git) or changes (jj) is not empty.
pub fn has_unpushed_changes(vcs: &VcsType, log: &str) -> (r: bool)
    ensures
        r == (trimmed(log@).len() > 0),
{
    match vcs {
        VcsType::Git => {
            let t = trim_text(log);
            !t.as_str().is_empty()
        },
        VcsType::Jj => jj::has_unpushed_changes(log),
    }
}

/// The marker of a linked worktree's git directory.
pub open spec fn linked_marker() -> Seq<char> {
    "/worktrees/"@
}

/// Whether the current directory is a secondary working copy: for git,
/// `git_dir` (from `git rev-parse --git-dir`) lies under the main
/// repository's `worktrees` directory; for jj, a `.jj` directory is present
/// and the current workspace (read from `jj workspace list`) is not the
/// default one.
pub fn is_in_worktree_or_workspace(
    vcs: &VcsType,
    git_dir: &str,
    jj_entry_exists: bool,
    jj_entry_is_dir: bool,
    current_workspace: &str,
) -> (r: bool)
    ensures
        *vcs == VcsType::Git ==> r == has_substring(git_dir@, linked_marker()),
        *vcs == VcsType::Jj ==> r == (jj_entry_exists && jj_entry_is_dir && current_workspace@
            != jj::default_name()),
{
    match vcs {
        VcsType::Git => contains_text(git_dir, "/worktrees/"),
        VcsType::Jj => jj::is_in_workspace(jj_entry_exists, jj_entry_is_dir, current_workspace),
    }
}

/// The prefix of a worktree line in `git worktree list --porcelain`.
pub open spec fn worktree_prefix() -> Seq<char> {
    "worktree "@
}

/// `l` starts with `p`.
pub open spec fn starts_with(l: Seq<char>, p: Seq<char>) -> bool {
    p.len() <= l.len() && l.take(p.len() as int) == p
}

/// The worktree directories named in porcelain output, in order.
pub open spec fn porcelain_paths(ls: Seq<Seq<char>>) -> Seq<Seq<char>>
    decreases ls.len(),
{
    if ls.len() == 0 {
        Seq::empty()
    } else {
        let rest = porcelain_paths(ls.drop_last());
        let l = ls.last();
        if starts_with(l, worktree_prefix()) {
            rest.push(l.skip(worktree_prefix().len() as int))
        } else {
            rest
        }
    }
}

/// The directory of a listed working copy.
pub open spec fn info_path(w: WorkspaceInfo) -> Seq<char> {
    match w {
        WorkspaceInfo::Git(p) => p@,
        WorkspaceInfo::Jj(p) => p@,
    }
}

fn strip_worktree_prefix(line: &str) -> (r: Option<String>)
    ensures
        starts_with(line@, worktree_prefix()) ==> (r matches Some(p) && p@ == line@.skip(
            worktree_prefix().len() as int,
        )),
        !starts_with(line@, worktree_prefix()) ==> r is None,
{
    let cs = chars_of(line);
    let p = chars_of("worktree ");
    if p.len() > cs.len() {
        return None;
    }
    let mut i: usize = 0;
    while i < p.len()
        invariant
            i <= p.len() <= cs.len(),
            cs@ == line@,
            p@ == worktree_prefix(),
            forall|j: int| 0 <= j < i ==> cs@[j] == p@[j],
        decreases p.len() - i,
    {
        if cs[i] != p[i] {
            proof {
                assert(line@.take(p@.len() as int)[i as int] != p@[i as int]);
            }
            return None;
        }
        i += 1;
    }
    proof {
        assert(line@.take(p@.len() as int) =~= p@);
    }
    let mut out: Vec<char> = Vec::new();
    let mut k: usize = p.len();
    while k < cs.len()
        invariant
            p.len() <= k <= cs.len(),
            cs@ == line@,
            out@ == cs@.subrange(p.len() as int, k as int),
        decreases cs.len() - k,
    {
        out.push(cs[k]);
        proof {
            assert(cs@.subrange(p.len() as int, k + 1) =~= cs@.subrange(p.len() as int, k as int).push(
                cs@[k as int],
            ));
        }
        k += 1;
    }
    proof {
        assert(cs@.subrange(p.len() as int, cs.len() as int) =~= line@.skip(p.len() as int));
    }
    Some(string_of(&out))
}

/// Every working copy of the repository. For git, `output` is
/// `git worktree list --porcelain`; for jj, it is `jj workspace list`, read
/// with the current workspace's root and name.
pub fn list_worktrees_or_workspaces(
    vcs: &VcsType,
    output: &str,
    workspace_root: &str,
    current_workspace: &str,
) -> (r: Result<Vec<WorkspaceInfo>, XlaudeError>)
    ensures
        *vcs == VcsType::Git ==> (r matches Ok(v) && v@.map_values(|w: WorkspaceInfo| info_path(w))
            == porcelain_paths(lines_of(output@)) && forall|i: int|
            0 <= i < v@.len() ==> (#[trigger] v@[i]) is Git),
        *vcs == VcsType::Jj ==> match jj::layout(workspace_root@, current_workspace@) {
            None => r matches Err(XlaudeError::NoDirectoryName),
            Some((repo_root, repo_name)) => r matches Ok(v) && v@.len() == lines_of(output@).len()
                && forall|i: int|
                0 <= i < v@.len() ==> (#[trigger] v@[i]) is Jj && info_path(v@[i]) == jj::workspace_path(
                    repo_root,
                    repo_name,
                    jj::line_name(lines_of(output@)[i]),
                ),
        },
{
    match vcs {
        VcsType::Git => {
            let lines = split_lines(output);
            let ghost ls = lines_of(output@);
            let mut out: Vec<WorkspaceInfo> = Vec::new();
            let mut i: usize = 0;
            while i < lines.len()
                invariant
                    i <= lines.len(),
                    views(lines@) == ls,
                    out@.map_values(|w: WorkspaceInfo| info_path(w)) == porcelain_paths(
                        ls.take(i as int),
                    ),
                    forall|j: int| 0 <= j < out@.len() ==> (#[trigger] out@[j]) is Git,
                decreases lines.len() - i,
            {
                proof {
                    assert(lines@[i as int]@ == ls[i as int]);
                    assert(ls.take(i + 1).drop_last() =~= ls.take(i as int));
                    assert(ls.take(i + 1).last() == ls[i as int]);
                }
                match strip_worktree_prefix(lines[i].as_str()) {
                    Some(p) => {
                        let ghost before = out@;
                        let ghost pv = p@;
                        out.push(WorkspaceInfo::Git(p));
                        proof {
                            assert(out@.map_values(|w: WorkspaceInfo| info_path(w)) =~= before.map_values(
                                |w: WorkspaceInfo| info_path(w),
                            ).push(pv));
                        }
                    },
                    None => {},
                }
                i += 1;
            }
            proof {
                assert(ls.take(ls.len() as int) =~= ls);
            }
            Ok(out)
        },
        VcsType::Jj => {
            let listed = jj::list_workspaces(output, workspace_root, current_workspace)?;
            let mut out: Vec<WorkspaceInfo> = Vec::new();
            let mut i: usize = 0;
            while i < listed.len()
                invariant
                    i <= listed.len(),
                    out@.len() == i,
                    forall|j: int| 0 <= j < i ==> (#[trigger] out@[j]) is Jj && info_path(out@[j]) == listed@[j].1@,
                decreases listed.len() - i,
            {
                out.push(WorkspaceInfo::Jj(listed[i].1.clone()));
                i += 1;
            }
            Ok(out)
        },
    }
}

/// The commands that create working copy `name` at `destination`: for git
/// a new branch and a worktree bound to it; for jj a named workspace.
pub fn create_worktree_or_workspace(vcs: &VcsType, name: &str, destination: &str) -> (r: Vec<
    ToolCommand,
>)
    ensures
        *vcs == VcsType::Git ==> r@.len() == 2 && runs(r@[0], Tool::Git, seq!["branch"@, name@])
            && runs(r@[1], Tool::Git, seq!["worktree"@, "add"@, destination@, name@]),
        *vcs == VcsType::Jj ==> r@.len() == 1 && runs(
            r@[0],
            Tool::Jj,
            seq!["workspace"@, "add"@, destination@, "--name"@, name@],
        ),
{
    match vcs {
        VcsType::Git => {
            let branch = ToolCommand { tool: Tool::Git, args: vec![owned("branch"), owned(name)] };
            let add = ToolCommand {
                tool: Tool::Git,
                args: vec![owned("worktree"), owned("add"), owned(destination), owned(name)],
            };
            proof {
                assert(views(branch.args@) =~= seq!["branch"@, name@]);
                assert(views(add.args@) =~= seq!["worktree"@, "add"@, destination@, name@]);
            }
            vec![branch, add]
        },
        VcsType::Jj => vec![jj::create_workspace(name, destination)],
    }
}

/// How a working copy is removed: a command that must succeed, one whose
/// failure is ignored, and whether the directory is then deleted if present.
#[derive(Debug)]
pub struct RemovalPlan {
    pub required: ToolCommand,
    pub best_effort: Option<ToolCommand>,
    pub delete_directory: bool,
}

/// How working copy `name` at `path` is removed: for git the worktree is
/// removed and the branch deleted if it is merged (best effort); for jj the
/// workspace is forgotten and its directory deleted.
pub fn remove_worktree_or_workspace(vcs: &VcsType, name: &str, path: &str) -> (r: RemovalPlan)
    ensures
        *vcs == VcsType::Git ==> (runs(r.required, Tool::Git, seq!["worktree"@, "remove"@, path@])
            && !r.delete_directory && (r.best_effort matches Some(c) && runs(
            c,
            Tool::Git,
            seq!["branch"@, "-d"@, name@],
        ))),
        *vcs == VcsType::Jj ==> runs(r.required, Tool::Jj, seq!["workspace"@, "forget"@, name@])
            && r.best_effort is None && r.delete_directory,
{
    match vcs {
        VcsType::Git => {
            let rm = ToolCommand {
                tool: Tool::Git,
                args: vec![owned("worktree"), owned("remove"), owned(path)],
            };
            let del = ToolCommand { tool: Tool::Git, args: vec![owned("branch"), owned("-d"), owned(name)] };
            proof {
                assert(views(rm.args@) =~= seq!["worktree"@, "remove"@, path@]);
                assert(views(del.args@) =~= seq!["branch"@, "-d"@, name@]);
            }
            RemovalPlan { required: rm, best_effort: Some(del), delete_directory: false }
        },
        VcsType::Jj => RemovalPlan {
            required: jj::forget_workspace(name),
            best_effort: None,
            delete_directory: true,
        },
    }
}

} // verus!
