//! The deletion safety analyzer: what is checked before a workspace is
//! discarded, and the policy that decides between proceeding, asking the
//! user and refusing.

use vstd::prelude::*;

use crate::command::{owned, runs, Tool, ToolCommand};
use crate::error::XlaudeError;
use crate::paths::{base_name, file_name, join, joined, parent, parent_dir};
use crate::state::{doc_view, has_key, keys_unique, lemma_map_of_at, map_of, WorktreeInfo, XlaudeState};
use crate::text::{lines_of, split_lines, text_eq, trim_text, trimmed, views};
use crate::vcs::{self, VcsType};

verus! {

broadcast use vstd::string::group_string_axioms;

/// What `serde_json::from_str::<Vec<serde_json::Value>>` makes of a text:
/// the length of the JSON array it holds, or `None` when it holds none.
pub uninterp spec fn json_array_len_of(s: Seq<char>) -> Option<nat>;

/// Relies on `serde_json::from_str`, read as a JSON array of any values:
/// the number of its elements, or `None` when the text is not one.
#[verifier::external_body]
fn json_array_len(s: &str) -> (r: Option<usize>)
    ensures
        match r {
            Some(n) => json_array_len_of(s@) == Some(n as nat),
            None => json_array_len_of(s@) is None,
        },
{
    match serde_json::from_str::<Vec<serde_json::Value>>(s) {
        Ok(v) => Some(v.len()),
        Err(_) => None,
    }
}

/// The results of the checks made before a deletion.
#[derive(Debug, Clone, Copy, PartialEq, Eq, Structural)]
pub struct DeletionChecks {
    pub has_uncommitted_changes: bool,
    pub has_unpushed_commits: bool,
    pub branch_merged_via_git: bool,
    pub branch_merged_via_pr: bool,
}

impl DeletionChecks {
    /// The branch has landed, by ancestry or through a merged review request.
    pub fn branch_is_merged(&self) -> (r: bool)
        ensures
            r == (self.branch_merged_via_git || self.branch_merged_via_pr),
    {
        self.branch_merged_via_git || self.branch_merged_via_pr
    }

    /// Some work exists only in this working copy.
    pub fn has_pending_work(&self) -> (r: bool)
        ensures
            r == (self.has_uncommitted_changes || self.has_unpushed_commits),
    {
        self.has_uncommitted_changes || self.has_unpushed_commits
    }
}

/// How a deletion is to run.
#[derive(Debug, Clone, Copy, PartialEq, Eq, Structural)]
pub struct DeletionConfig {
    /// Prompts can be answered (the non-interactive switch is off).
    pub is_interactive: bool,
    /// The working copy's directory is present.
    pub worktree_exists: bool,
    /// The working copy is the current directory.
    pub is_current_directory: bool,
    pub vcs_type: VcsType,
}

/// What the policy decides.
#[derive(Debug, Clone, Copy, PartialEq, Eq, Structural)]
pub enum DeletionDecision {
    /// Delete without asking.
    Proceed,
    /// Do not delete.
    Refuse,
    /// Ask the user; `default_yes` is the answer offered by default.
    Confirm { default_yes: bool },
}

impl DeletionDecision {
    /// Whether the deletion goes ahead, given the user's answer to a prompt
    /// (ignored when there is none).
    pub fn proceeds(&self, user_confirms: bool) -> (r: bool)
        ensures
            r == match *self {
                DeletionDecision::Proceed => true,
                DeletionDecision::Refuse => false,
                DeletionDecision::Confirm { .. } => user_confirms,
            },
    {
        match self {
            DeletionDecision::Proceed => true,
            DeletionDecision::Refuse => false,
            DeletionDecision::Confirm { .. } => user_confirms,
        }
    }
}

/// The deletion policy. Deletion goes ahead without a prompt only when
/// there is no pending work and, for git, the branch is merged. Otherwise
/// the user is asked ("no" offered when there is pending work, "yes"
/// otherwise), or, when prompts cannot be answered, deletion is refused.
/// Prompts that can be answered are always shown.
pub open spec fn policy(checks: DeletionChecks, config: DeletionConfig) -> DeletionDecision {
    if checks.has_uncommitted_changes || checks.has_unpushed_commits {
        if config.is_interactive {
            DeletionDecision::Confirm { default_yes: false }
        } else {
            DeletionDecision::Refuse
        }
    } else if config.is_interactive {
        DeletionDecision::Confirm { default_yes: true }
    } else if config.vcs_type == VcsType::Git && !(checks.branch_merged_via_git
        || checks.branch_merged_via_pr) {
        DeletionDecision::Refuse
    } else {
        DeletionDecision::Proceed
    }
}

/// Decides the deletion of an existing working copy from the checks.
pub fn confirm_deletion(checks: &DeletionChecks, config: &DeletionConfig) -> (r: DeletionDecision)
    ensures
        r == policy(*checks, *config),
{
    if checks.has_pending_work() {
        if !config.is_interactive {
            return DeletionDecision::Refuse;
        }
        return DeletionDecision::Confirm { default_yes: false };
    }
    if config.is_interactive {
        DeletionDecision::Confirm { default_yes: true }
    } else if config.vcs_type == VcsType::Git && !checks.branch_is_merged() {
        DeletionDecision::Refuse
    } else {
        DeletionDecision::Proceed
    }
}

/// Decides the deletion of an entry whose directory is gone: only the
/// registry entry is dropped, after a confirmation with "yes" offered when
/// prompts can be answered.
pub fn handle_missing_worktree(config: &DeletionConfig) -> (r: DeletionDecision)
    ensures
        config.is_interactive ==> r == (DeletionDecision::Confirm { default_yes: true }),
        !config.is_interactive ==> r == DeletionDecision::Proceed,
{
    if config.is_interactive {
        DeletionDecision::Confirm { default_yes: true }
    } else {
        DeletionDecision::Proceed
    }
}

/// The line of `git branch --merged` with its current-branch marker taken off.
pub open spec fn merged_line_name(l: Seq<char>) -> Seq<char> {
    trimmed(drop_stars(trimmed(l)))
}

/// `s` without its leading `*` characters.
pub open spec fn drop_stars(s: Seq<char>) -> Seq<char>
    decreases s.len(),
{
    if s.len() > 0 && s[0] == '*' {
        drop_stars(s.drop_first())
    } else {
        s
    }
}

fn strip_stars(s: &str) -> (r: String)
    ensures
        r@ == drop_stars(s@),
{
    let cs = crate::text::chars_of(s);
    let mut i: usize = 0;
    proof {
        assert(s@.skip(0) =~= s@);
    }
    while i < cs.len() && cs[i] == '*'
        invariant
            i <= cs.len(),
            cs@ == s@,
            drop_stars(s@) == drop_stars(s@.skip(i as int)),
        decreases cs.len() - i,
    {
        proof {
            assert(s@.skip(i as int).drop_first() =~= s@.skip(i + 1));
        }
        i += 1;
    }
    let mut out: Vec<char> = Vec::new();
    let mut k: usize = i;
    while k < cs.len()
        invariant
            i <= k <= cs.len(),
            cs@ == s@,
            out@ == cs@.subrange(i as int, k as int),
        decreases cs.len() - k,
    {
        out.push(cs[k]);
        proof {
            assert(cs@.subrange(i as int, k + 1) =~= cs@.subrange(i as int, k as int).push(cs@[k as int]));
        }
        k += 1;
    }
    proof {
        assert(cs@.subrange(i as int, cs.len() as int) =~= s@.skip(i as int));
    }
    crate::text::string_of(&out)
}

/// Whether `branch` is listed, verbatim once its marker is off, in the
/// output of `git branch --merged`.
pub fn check_branch_merge_status(merged_output: &str, branch: &str) -> (r: bool)
    ensures
        r == exists|i: int|
            0 <= i < lines_of(merged_output@).len() && merged_line_name(
                #[trigger] lines_of(merged_output@)[i],
            ) == branch@,
{
    let lines = split_lines(merged_output);
    let ghost ls = lines_of(merged_output@);
    let mut i: usize = 0;
    while i < lines.len()
        invariant
            i <= lines.len(),
            views(lines@) == ls,
            ls == lines_of(merged_output@),
            forall|j: int| 0 <= j < i ==> merged_line_name(#[trigger] ls[j]) != branch@,
        decreases lines.len() - i,
    {
        proof {
            assert(lines@[i as int]@ == ls[i as int]);
        }
        let t = trim_text(lines[i].as_str());
        let u = strip_stars(t.as_str());
        let name = trim_text(u.as_str());
        if text_eq(name.as_str(), branch) {
            return true;
        }
        i += 1;
    }
    false
}

/// The review query succeeded and printed a non-empty JSON array.
pub open spec fn merged_review_found(query_succeeded: bool, output: Option<&str>) -> bool {
    query_succeeded && match output {
        Some(o) => match json_array_len_of(o@) {
            Some(n) => n > 0,
            None => false,
        },
        None => false,
    }
}

/// Whether a merged request was found, from the query's success and the
/// number of requests it listed (`None` when its output was not a JSON
/// array).
pub fn merged_from_count(query_succeeded: bool, count: Option<usize>) -> (r: bool)
    ensures
        r == (query_succeeded && (count matches Some(n) && n > 0)),
{
    query_succeeded && match count {
        Some(n) => n > 0,
        None => false,
    }
}

/// Whether the code-review query found a merged request: the query
/// succeeded and printed a non-empty JSON array.
pub fn check_branch_merged_via_pr(query_succeeded: bool, output: Option<&str>) -> (r: bool)
    ensures
        r == merged_review_found(query_succeeded, output),
{
    let count = match output {
        Some(o) => json_array_len(o),
        None => None,
    };
    merged_from_count(query_succeeded, count)
}

/// The checks for a working copy, from the tools' answers inside it:
/// `status` and `unpushed_log` for the pending-work checks; for git also
/// `merged_output` (`git branch --merged` in the main checkout) and the
/// review query's result `merged_via_pr`. jj has no merge checks.
pub fn perform_deletion_checks(
    vcs_type: VcsType,
    status: &str,
    unpushed_log: &str,
    merged_output: &str,
    branch: &str,
    merged_via_pr: bool,
) -> (r: DeletionChecks)
    ensures
        vcs_type == VcsType::Git ==> r.has_uncommitted_changes == (trimmed(status@).len() != 0),
        vcs_type == VcsType::Jj ==> r.has_uncommitted_changes == !crate::text::has_substring(
            status@,
            crate::jj::no_changes_text(),
        ),
        r.has_unpushed_commits == (trimmed(unpushed_log@).len() > 0),
        vcs_type == VcsType::Git ==> r.branch_merged_via_git == exists|i: int|
            0 <= i < lines_of(merged_output@).len() && merged_line_name(
                #[trigger] lines_of(merged_output@)[i],
            ) == branch@,
        vcs_type == VcsType::Git ==> r.branch_merged_via_pr == merged_via_pr,
        vcs_type == VcsType::Jj ==> !r.branch_merged_via_git && !r.branch_merged_via_pr,
{
    let has_uncommitted_changes = !vcs::is_working_tree_clean(&vcs_type, status);
    let has_unpushed_commits = vcs::has_unpushed_changes(&vcs_type, unpushed_log);
    let (branch_merged_via_git, branch_merged_via_pr) = match vcs_type {
        VcsType::Git => (check_branch_merge_status(merged_output, branch), merged_via_pr),
        VcsType::Jj => (false, false),
    };
    DeletionChecks {
        has_uncommitted_changes,
        has_unpushed_commits,
        branch_merged_via_git,
        branch_merged_via_pr,
    }
}

/// The main checkout of the repository: `repo_name` beside the working copy.
pub open spec fn main_repo_path(info: WorktreeInfo) -> Option<Seq<char>> {
    match parent_dir(info.path@) {
        Some(up) => Some(joined(up, info.repo_name@)),
        None => None,
    }
}

/// The main checkout of the repository that `worktree_info` belongs to.
pub fn get_main_repo_path(worktree_info: &WorktreeInfo) -> (r: Result<String, XlaudeError>)
    ensures
        match main_repo_path(*worktree_info) {
            Some(p) => r matches Ok(s) && s@ == p,
            None => r matches Err(XlaudeError::NoDirectoryName),
        },
{
    match parent(worktree_info.path.as_str()) {
        Some(up) => Ok(join(up.as_str(), worktree_info.repo_name.as_str())),
        None => Err(XlaudeError::NoDirectoryName),
    }
}

/// Removes a git worktree that is present, or prunes the stale record of
/// one whose directory is gone.
pub fn remove_worktree(worktree_info: &WorktreeInfo, config: &DeletionConfig) -> (r: ToolCommand)
    ensures
        config.worktree_exists ==> runs(r, Tool::Git, seq!["worktree"@, "remove"@, worktree_info.path@]),
        !config.worktree_exists ==> runs(r, Tool::Git, seq!["worktree"@, "prune"@]),
{
    if config.worktree_exists {
        let r = ToolCommand {
            tool: Tool::Git,
            args: vec![owned("worktree"), owned("remove"), worktree_info.path.clone()],
        };
        proof {
            assert(views(r.args@) =~= seq!["worktree"@, "remove"@, worktree_info.path@]);
        }
        r
    } else {
        let r = ToolCommand { tool: Tool::Git, args: vec![owned("worktree"), owned("prune")] };
        proof {
            assert(views(r.args@) =~= seq!["worktree"@, "prune"@]);
        }
        r
    }
}

/// Deletes a branch: the safe form refuses an unmerged branch, the forced
/// form does not.
pub fn delete_branch(branch: &str, force: bool) -> (r: ToolCommand)
    ensures
        !force ==> runs(r, Tool::Git, seq!["branch"@, "-d"@, branch@]),
        force ==> runs(r, Tool::Git, seq!["branch"@, "-D"@, branch@]),
{
    let flag = if force {
        owned("-D")
    } else {
        owned("-d")
    };
    let r = ToolCommand { tool: Tool::Git, args: vec![owned("branch"), flag, owned(branch)] };
    proof {
        assert(views(r.args@) =~= seq!["branch"@, r.args@[1]@, branch@]);
    }
    r
}

/// The entry whose workspace name is `name`, or, without a name, the entry
/// whose directory has the current directory's name.
pub fn find_worktree_to_delete(
    state: &XlaudeState,
    name: Option<String>,
    current_dir: &str,
) -> (r: Result<(String, WorktreeInfo), XlaudeError>)
    ensures
        match r {
            Ok((k, w)) => state.worktrees@.contains_key(k@) && state.worktrees@[k@] == w
                && match name {
                Some(n) => w.name@ == n@,
                None => base_name(current_dir@) is Some && base_name(w.path@) == base_name(
                    current_dir@,
                ),
            },
            Err(e) => match name {
                Some(n) => e == XlaudeError::WorkspaceNotFound(n) && forall|k: Seq<char>| #[trigger]
                    state.worktrees@.contains_key(k) ==> state.worktrees@[k].name@ != n@,
                None => (base_name(current_dir@) is None && e == XlaudeError::NoDirectoryName) || (
                base_name(current_dir@) is Some && e == XlaudeError::NotInWorkspace && forall|
                    k: Seq<char>,
                | #[trigger]
                    state.worktrees@.contains_key(k) ==> base_name(state.worktrees@[k].path@)
                        != base_name(current_dir@)),
            },
        },
{
    match name {
        Some(n) => match state.worktrees.find_by_name(n.as_str()) {
            Some(found) => Ok(found),
            None => Err(XlaudeError::WorkspaceNotFound(n)),
        },
        None => find_current_worktree(state, current_dir),
    }
}

/// The entry whose directory has the same name as the current directory.
pub fn find_current_worktree(state: &XlaudeState, current_dir: &str) -> (r: Result<
    (String, WorktreeInfo),
    XlaudeError,
>)
    ensures
        match r {
            Ok((k, w)) => state.worktrees@.contains_key(k@) && state.worktrees@[k@] == w
                && base_name(current_dir@) is Some && base_name(w.path@) == base_name(current_dir@),
            Err(e) => (base_name(current_dir@) is None && e == XlaudeError::NoDirectoryName) || (
            base_name(current_dir@) is Some && e == XlaudeError::NotInWorkspace && forall|k: Seq<char>|
                #[trigger]
                state.worktrees@.contains_key(k) ==> base_name(state.worktrees@[k].path@)
                    != base_name(current_dir@)),
        },
{
    let dir = match file_name(current_dir) {
        Some(d) => d,
        None => return Err(XlaudeError::NoDirectoryName),
    };
    let entries = state.worktrees.entries();
    let ghost d = doc_view(entries@);
    let mut i: usize = 0;
    while i < entries.len()
        invariant
            i <= entries.len(),
            d == doc_view(entries@),
            keys_unique(d),
            map_of(d) == state.worktrees@,
            base_name(current_dir@) == Some(dir@),
            forall|j: int| 0 <= j < i ==> base_name((#[trigger] entries@[j]).1.path@) != Some(dir@),
        decreases entries.len() - i,
    {
        let same = match file_name(entries[i].1.path.as_str()) {
            Some(n) => text_eq(n.as_str(), dir.as_str()),
            None => false,
        };
        if same {
            proof {
                lemma_map_of_at(d, i as int);
            }
            return Ok((entries[i].0.clone(), entries[i].1.clone()));
        }
        i += 1;
    }
    proof {
        assert forall|k: Seq<char>| #[trigger] state.worktrees@.contains_key(k) implies base_name(
            state.worktrees@[k].path@,
        ) != base_name(current_dir@) by {
            assert(has_key(d, k));
            let j = choose|j: int| 0 <= j < d.len() && d[j].0 == k;
            lemma_map_of_at(d, j);
            assert(entries@[j].1 == d[j].1);
        }
    }
    Err(XlaudeError::NotInWorkspace)
}

} // verus!
