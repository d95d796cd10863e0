//! Reading the jj tool's answers (workspace-model backend).

use vstd::prelude::*;

use crate::command::{owned, runs, Tool, ToolCommand};
use crate::error::XlaudeError;
use crate::paths::{base_name, file_name, join, joined, parent, parent_dir};
use crate::text::{
    before_first, chars_of, contains_char, contains_text, has_substring, last_index, lines_of,
    prefix_before, rfind_char, split_lines, text_eq, trim_text, trimmed, views,
};

verus! {

broadcast use vstd::string::group_string_axioms;

/// The name jj gives the workspace created with the repository.
pub open spec fn default_name() -> Seq<char> {
    "default"@
}

/// `dir` ends with `-` followed by `workspace`.
pub open spec fn has_workspace_suffix(dir: Seq<char>, workspace: Seq<char>) -> bool {
    workspace.len() + 1 <= dir.len() && dir.skip(dir.len() - workspace.len() - 1) == seq!['-']
        + workspace
}

/// The repository name recovered from the directory name of a workspace
/// (directories are named `repo-workspace`): the directory name itself for
/// the default workspace; else the name without its trailing
/// `-<workspace>`; for a directory not named that way, the part before its
/// last `-`, or the whole name when it has none.
pub open spec fn repo_name_from_dir(dir: Seq<char>, workspace: Seq<char>) -> Seq<char> {
    if workspace == default_name() {
        dir
    } else if has_workspace_suffix(dir, workspace) {
        dir.take(dir.len() - workspace.len() - 1)
    } else if last_index(dir, '-') >= 0 {
        dir.take(last_index(dir, '-'))
    } else {
        dir
    }
}

/// The repository name, from the workspace root directory and the current
/// workspace's name.
pub fn get_repo_name(workspace_root: &str, current_workspace: &str) -> (r: Result<String, XlaudeError>)
    ensures
        match base_name(workspace_root@) {
            Some(dir) => r matches Ok(n) && n@ == repo_name_from_dir(dir, current_workspace@),
            None => r matches Err(XlaudeError::NoDirectoryName),
        },
{
    let dir = match file_name(workspace_root) {
        Some(d) => d,
        None => return Err(XlaudeError::NoDirectoryName),
    };
    Ok(repo_name_of_dir(&dir, current_workspace))
}

fn ends_with_dash_suffix(cs: &Vec<char>, ws: &Vec<char>) -> (r: bool)
    ensures
        r == has_workspace_suffix(cs@, ws@),
{
    if ws.len() >= cs.len() {
        return false;
    }
    let start: usize = cs.len() - ws.len() - 1;
    let ghost want = seq!['-'] + ws@;
    let ghost tail = cs@.skip(start as int);
    if cs[start] != '-' {
        proof {
            assert(tail[0] != want[0]);
        }
        return false;
    }
    let mut i: usize = 0;
    while i < ws.len()
        invariant
            i <= ws.len(),
            start + ws.len() + 1 == cs.len(),
            tail == cs@.skip(start as int),
            want == seq!['-'] + ws@,
            cs@[start as int] == '-',
            forall|j: int| 0 <= j < i ==> cs@[start + 1 + j] == ws@[j],
        decreases ws.len() - i,
    {
        if cs[start + 1 + i] != ws[i] {
            proof {
                assert(tail[i + 1] != want[i + 1]);
            }
            return false;
        }
        i += 1;
    }
    proof {
        assert(tail =~= want);
    }
    true
}

fn repo_name_of_dir(dir: &String, current_workspace: &str) -> (r: String)
    ensures
        r@ == repo_name_from_dir(dir@, current_workspace@),
{
    if text_eq(current_workspace, "default") {
        return dir.clone();
    }
    let cs = chars_of(dir.as_str());
    let ws = chars_of(current_workspace);
    if ends_with_dash_suffix(&cs, &ws) {
        return crate::paths::prefix_string(&cs, cs.len() - ws.len() - 1);
    }
    match rfind_char(&cs, '-') {
        Some(k) => crate::paths::prefix_string(&cs, k),
        None => dir.clone(),
    }
}

/// The part of `line` naming its workspace: before the first `:`, trimmed.
pub open spec fn line_name(line: Seq<char>) -> Seq<char> {
    trimmed(before_first(line, ':'))
}

/// The name on the first line that carries the `@` marker, if any.
pub open spec fn marked_name(ls: Seq<Seq<char>>) -> Option<Seq<char>>
    decreases ls.len(),
{
    if ls.len() == 0 {
        None
    } else if ls[0].contains('@') {
        Some(line_name(ls[0]))
    } else {
        marked_name(ls.drop_first())
    }
}

/// The current workspace's name, read from `jj workspace list`: the first
/// line marked with `@`; `default` when no line is marked.
pub fn get_current_workspace_name(workspace_list: &str) -> (r: String)
    ensures
        match marked_name(lines_of(workspace_list@)) {
            Some(n) => r@ == n,
            None => r@ == default_name(),
        },
{
    let lines = split_lines(workspace_list);
    let ghost ls = lines_of(workspace_list@);
    proof {
        assert(ls.skip(0) =~= ls);
    }
    let mut i: usize = 0;
    while i < lines.len()
        invariant
            i <= lines.len(),
            views(lines@) == ls,
            ls == lines_of(workspace_list@),
            marked_name(ls) == marked_name(ls.skip(i as int)),
        decreases lines.len() - i,
    {
        proof {
            assert(lines@[i as int]@ == ls[i as int]);
            assert(ls.skip(i as int)[0] == ls[i as int]);
            assert(ls.skip(i as int).drop_first() =~= ls.skip(i + 1));
        }
        if contains_char(lines[i].as_str(), '@') {
            let name = prefix_before(lines[i].as_str(), ':');
            let r = trim_text(name.as_str());
            proof {
                assert(ls.skip(i as int).len() > 0);
                assert(marked_name(ls.skip(i as int)) == Some(line_name(ls[i as int])));
            }
            return r;
        }
        i += 1;
    }
    proof {
        assert(ls.skip(i as int).len() == 0);
    }
    owned("default")
}

/// The text jj prints for a working copy without changes.
pub open spec fn no_changes_text() -> Seq<char> {
    "The working copy has no changes"@
}

/// Whether `jj st` reports a working copy without changes.
pub fn is_working_copy_clean(status: &str) -> (r: bool)
    ensures
        r == has_substring(status@, no_changes_text()),
{
    contains_text(status, "The working copy has no changes")
}

/// Whether `jj log -r 'trunk()..@'` lists any change.
pub fn has_unpushed_changes(log: &str) -> (r: bool)
    ensures
        r == (trimmed(log@).len() > 0),
{
    let t = trim_text(log);
    !t.as_str().is_empty()
}

/// Whether the current directory is a secondary jj workspace: its `.jj`
/// entry exists and is a directory, and the current workspace is not the
/// default one (the primary checkout).
pub fn is_in_workspace(jj_entry_exists: bool, jj_entry_is_dir: bool, current_workspace: &str) -> (r:
    bool)
    ensures
        r == (jj_entry_exists && jj_entry_is_dir && current_workspace@ != default_name()),
{
    jj_entry_exists && jj_entry_is_dir && !text_eq(current_workspace, "default")
}

/// Where the repository's directories are, given the current workspace's
/// root and name: the repository root and the repository name.
pub open spec fn layout(root: Seq<char>, current: Seq<char>) -> Option<(Seq<char>, Seq<char>)> {
    match base_name(root) {
        None => None,
        Some(dir) => if current == default_name() {
            Some((root, dir))
        } else {
            match parent_dir(root) {
                None => None,
                Some(up) => Some(
                    (joined(up, repo_name_from_dir(dir, current)), repo_name_from_dir(dir, current)),
                ),
            }
        },
    }
}

/// Where workspace `name` lives: the repository root for the default
/// workspace, else `{repo}-{name}` beside the repository root.
pub open spec fn workspace_path(repo_root: Seq<char>, repo_name: Seq<char>, name: Seq<char>) -> Seq<char> {
    if name == default_name() {
        repo_root
    } else {
        let up = match parent_dir(repo_root) {
            Some(d) => d,
            None => repo_root,
        };
        joined(up, repo_name + seq!['-'] + name)
    }
}

/// `{repo}-{name}`.
fn dir_name(repo: &String, name: &String) -> (r: String)
    ensures
        r@ == repo@ + seq!['-'] + name@,
{
    let mut s = repo.clone();
    crate::text::push_char(&mut s, '-');
    s.concat(name.as_str())
}

/// Every workspace of the repository with its directory, from
/// `jj workspace list` and the current workspace's root and name; the
/// directories are reconstructed from the `repo-workspace` naming
/// convention.
pub fn list_workspaces(workspace_list: &str, workspace_root: &str, current_workspace: &str) -> (r:
    Result<Vec<(String, String)>, XlaudeError>)
    ensures
        match layout(workspace_root@, current_workspace@) {
            None => r matches Err(XlaudeError::NoDirectoryName),
            Some((repo_root, repo_name)) => r matches Ok(v) && v@.len() == lines_of(
                workspace_list@,
            ).len() && forall|i: int|
                0 <= i < v@.len() ==> (#[trigger] v@[i]).0@ == line_name(lines_of(workspace_list@)[i])
                    && v@[i].1@ == workspace_path(repo_root, repo_name, v@[i].0@),
        },
{
    let dir = match file_name(workspace_root) {
        Some(d) => d,
        None => return Err(XlaudeError::NoDirectoryName),
    };
    let (repo_root, repo_name) = if text_eq(current_workspace, "default") {
        (owned(workspace_root), dir)
    } else {
        let up = match parent(workspace_root) {
            Some(u) => u,
            None => return Err(XlaudeError::NoDirectoryName),
        };
        let name = repo_name_of_dir(&dir, current_workspace);
        (join(up.as_str(), name.as_str()), name)
    };
    let up = match parent(repo_root.as_str()) {
        Some(u) => u,
        None => repo_root.clone(),
    };
    let lines = split_lines(workspace_list);
    let ghost ls = lines_of(workspace_list@);
    let mut out: Vec<(String, String)> = Vec::new();
    let mut i: usize = 0;
    while i < lines.len()
        invariant
            i <= lines.len(),
            views(lines@) == ls,
            out@.len() == i,
            layout(workspace_root@, current_workspace@) == Some((repo_root@, repo_name@)),
            up@ == match parent_dir(repo_root@) {
                Some(d) => d,
                None => repo_root@,
            },
            forall|j: int|
                0 <= j < i ==> (#[trigger] out@[j]).0@ == line_name(ls[j]) && out@[j].1@
                    == workspace_path(repo_root@, repo_name@, out@[j].0@),
        decreases lines.len() - i,
    {
        let head = prefix_before(lines[i].as_str(), ':');
        let name = trim_text(head.as_str());
        let path = if text_eq(name.as_str(), "default") {
            repo_root.clone()
        } else {
            let d = dir_name(&repo_name, &name);
            join(up.as_str(), d.as_str())
        };
        proof {
            assert(lines@[i as int]@ == ls[i as int]);
        }
        out.push((name, path));
        i += 1;
    }
    Ok(out)
}

/// `jj workspace add <destination> --name <name>`.
pub fn create_workspace(name: &str, destination: &str) -> (r: ToolCommand)
    ensures
        runs(r, Tool::Jj, seq!["workspace"@, "add"@, destination@, "--name"@, name@]),
{
    let args = vec![owned("workspace"), owned("add"), owned(destination), owned("--name"), owned(name)];
    let r = ToolCommand { tool: Tool::Jj, args };
    proof {
        assert(views(r.args@) =~= seq!["workspace"@, "add"@, destination@, "--name"@, name@]);
    }
    r
}

/// `jj workspace forget <name>`.
pub fn forget_workspace(name: &str) -> (r: ToolCommand)
    ensures
        runs(r, Tool::Jj, seq!["workspace"@, "forget"@, name@]),
{
    let args = vec![owned("workspace"), owned("forget"), owned(name)];
    let r = ToolCommand { tool: Tool::Jj, args };
    proof {
        assert(views(r.args@) =~= seq!["workspace"@, "forget"@, name@]);
    }
    r
}

/// Whether the current change is trunk: the commit ids printed for `@` and
/// for `trunk()` are the same.
pub fn is_on_trunk(current_commit: &str, trunk_commit: &str) -> (r: bool)
    ensures
        r == (current_commit@ == trunk_commit@),
{
    text_eq(current_commit, trunk_commit)
}

} // verus!
