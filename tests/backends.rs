use xlaude::command::{command_result, Tool};
use xlaude::error::XlaudeError;
use xlaude::jj;
use xlaude::paths::{file_name, join, parent};
use xlaude::vcs::{self, VcsType, WorkspaceInfo};

#[test]
fn detection_prefers_jj() {
    assert_eq!(vcs::detect_vcs(true, true).unwrap(), VcsType::Jj);
    assert_eq!(vcs::detect_vcs(false, true).unwrap(), VcsType::Git);
    assert!(matches!(vcs::detect_vcs(false, false), Err(XlaudeError::BackendNotDetected)));
}

#[test]
fn command_outcome_is_trimmed_or_failed() {
    assert_eq!(command_result(true, "  out\n", "").unwrap(), "out");
    match command_result(false, "", "boom") {
        Err(XlaudeError::BackendOperationFailed(e)) => assert_eq!(e, "boom"),
        other => panic!("unexpected {other:?}"),
    }
}

#[test]
fn path_pieces() {
    assert_eq!(file_name("/a/b/repo").as_deref(), Some("repo"));
    assert_eq!(file_name("repo").as_deref(), Some("repo"));
    assert_eq!(file_name("/a/b/"), None);
    assert_eq!(parent("/a/b").as_deref(), Some("/a"));
    assert_eq!(parent("/a").as_deref(), Some("/"));
    assert_eq!(parent("a"), None);
    assert_eq!(join("/a", "b"), "/a/b");
    assert_eq!(join("/", "b"), "/b");
}

#[test]
fn jj_repo_name_recovery() {
    assert_eq!(jj::get_repo_name("/code/myrepo", "default").unwrap(), "myrepo");
    assert_eq!(jj::get_repo_name("/code/myrepo-feature", "feature").unwrap(), "myrepo");
    assert_eq!(jj::get_repo_name("/code/my-repo-feat", "feat").unwrap(), "my-repo");
    assert_eq!(jj::get_repo_name("/w/a-b-c", "b-c").unwrap(), "a");
    assert_eq!(jj::get_repo_name("/code/repo-feat-x", "feat-x").unwrap(), "repo");
    assert_eq!(jj::get_repo_name("/code/other-dir", "feat-x").unwrap(), "other");
    assert_eq!(jj::get_repo_name("/code/plain", "ws").unwrap(), "plain");
    assert!(matches!(jj::get_repo_name("/code/", "ws"), Err(XlaudeError::NoDirectoryName)));
}

#[test]
fn jj_current_workspace_from_listing() {
    let listing = "default: qpvuntsm 1234 (empty)\nfeature: zzzz 5678 @ work\n";
    assert_eq!(jj::get_current_workspace_name(listing), "feature");
    assert_eq!(jj::get_current_workspace_name("default: abc\nother: def\n"), "default");
    assert_eq!(jj::get_current_workspace_name(""), "default");
}

#[test]
fn jj_status_checks() {
    assert!(jj::is_working_copy_clean("The working copy has no changes.\nWorking copy : abc"));
    assert!(!jj::is_working_copy_clean("Working copy changes:\nM a.rs"));
    assert!(jj::has_unpushed_changes("abc change\n"));
    assert!(!jj::has_unpushed_changes("  \n"));
    assert!(jj::is_in_workspace(true, true, "feat"));
    assert!(!jj::is_in_workspace(true, true, "default"));
    assert!(!jj::is_in_workspace(true, false, "feat"));
    assert!(jj::is_on_trunk("abc", "abc"));
    assert!(!jj::is_on_trunk("abc", "abd"));
}

#[test]
fn jj_workspace_listing_from_default() {
    let listing = "default: aaa\nfeat: bbb\n";
    let ws = jj::list_workspaces(listing, "/code/repo", "default").unwrap();
    assert_eq!(
        ws,
        vec![
            ("default".to_string(), "/code/repo".to_string()),
            ("feat".to_string(), "/code/repo-feat".to_string()),
        ]
    );
}

#[test]
fn jj_workspace_listing_with_dashed_names() {
    let listing = "default: aaa\nfeat-x: bbb @\n";
    let ws = jj::list_workspaces(listing, "/code/repo-feat-x", "feat-x").unwrap();
    assert_eq!(
        ws,
        vec![
            ("default".to_string(), "/code/repo".to_string()),
            ("feat-x".to_string(), "/code/repo-feat-x".to_string()),
        ]
    );
}

#[test]
fn jj_workspace_listing_from_named_workspace() {
    let listing = "default: aaa\nfeat: bbb @\n";
    let ws = jj::list_workspaces(listing, "/code/repo-feat", "feat").unwrap();
    assert_eq!(
        ws,
        vec![
            ("default".to_string(), "/code/repo".to_string()),
            ("feat".to_string(), "/code/repo-feat".to_string()),
        ]
    );
    assert!(matches!(
        jj::list_workspaces(listing, "/", "default"),
        Err(XlaudeError::NoDirectoryName)
    ));
}

#[test]
fn jj_workspace_commands() {
    let c = jj::create_workspace("feat", "../repo-feat");
    assert_eq!(c.tool, Tool::Jj);
    assert_eq!(c.args, vec!["workspace", "add", "../repo-feat", "--name", "feat"]);
    assert_eq!(jj::forget_workspace("feat").args, vec!["workspace", "forget", "feat"]);
}

#[test]
fn backend_dispatch() {
    assert_eq!(vcs::get_repo_name(&VcsType::Git, "/code/repo", "").unwrap(), "repo");
    assert_eq!(vcs::get_repo_name(&VcsType::Jj, "/code/repo-x", "x").unwrap(), "repo");
    assert_eq!(vcs::get_current_branch_or_workspace(&VcsType::Git, "main\n"), "main");
    assert_eq!(vcs::get_current_branch_or_workspace(&VcsType::Jj, "w: abc@\n"), "w");
    assert!(vcs::is_on_base_branch(&VcsType::Git, "develop", ""));
    assert!(!vcs::is_on_base_branch(&VcsType::Git, "feature", ""));
    assert!(vcs::is_on_base_branch(&VcsType::Jj, "c1", "c1"));
    assert!(vcs::is_working_tree_clean(&VcsType::Git, ""));
    assert!(!vcs::is_working_tree_clean(&VcsType::Git, "?? new.rs\n"));
    assert!(vcs::has_unpushed_changes(&VcsType::Git, "abc msg\n"));
    assert!(vcs::is_in_worktree_or_workspace(&VcsType::Git, "/code/repo/.git/worktrees/x", false, false, ""));
    assert!(!vcs::is_in_worktree_or_workspace(&VcsType::Git, ".git", true, true, "x"));
    assert!(vcs::is_in_worktree_or_workspace(&VcsType::Jj, "", true, true, "x"));
    assert!(!vcs::is_in_worktree_or_workspace(&VcsType::Jj, "", true, true, "default"));
}

#[test]
fn git_worktree_listing() {
    let out = "worktree /code/repo\nHEAD abc\nbranch refs/heads/main\n\nworktree /code/repo-x\nHEAD def\n";
    let list = vcs::list_worktrees_or_workspaces(&VcsType::Git, out, "", "").unwrap();
    let paths: Vec<String> = list
        .into_iter()
        .map(|w| match w {
            WorkspaceInfo::Git(p) => p,
            WorkspaceInfo::Jj(p) => p,
        })
        .collect();
    assert_eq!(paths, vec!["/code/repo".to_string(), "/code/repo-x".to_string()]);
}

#[test]
fn backend_create_and_remove_commands() {
    let git = vcs::create_worktree_or_workspace(&VcsType::Git, "feat", "../repo-feat");
    assert_eq!(git.len(), 2);
    assert_eq!(git[0].args, vec!["branch", "feat"]);
    assert_eq!(git[1].args, vec!["worktree", "add", "../repo-feat", "feat"]);
    let jj_cmds = vcs::create_worktree_or_workspace(&VcsType::Jj, "feat", "../repo-feat");
    assert_eq!(jj_cmds.len(), 1);
    assert_eq!(jj_cmds[0].tool, Tool::Jj);
    let plan = vcs::remove_worktree_or_workspace(&VcsType::Git, "feat", "/code/repo-feat");
    assert_eq!(plan.required.args, vec!["worktree", "remove", "/code/repo-feat"]);
    assert_eq!(plan.best_effort.unwrap().args, vec!["branch", "-d", "feat"]);
    assert!(!plan.delete_directory);
    let plan = vcs::remove_worktree_or_workspace(&VcsType::Jj, "feat", "/code/repo-feat");
    assert_eq!(plan.required.args, vec!["workspace", "forget", "feat"]);
    assert!(plan.best_effort.is_none());
    assert!(plan.delete_directory);
}
