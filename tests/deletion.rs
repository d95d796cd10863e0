use xlaude::delete::{
    check_branch_merge_status, check_branch_merged_via_pr, confirm_deletion, delete_branch,
    find_worktree_to_delete, get_main_repo_path, handle_missing_worktree, merged_from_count,
    perform_deletion_checks, remove_worktree, DeletionChecks, DeletionConfig, DeletionDecision,
};
use xlaude::error::XlaudeError;
use xlaude::state::{Timestamp, WorktreeInfo, XlaudeState};
use xlaude::vcs::VcsType;

fn checks(uncommitted: bool, unpushed: bool, git: bool, pr: bool) -> DeletionChecks {
    DeletionChecks {
        has_uncommitted_changes: uncommitted,
        has_unpushed_commits: unpushed,
        branch_merged_via_git: git,
        branch_merged_via_pr: pr,
    }
}

fn config(interactive: bool) -> DeletionConfig {
    DeletionConfig {
        is_interactive: interactive,
        worktree_exists: true,
        is_current_directory: false,
        vcs_type: VcsType::Git,
    }
}

fn info(repo: &str, name: &str, path: &str) -> WorktreeInfo {
    WorktreeInfo {
        name: name.to_string(),
        branch: name.to_string(),
        path: path.to_string(),
        repo_name: repo.to_string(),
        created_at: Timestamp { secs: 0, nanos: 0 },
    }
}

#[test]
fn pending_work_non_interactive_is_refused() {
    let c = checks(true, false, true, false);
    assert!(c.has_pending_work());
    let d = confirm_deletion(&c, &config(false));
    assert_eq!(d, DeletionDecision::Refuse);
    assert!(!d.proceeds(true));
}

#[test]
fn clean_merged_non_interactive_proceeds() {
    let c = checks(false, false, false, true);
    assert!(c.branch_is_merged());
    let d = confirm_deletion(&c, &config(false));
    assert_eq!(d, DeletionDecision::Proceed);
    assert!(d.proceeds(false));
}

#[test]
fn unmerged_interactive_declined_is_cancelled() {
    let mut state = XlaudeState::new();
    state.worktrees.insert("r/x".to_string(), info("r", "x", "/w/r-x"));
    let c = checks(false, false, false, false);
    assert!(!c.branch_is_merged());
    let d = confirm_deletion(&c, &config(true));
    assert_eq!(d, DeletionDecision::Confirm { default_yes: true });
    assert!(!d.proceeds(false));
    assert!(state.worktrees.contains_key("r/x"));
}

#[test]
fn pending_work_interactive_asks_with_no_offered() {
    let d = confirm_deletion(&checks(false, true, true, true), &config(true));
    assert_eq!(d, DeletionDecision::Confirm { default_yes: false });
    assert!(d.proceeds(true));
}

#[test]
fn missing_directory_only_drops_entry() {
    assert_eq!(handle_missing_worktree(&config(false)), DeletionDecision::Proceed);
    assert_eq!(
        handle_missing_worktree(&config(true)),
        DeletionDecision::Confirm { default_yes: true }
    );
}

#[test]
fn merged_branch_listing_is_read() {
    let out = "  feature-a\n* main\n  feature-b\n";
    assert!(check_branch_merge_status(out, "main"));
    assert!(check_branch_merge_status(out, "feature-b"));
    assert!(!check_branch_merge_status(out, "feature"));
    assert!(!check_branch_merge_status("", "main"));
}

#[test]
fn merged_review_query_is_read() {
    assert!(check_branch_merged_via_pr(true, Some("[{\"number\": 12}]")));
    assert!(!check_branch_merged_via_pr(true, Some("[]")));
    assert!(!check_branch_merged_via_pr(true, Some("not json")));
    assert!(!check_branch_merged_via_pr(false, Some("[{\"number\": 12}]")));
    assert!(!check_branch_merged_via_pr(true, None));
    assert!(merged_from_count(true, Some(2)));
    assert!(!merged_from_count(true, Some(0)));
    assert!(!merged_from_count(false, Some(2)));
}

#[test]
fn checks_from_tool_output() {
    let c = perform_deletion_checks(VcsType::Git, " M src/a.rs\n", "abc123 wip\n", "  main\n  feat\n", "feat", false);
    assert_eq!(c, checks(true, true, true, false));
    let c = perform_deletion_checks(VcsType::Git, "\n", "", "  main\n", "feat", true);
    assert_eq!(c, checks(false, false, false, true));
    let c = perform_deletion_checks(
        VcsType::Jj,
        "The working copy has no changes.\n",
        "",
        "  feat\n",
        "feat",
        true,
    );
    assert_eq!(c, checks(false, false, false, false));
}

#[test]
fn main_repository_path_is_beside_workspace() {
    let w = info("repo", "x", "/home/u/code/repo-x");
    assert_eq!(get_main_repo_path(&w).unwrap(), "/home/u/code/repo");
    let w = info("repo", "x", "nodir");
    assert!(matches!(get_main_repo_path(&w), Err(XlaudeError::NoDirectoryName)));
}

#[test]
fn removal_commands() {
    let w = info("repo", "x", "/w/repo-x");
    let mut c = config(true);
    assert_eq!(remove_worktree(&w, &c).args, vec!["worktree", "remove", "/w/repo-x"]);
    c.worktree_exists = false;
    assert_eq!(remove_worktree(&w, &c).args, vec!["worktree", "prune"]);
    assert_eq!(delete_branch("x", false).args, vec!["branch", "-d", "x"]);
    assert_eq!(delete_branch("x", true).args, vec!["branch", "-D", "x"]);
}

#[test]
fn finding_the_workspace_to_delete() {
    let mut state = XlaudeState::new();
    state.worktrees.insert("r/x".to_string(), info("r", "x", "/w/r-x"));
    let (k, w) = find_worktree_to_delete(&state, Some("x".to_string()), "/anywhere").unwrap();
    assert_eq!(k, "r/x");
    assert_eq!(w.path, "/w/r-x");
    assert!(matches!(
        find_worktree_to_delete(&state, Some("y".to_string()), "/w/r-x"),
        Err(XlaudeError::WorkspaceNotFound(n)) if n == "y"
    ));
    let (k, _) = find_worktree_to_delete(&state, None, "/other/place/r-x").unwrap();
    assert_eq!(k, "r/x");
    assert!(matches!(
        find_worktree_to_delete(&state, None, "/w/elsewhere"),
        Err(XlaudeError::NotInWorkspace)
    ));
    assert!(matches!(
        find_worktree_to_delete(&state, None, "/w/"),
        Err(XlaudeError::NoDirectoryName)
    ));
}

#[test]
fn unmerged_branch_non_interactive_is_refused() {
    let d = confirm_deletion(&checks(false, false, false, false), &config(false));
    assert_eq!(d, DeletionDecision::Refuse);
    let mut jj_config = config(false);
    jj_config.vcs_type = VcsType::Jj;
    assert_eq!(confirm_deletion(&checks(false, false, false, false), &jj_config), DeletionDecision::Proceed);
}
