use xlaude::commands::{
    check_create_allowed, decide_open_current, CurrentOpen, collect_repo_paths, new_workspace_path, register_created,
    register_existing, remove_invalid_worktrees, resolve_open_target, workspace_dir_name, OpenTarget,
};
use xlaude::dashboard::{
    compare_option_desc, editor_command, handle_worktree_action, last_activity, launch_agent,
    launch_editor, launch_shell, load_settings_payload, normalize_setting, plan_from_words,
    read_last_commit, shell_command, short_session_id, summarize_status_output,
    update_settings_state, apply_status_line, ActionError, DashboardConfig, GitStatusSummary,
    LaunchError, SettingsPayload, WorktreeAction,
};
use xlaude::error::XlaudeError;
use xlaude::options::OpenOptions;
use xlaude::state::{Timestamp, WorktreeInfo, XlaudeState};
use xlaude::vcs::VcsType;
use std::cmp::Ordering;

fn ts(secs: i64) -> Timestamp {
    Timestamp { secs, nanos: 0 }
}

fn info(repo: &str, name: &str, path: &str) -> WorktreeInfo {
    WorktreeInfo {
        name: name.to_string(),
        branch: name.to_string(),
        path: path.to_string(),
        repo_name: repo.to_string(),
        created_at: ts(100),
    }
}

#[test]
fn settings_are_normalized() {
    assert_eq!(normalize_setting(Some("  vim  ".to_string())).as_deref(), Some("vim"));
    assert_eq!(normalize_setting(Some("   ".to_string())), None);
    assert_eq!(normalize_setting(None), None);
    let mut state = XlaudeState::new();
    let out = update_settings_state(
        &mut state,
        SettingsPayload { editor: Some(" code -w ".to_string()), terminal: Some("".to_string()) },
    );
    assert_eq!(out.editor.as_deref(), Some("code -w"));
    assert_eq!(out.terminal, None);
    assert_eq!(state.editor.as_deref(), Some("code -w"));
    let loaded = load_settings_payload(&state);
    assert_eq!(loaded.editor.as_deref(), Some("code -w"));
    assert_eq!(DashboardConfig::default().session_limit, 5);
}

#[test]
fn short_ids_keep_last_six() {
    assert_eq!(short_session_id("abcdef"), "abcdef");
    assert_eq!(short_session_id("0123456789"), "456789");
    assert_eq!(short_session_id(""), "");
}

#[test]
fn newest_first_ordering() {
    assert_eq!(compare_option_desc(Some(ts(2)), Some(ts(1))), Ordering::Less);
    assert_eq!(compare_option_desc(Some(ts(1)), Some(ts(2))), Ordering::Greater);
    assert_eq!(compare_option_desc(Some(ts(1)), Some(ts(1))), Ordering::Equal);
    assert_eq!(compare_option_desc(Some(ts(1)), None), Ordering::Less);
    assert_eq!(compare_option_desc(None, Some(ts(1))), Ordering::Greater);
    assert_eq!(compare_option_desc(None, None), Ordering::Equal);
}

#[test]
fn last_activity_is_latest_time() {
    assert_eq!(last_activity(ts(5), &vec![None, Some(ts(9)), Some(ts(7))]), ts(9));
    assert_eq!(last_activity(ts(5), &vec![Some(ts(1))]), ts(5));
    assert_eq!(last_activity(ts(5), &Vec::new()), ts(5));
}

#[test]
fn status_lines_are_counted() {
    let s = summarize_status_output("M  a.rs\n M b.rs\nMM c.rs\n?? d.rs\n!! e.rs\nUU f.rs\n");
    assert_eq!(s.staged_files, 2);
    assert_eq!(s.unstaged_files, 2);
    assert_eq!(s.untracked_files, 1);
    assert_eq!(s.conflict_files, 2);
    assert!(!s.clean);
    let empty = summarize_status_output("");
    assert!(empty.clean);
    let mut one = GitStatusSummary::new();
    apply_status_line("A ", &mut one);
    assert_eq!(one.staged_files, 1);
    assert_eq!(one.unstaged_files, 0);
}

#[test]
fn last_commit_is_read() {
    let c = read_last_commit(" Fix the thing \u{1f}2024-01-02T03:04:05+00:00\n").unwrap();
    assert_eq!(c.message, "Fix the thing");
    assert_eq!(c.timestamp, Timestamp { secs: 1704164645, nanos: 0 });
    let c = read_last_commit("msg\u{1f}2024-01-02T05:04:05+02:00").unwrap();
    assert_eq!(c.timestamp.secs, 1704164645);
    assert!(read_last_commit("msg\u{1f}yesterday").is_none());
    assert!(read_last_commit("msg only").is_none());
    assert!(read_last_commit("   ").is_none());
}

#[test]
fn worktree_actions_are_resolved() {
    let mut state = XlaudeState::new();
    state.worktrees.insert("r/x".to_string(), info("r", "x", "/w/r-x"));
    let (a, w) = handle_worktree_action(&state, "r", "x", "open-shell").unwrap();
    assert_eq!(a, WorktreeAction::OpenShell);
    assert_eq!(w.path, "/w/r-x");
    match handle_worktree_action(&state, "r", "y", "open-shell") {
        Err(ActionError::NotFound(m)) => assert_eq!(m, "Worktree 'r/y' not found"),
        other => panic!("unexpected {other:?}"),
    }
    match handle_worktree_action(&state, "r", "x", "dance") {
        Err(ActionError::BadRequest(m)) => assert_eq!(m, "Unsupported action 'dance'"),
        other => panic!("unexpected {other:?}"),
    }
    assert!(matches!(
        handle_worktree_action(&state, "r", "x", "open-agent"),
        Ok((WorktreeAction::OpenAgent, _))
    ));
    assert!(matches!(
        handle_worktree_action(&state, "r", "x", "open-editor"),
        Ok((WorktreeAction::OpenEditor, _))
    ));
}

#[test]
fn command_preferences() {
    assert_eq!(editor_command(Some("nvim".to_string()), Some("a".to_string()), None), "nvim");
    assert_eq!(editor_command(Some("  ".to_string()), None, Some("emacs".to_string())), "emacs");
    assert_eq!(editor_command(None, None, None), "code");
    assert_eq!(shell_command(None, Some("fish".to_string()), Some("bash".to_string())), "fish");
    assert_eq!(shell_command(None, None, None), "/bin/zsh");
}

#[test]
fn launch_plans_from_command_lines() {
    let w = info("r", "x", "/w/r-x");
    let p = launch_shell(&w, Some("wezterm start --cwd 'my dir'".to_string()), None, None).unwrap();
    assert_eq!(p.program, "wezterm");
    assert_eq!(p.args, vec!["start", "--cwd", "my dir"]);
    assert_eq!(p.current_dir.as_deref(), Some("/w/r-x"));
    let p = launch_editor("/w/r-x", Some("code -n".to_string()), None, None).unwrap();
    assert_eq!(p.program, "code");
    assert_eq!(p.args, vec!["-n", "/w/r-x"]);
    assert!(p.current_dir.is_none());
    match launch_editor("/w/r-x", Some("vim 'unclosed".to_string()), None, None) {
        Err(ActionError::Internal(m)) => assert_eq!(m, "Failed to parse editor command"),
        other => panic!("unexpected {other:?}"),
    }
    match launch_shell(&w, None, Some("   ".to_string()), None) {
        Err(ActionError::Internal(m)) => assert_eq!(m, "shell command is empty"),
        other => panic!("unexpected {other:?}"),
    }
    assert!(matches!(plan_from_words(None, None, None), Err(LaunchError::Unparsable)));
    assert!(matches!(plan_from_words(Some(Vec::new()), None, None), Err(LaunchError::Empty)));
    let a = launch_agent(&w, "/usr/bin/xlaude".to_string());
    assert_eq!(a.args, vec!["open", "x"]);
}

#[test]
fn type_text_combinations() {
    let given = OpenOptions { type_text: Some(Some("do it".to_string())) };
    assert_eq!(given.get_type_text(None).as_deref(), Some("do it"));
    assert_eq!(given.get_type_text(Some("more\n\n".to_string())).as_deref(), Some("do it\nmore"));
    assert_eq!(given.get_type_text(Some(" \n".to_string())).as_deref(), Some("do it"));
    let from_stdin = OpenOptions { type_text: Some(None) };
    assert_eq!(from_stdin.get_type_text(Some("  piped \n".to_string())).as_deref(), Some("  piped"));
    assert_eq!(from_stdin.get_type_text(Some("\n".to_string())), None);
    let absent = OpenOptions { type_text: None };
    assert_eq!(absent.get_type_text(Some("x".to_string())), None);
}

#[test]
fn creating_registers_a_sibling_directory() {
    assert_eq!(workspace_dir_name("repo", "feat"), "repo-feat");
    assert_eq!(new_workspace_path("/code/repo", "repo", "feat").as_deref(), Some("/code/repo-feat"));
    assert!(new_workspace_path("repo", "repo", "feat").is_none());
    assert!(matches!(check_create_allowed(&VcsType::Git, false), Err(XlaudeError::NotOnBaseBranch)));
    assert!(check_create_allowed(&VcsType::Git, true).is_ok());
    assert!(check_create_allowed(&VcsType::Jj, false).is_ok());
    let mut state = XlaudeState::new();
    let key = register_created(&mut state, "repo".to_string(), "feat".to_string(), "/code/repo-feat".to_string(), ts(1));
    assert_eq!(key, "repo/feat");
    assert_eq!(state.worktrees.get("repo/feat").unwrap().branch, "feat");
}

#[test]
fn adding_existing_workspace() {
    let mut state = XlaudeState::new();
    assert!(matches!(
        register_existing(&mut state, false, "r".to_string(), None, "b".to_string(), "/w".to_string(), ts(1)),
        Err(XlaudeError::NotInWorkspace)
    ));
    let key = register_existing(&mut state, true, "r".to_string(), None, "feature/x".to_string(), "/w/r-x".to_string(), ts(1)).unwrap();
    assert_eq!(key, "r/feature/x");
    let key = register_existing(&mut state, true, "r".to_string(), Some("x".to_string()), "feature/x".to_string(), "/w/r-x".to_string(), ts(1)).unwrap();
    assert_eq!(key, "r/x");
    assert_eq!(state.worktrees.get("r/x").unwrap().branch, "feature/x");
    match register_existing(&mut state, true, "r".to_string(), Some("x".to_string()), "b".to_string(), "/w".to_string(), ts(1)) {
        Err(XlaudeError::AlreadyManaged(k)) => assert_eq!(k, "r/x"),
        other => panic!("unexpected {other:?}"),
    }
    assert_eq!(state.worktrees.len(), 2);
}

#[test]
fn cleaning_drops_unlisted_directories() {
    let mut state = XlaudeState::new();
    state.worktrees.insert("r/a".to_string(), info("r", "a", "/w/r-a"));
    state.worktrees.insert("r/b".to_string(), info("r", "b", "/w/r-b"));
    state.worktrees.insert("s/c".to_string(), info("s", "c", "/v/s-c"));
    let mut repos = collect_repo_paths(&state);
    repos.sort();
    assert_eq!(repos, vec!["/v/s".to_string(), "/w/r".to_string()]);
    let removed = remove_invalid_worktrees(&mut state, &vec!["/w/r-a".to_string(), "/v/s-c".to_string()]);
    assert_eq!(removed, 1);
    assert!(!state.worktrees.contains_key("r/b"));
    assert_eq!(state.worktrees.len(), 2);
    assert_eq!(remove_invalid_worktrees(&mut state, &Vec::new()), 2);
    assert!(state.worktrees.is_empty());
}

#[test]
fn choosing_the_workspace_to_open() {
    let mut state = XlaudeState::new();
    assert!(matches!(resolve_open_target(&state, None, true), Err(XlaudeError::NoWorktrees)));
    state.worktrees.insert("r/a".to_string(), info("r", "a", "/w/r-a"));
    match resolve_open_target(&state, Some("a".to_string()), false) {
        Ok(OpenTarget::Named(k, _)) => assert_eq!(k, "r/a"),
        other => panic!("unexpected {other:?}"),
    }
    assert!(matches!(
        resolve_open_target(&state, Some("b".to_string()), true),
        Err(XlaudeError::WorkspaceNotFound(_))
    ));
    assert!(matches!(resolve_open_target(&state, None, false), Err(XlaudeError::SelectionUnavailable)));
    match resolve_open_target(&state, None, true) {
        Ok(OpenTarget::Choose(labels, keys)) => {
            assert_eq!(labels, vec!["r/a".to_string()]);
            assert_eq!(keys, vec!["r/a".to_string()]);
        }
        other => panic!("unexpected {other:?}"),
    }
}

#[test]
fn opening_the_current_worktree() {
    let mut state = XlaudeState::new();
    state.worktrees.insert("r/feat".to_string(), info("r", "feat", "/w/r-feat"));
    assert!(matches!(decide_open_current(&state, false, false, "r", "feat", true), CurrentOpen::NotACandidate));
    assert!(matches!(decide_open_current(&state, true, true, "r", "feat", true), CurrentOpen::NotACandidate));
    match decide_open_current(&state, true, false, "r", "feat", false) {
        CurrentOpen::Open(k) => assert_eq!(k, "r/feat"),
        other => panic!("unexpected {other:?}"),
    }
    match decide_open_current(&state, true, false, "r", "other", true) {
        CurrentOpen::AskToAdd(k) => assert_eq!(k, "r/other"),
        other => panic!("unexpected {other:?}"),
    }
    assert!(matches!(decide_open_current(&state, true, false, "r", "other", false), CurrentOpen::Skip));
}
