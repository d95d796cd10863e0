use xlaude::dashboard_state::{ClaudeStatus, ClaudeStatusDetector, DashboardState};
use xlaude::state::{Timestamp, WorktreeInfo, XlaudeState};
use xlaude::text::{sanitize_session_name, session_name_matches};
use xlaude::command::Tool;
use xlaude::worktree_manager::{parse_session_list, PaneCapture, SessionInfo, WorktreeManager};

fn info(repo: &str, name: &str) -> WorktreeInfo {
    WorktreeInfo {
        name: name.to_string(),
        branch: name.to_string(),
        path: format!("/w/{repo}-{name}"),
        repo_name: repo.to_string(),
        created_at: Timestamp { secs: 0, nanos: 0 },
    }
}

fn registry(entries: &[(&str, &str)]) -> XlaudeState {
    let mut s = XlaudeState::new();
    for (repo, name) in entries {
        s.worktrees.insert(XlaudeState::make_key(repo, name), info(repo, name));
    }
    s
}

fn session(label: &str, attached: bool) -> SessionInfo {
    SessionInfo { project: label.to_string(), is_attached: attached }
}

#[test]
fn sanitizing_replaces_dash_and_dot() {
    assert_eq!(sanitize_session_name("feat-1.2"), "feat_1_2");
    assert_eq!(sanitize_session_name("plain"), "plain");
    assert_eq!(sanitize_session_name(""), "");
}

#[test]
fn name_matching_literal_and_sanitized() {
    assert!(session_name_matches("feat-1.2", "feat_1_2"));
    assert!(session_name_matches("feat-1.2", "feat-1.2"));
    assert!(!session_name_matches("feat_1_2", "feat-1.2"));
    assert!(!session_name_matches("feat-1", "feat-2"));
}

#[test]
fn matching_is_the_same_for_cleanup_status_and_display() {
    let state_reg = registry(&[("repo", "my-feature.v2")]);
    let sessions = vec![session("my_feature_v2", false)];
    let mgr = WorktreeManager::new();
    assert!(mgr.cleanup_orphaned_sessions(&state_reg, &sessions).is_empty());
    let targets = mgr.status_targets(&state_reg, &sessions);
    assert_eq!(targets, vec![("my-feature.v2".to_string(), false)]);
    let mut dash = DashboardState::new();
    mgr.refresh_worktrees(&mut dash, &state_reg, &sessions);
    assert!(dash.worktrees[0].has_session);
}

#[test]
fn cleanup_kills_only_unmatched_sessions() {
    let reg = registry(&[("r", "alpha"), ("r", "beta-1")]);
    let sessions = vec![
        session("alpha", true),
        session("beta_1", false),
        session("stray", false),
        session("gamma", true),
    ];
    let mgr = WorktreeManager::new();
    let kill = mgr.cleanup_orphaned_sessions(&reg, &sessions);
    assert_eq!(kill, vec!["stray".to_string(), "gamma".to_string()]);
}

#[test]
fn cleanup_with_empty_registry_kills_all() {
    let reg = XlaudeState::new();
    let sessions = vec![session("a", false), session("b", true)];
    let kill = WorktreeManager::new().cleanup_orphaned_sessions(&reg, &sessions);
    assert_eq!(kill, vec!["a".to_string(), "b".to_string()]);
}

#[test]
fn refresh_sorts_by_repo_then_name() {
    let reg = registry(&[("zeta", "a"), ("alpha", "m"), ("alpha", "b")]);
    let sessions = vec![session("m", true), session("orphan", false)];
    let mut dash = DashboardState::new();
    dash.claude_statuses.push(("m".to_string(), ClaudeStatus::Working));
    let kill = WorktreeManager::new().refresh_worktrees(&mut dash, &reg, &sessions);
    assert_eq!(kill, vec!["orphan".to_string()]);
    let order: Vec<(String, String)> =
        dash.worktrees.iter().map(|w| (w.repo.clone(), w.name.clone())).collect();
    assert_eq!(
        order,
        vec![
            ("alpha".to_string(), "b".to_string()),
            ("alpha".to_string(), "m".to_string()),
            ("zeta".to_string(), "a".to_string()),
        ]
    );
    assert_eq!(dash.worktrees[1].key, "alpha/m");
    assert!(dash.worktrees[1].has_session);
    assert_eq!(dash.worktrees[1].claude_status, ClaudeStatus::Working);
    assert!(!dash.worktrees[0].has_session);
    assert_eq!(dash.worktrees[0].claude_status, ClaudeStatus::NotRunning);
}

#[test]
fn status_targets_skip_unmatched_sessions() {
    let reg = registry(&[("r", "known-1")]);
    let sessions = vec![session("unknown", true), session("known_1", true)];
    let targets = WorktreeManager::new().status_targets(&reg, &sessions);
    assert_eq!(targets, vec![("known-1".to_string(), true)]);
}

#[test]
fn statuses_replaced_and_previews_kept_for_unattached() {
    let mut dash = DashboardState::new();
    dash.claude_statuses.push(("old".to_string(), ClaudeStatus::Idle));
    let captures = vec![
        PaneCapture {
            worktree_name: "a".to_string(),
            is_attached: true,
            output: "working (esc to interrupt)".to_string(),
        },
        PaneCapture {
            worktree_name: "b".to_string(),
            is_attached: false,
            output: "> \n? for shortcuts".to_string(),
        },
    ];
    WorktreeManager::new().update_claude_statuses(&mut dash, captures);
    assert_eq!(
        dash.claude_statuses,
        vec![("a".to_string(), ClaudeStatus::Working), ("b".to_string(), ClaudeStatus::Idle)]
    );
    assert_eq!(dash.preview_cache, vec![("b".to_string(), "> \n? for shortcuts".to_string())]);
}

#[test]
fn session_listing_is_parsed() {
    let sessions = parse_session_list("alpha:1\nbeta_1:0\nno separator\nx:y:2\n");
    let got: Vec<(String, bool)> =
        sessions.iter().map(|s| (s.project.clone(), s.is_attached)).collect();
    assert_eq!(
        got,
        vec![
            ("alpha".to_string(), true),
            ("beta_1".to_string(), false),
            ("x:y".to_string(), true),
        ]
    );
    assert!(parse_session_list("").is_empty());
}

#[test]
fn multiplexer_commands_use_sanitized_labels() {
    let mgr = WorktreeManager::new();
    let k = mgr.kill_session("feat-1");
    assert_eq!(k.tool, Tool::Tmux);
    assert_eq!(k.args, vec!["kill-session", "-t", "feat_1"]);
    assert_eq!(mgr.session_exists("a.b").args, vec!["has-session", "-t", "a_b"]);
    assert_eq!(
        mgr.create_session("a-b", "/w/r-a-b").args,
        vec!["new-session", "-d", "-s", "a_b", "-c", "/w/r-a-b"]
    );
    assert_eq!(mgr.attach_session("x").args, vec!["attach-session", "-t", "x"]);
    assert_eq!(
        mgr.list_sessions().args,
        vec!["list-sessions", "-F", "#{session_name}:#{session_attached}"]
    );
    assert_eq!(
        mgr.capture_pane("a.b").args,
        vec!["capture-pane", "-p", "-t", "a_b", "-S", "-100"]
    );
}

#[test]
fn output_classification_rules() {
    let d = ClaudeStatusDetector::new();
    assert_eq!(d.analyze_output("Do you want to proceed?\nesc to interrupt"), ClaudeStatus::WaitingForApproval);
    assert_eq!(d.analyze_output("Thinking... (esc to interrupt)"), ClaudeStatus::Working);
    assert_eq!(d.analyze_output("> \n? for shortcuts"), ClaudeStatus::Idle);
    assert_eq!(d.analyze_output("$ "), ClaudeStatus::NotRunning);
    assert_eq!(d.analyze_output(""), ClaudeStatus::NotRunning);
}
