use xlaude::dashboard_state::{ClaudeStatus, DashboardMode, DashboardState, WorktreeDisplay};
use xlaude::input::{handle_input, InputResult, Key};
use xlaude::state::XlaudeState;

fn display(name: &str, repo: &str) -> WorktreeDisplay {
    WorktreeDisplay {
        name: name.to_string(),
        repo: repo.to_string(),
        key: format!("{repo}/{name}"),
        has_session: false,
        claude_status: ClaudeStatus::NotRunning,
    }
}

fn sparse_state() -> DashboardState {
    let mut s = DashboardState::new();
    s.worktrees = vec![display("a", "r"), display("b", "r")];
    s.list_index_map = vec![None, Some(0), None, Some(1)];
    s.selected = 1;
    s
}

#[test]
fn moving_down_skips_empty_slots_and_stops_at_end() {
    let mut s = sparse_state();
    s.move_selection_down();
    assert_eq!(s.selected, 3);
    s.move_selection_down();
    assert_eq!(s.selected, 3);
}

#[test]
fn moving_up_skips_empty_slots_and_stops_at_start() {
    let mut s = sparse_state();
    s.selected = 3;
    s.move_selection_up();
    assert_eq!(s.selected, 1);
    s.move_selection_up();
    assert_eq!(s.selected, 1);
}

#[test]
fn moving_on_empty_list_does_nothing() {
    let mut s = DashboardState::new();
    s.move_selection_down();
    assert_eq!(s.selected, 0);
    s.move_selection_up();
    assert_eq!(s.selected, 0);
}

#[test]
fn selection_past_the_end_moves_up_to_last_entry() {
    let mut s = sparse_state();
    s.selected = 9;
    s.move_selection_up();
    assert_eq!(s.selected, 3);
}

#[test]
fn selected_entry_and_lookup_by_name() {
    let mut s = sparse_state();
    assert_eq!(s.get_selected_worktree().unwrap().name, "a");
    s.selected = 2;
    assert!(s.get_selected_worktree().is_none());
    assert_eq!(s.find_worktree_by_name("b"), Some(3));
    assert_eq!(s.find_worktree_by_name("zzz"), None);
    s.focus_on_worktree("b");
    assert_eq!(s.selected, 3);
    s.focus_on_worktree("zzz");
    assert_eq!(s.selected, 3);
}

#[test]
fn status_message_counts_down_then_clears() {
    let mut s = DashboardState::new();
    s.set_status_message("hello".to_string());
    assert_eq!(s.status_message_timer, 5);
    for _ in 0..5 {
        s.update_status_timer();
    }
    assert_eq!(s.status_message.as_deref(), Some("hello"));
    assert_eq!(s.status_message_timer, 0);
    s.update_status_timer();
    assert!(s.status_message.is_none());
}

#[test]
fn keys_in_normal_mode() {
    let mut s = sparse_state();
    let mut reg = XlaudeState::new();
    assert!(matches!(handle_input(Key::Char('j'), &mut s, &mut reg), InputResult::Continue));
    assert_eq!(s.selected, 3);
    match handle_input(Key::Enter, &mut s, &mut reg) {
        InputResult::Attach(n) => assert_eq!(n, "b"),
        other => panic!("unexpected {other:?}"),
    }
    assert!(matches!(handle_input(Key::Char('?'), &mut s, &mut reg), InputResult::Continue));
    assert!(matches!(s.mode, DashboardMode::Help));
    handle_input(Key::Char('x'), &mut s, &mut reg);
    assert!(matches!(s.mode, DashboardMode::Normal));
    assert!(matches!(handle_input(Key::Char('q'), &mut s, &mut reg), InputResult::Exit));
}

#[test]
fn create_dialog_filters_characters_and_returns_name() {
    let mut s = sparse_state();
    let mut reg = XlaudeState::new();
    handle_input(Key::Char('n'), &mut s, &mut reg);
    match &s.mode {
        DashboardMode::Create { input, repo } => {
            assert_eq!(input, "");
            assert_eq!(repo.as_deref(), Some("r"));
        }
        other => panic!("unexpected {other:?}"),
    }
    for c in ['f', '!', 'x', '-', '1', ' '] {
        handle_input(Key::Char(c), &mut s, &mut reg);
    }
    handle_input(Key::Backspace, &mut s, &mut reg);
    match &s.mode {
        DashboardMode::Create { input, .. } => assert_eq!(input, "fx-"),
        other => panic!("unexpected {other:?}"),
    }
    match handle_input(Key::Enter, &mut s, &mut reg) {
        InputResult::CreateWorktree(name, repo) => {
            assert_eq!(name.as_deref(), Some("fx-"));
            assert_eq!(repo.as_deref(), Some("r"));
        }
        other => panic!("unexpected {other:?}"),
    }
    assert!(matches!(s.mode, DashboardMode::Normal));
}

#[test]
fn create_dialog_with_blank_name_and_escape() {
    let mut s = DashboardState::new();
    let mut reg = XlaudeState::new();
    handle_input(Key::Char('N'), &mut s, &mut reg);
    match handle_input(Key::Enter, &mut s, &mut reg) {
        InputResult::CreateWorktree(name, repo) => {
            assert!(name.is_none());
            assert!(repo.is_none());
        }
        other => panic!("unexpected {other:?}"),
    }
    handle_input(Key::Char('n'), &mut s, &mut reg);
    assert!(matches!(handle_input(Key::Esc, &mut s, &mut reg), InputResult::Exit));
}

#[test]
fn config_dialog_stores_trimmed_editor() {
    let mut s = DashboardState::new();
    let mut reg = XlaudeState::new();
    handle_input(Key::Char('c'), &mut s, &mut reg);
    for c in [' ', 'v', 'i', 'm', ' '] {
        handle_input(Key::Char(c), &mut s, &mut reg);
    }
    assert!(matches!(handle_input(Key::Enter, &mut s, &mut reg), InputResult::Continue));
    assert_eq!(reg.editor.as_deref(), Some("vim"));
    assert_eq!(s.status_message.as_deref(), Some("Editor configured"));
    assert!(matches!(s.mode, DashboardMode::Normal));
    handle_input(Key::Char('c'), &mut s, &mut reg);
    handle_input(Key::Char('x'), &mut s, &mut reg);
    handle_input(Key::Esc, &mut s, &mut reg);
    assert_eq!(reg.editor.as_deref(), Some("vim"));
}
