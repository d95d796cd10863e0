//! Key handling of the terminal dashboard: a state machine over the
//! dashboard's mode.

use vstd::prelude::*;

use crate::command::owned;
use crate::dashboard_state::{entry_at, DashboardMode, DashboardState};
use crate::state::XlaudeState;
use crate::text::{chars_of, push_char, string_of, trim_text, trimmed};

verus! {

broadcast use vstd::string::group_string_axioms;

/// A key press, as far as the dashboard tells keys apart.
#[derive(Debug, Clone, Copy, PartialEq, Eq, Structural)]
pub enum Key {
    Esc,
    Enter,
    Backspace,
    Up,
    Down,
    Char(char),
    Other,
}

/// What the dashboard's loop does after a key.
#[derive(Debug)]
pub enum InputResult {
    Exit,
    Attach(String),
    CreateWorktree(Option<String>, Option<String>),
    Continue,
}

/// What `char::is_alphanumeric` says of a character (Unicode letters and
/// numbers).
pub uninterp spec fn alphanumeric(c: char) -> bool;

/// Relies on `char::is_alphanumeric`.
#[verifier::external_body]
fn is_alphanumeric(c: char) -> (r: bool)
    ensures
        r == alphanumeric(c),
{
    c.is_alphanumeric()
}

/// A character accepted in a new workspace's name.
pub open spec fn name_char(c: char) -> bool {
    alphanumeric(c) || c == '-' || c == '_'
}

/// The text with its last character removed, if any.
pub open spec fn without_last(s: Seq<char>) -> Seq<char> {
    if s.len() > 0 {
        s.drop_last()
    } else {
        s
    }
}

fn pop_char(s: &mut String)
    ensures
        final(s)@ == without_last(old(s)@),
{
    let mut cs = chars_of(s.as_str());
    if cs.len() > 0 {
        cs.pop();
        *s = string_of(&cs);
    }
}

/// The text of an edit field after `key`.
pub open spec fn edited(key: Key, input: Seq<char>, accept: spec_fn(char) -> bool) -> Seq<char> {
    match key {
        Key::Backspace => without_last(input),
        Key::Char(c) => if accept(c) {
            input.push(c)
        } else {
            input
        },
        _ => input,
    }
}

/// The message shown once an editor command is configured.
pub open spec fn editor_configured_text() -> Seq<char> {
    "Editor configured"@
}

fn take_mode(state: &mut DashboardState) -> (r: DashboardMode)
    ensures
        r == old(state).mode,
        final(state).mode is Normal,
        final(state).worktrees == old(state).worktrees,
        final(state).selected == old(state).selected,
        final(state).list_index_map == old(state).list_index_map,
        final(state).status_message == old(state).status_message,
        final(state).status_message_timer == old(state).status_message_timer,
{
    let mut m = DashboardMode::Normal;
    std::mem::swap(&mut m, &mut state.mode);
    m
}

/// Handles a key in the editor dialog: Esc closes it, Enter stores the
/// trimmed command (if not blank) and closes it, other keys edit the text.
/// Returns whether the dialog closed.
fn handle_config_input(key: Key, editor_input: &mut String, xlaude_state: &mut XlaudeState) -> (r: bool)
    ensures
        r == (key == Key::Esc || key == Key::Enter),
        key == Key::Enter && trimmed(old(editor_input)@).len() > 0 ==> (final(xlaude_state).editor matches Some(
            e,
        ) && e@ == trimmed(old(editor_input)@)),
        !(key == Key::Enter && trimmed(old(editor_input)@).len() > 0) ==> final(xlaude_state).editor
            == old(xlaude_state).editor,
        final(xlaude_state).worktrees == old(xlaude_state).worktrees,
        final(xlaude_state).shell == old(xlaude_state).shell,
        !r ==> final(editor_input)@ == edited(key, old(editor_input)@, |c: char| true),
{
    match key {
        Key::Esc => true,
        Key::Enter => {
            let editor = trim_text(editor_input.as_str());
            if !editor.as_str().is_empty() {
                xlaude_state.editor = Some(editor);
            }
            true
        },
        Key::Backspace => {
            pop_char(editor_input);
            false
        },
        Key::Char(c) => {
            push_char(editor_input, c);
            false
        },
        _ => false,
    }
}

/// Handles a key in the create dialog: Esc leaves, Enter asks for a
/// workspace named by the trimmed text (none when blank), other keys edit
/// the text, accepting only name characters.
fn handle_create_input(key: Key, input: &mut String) -> (r: InputResult)
    ensures
        key == Key::Esc ==> r is Exit,
        key == Key::Enter ==> (r matches InputResult::CreateWorktree(n, repo) && repo is None && if trimmed(
            old(input)@,
        ).len() == 0 {
            n is None
        } else {
            n matches Some(s) && s@ == trimmed(old(input)@)
        }),
        key != Key::Esc && key != Key::Enter ==> (r is Continue && final(input)@ == edited(
            key,
            old(input)@,
            |c: char| name_char(c),
        )),
{
    match key {
        Key::Esc => InputResult::Exit,
        Key::Enter => {
            let t = trim_text(input.as_str());
            let name = if t.as_str().is_empty() {
                None
            } else {
                Some(t)
            };
            InputResult::CreateWorktree(name, None)
        },
        Key::Backspace => {
            pop_char(input);
            InputResult::Continue
        },
        Key::Char(c) => {
            if is_alphanumeric(c) || c == '-' || c == '_' {
                push_char(input, c);
            }
            InputResult::Continue
        },
        _ => InputResult::Continue,
    }
}

/// The repository offered for a new workspace: the selected entry's, else
/// the first listed entry's.
pub open spec fn offered_repo(state: DashboardState) -> Option<String> {
    match entry_at(state.list_index_map@, state.worktrees@, state.selected as int) {
        Some(w) => Some(w.repo),
        None => if state.worktrees@.len() > 0 {
            Some(state.worktrees@[0].repo)
        } else {
            None
        },
    }
}

/// What a key does in the list view: quit, open the help or a dialog,
/// attach to the selected entry, or move the selection.
pub open spec fn normal_outcome(key: Key, before: DashboardState, after: DashboardState, r: InputResult) -> bool {
    &&& (key == Key::Char('q') || key == Key::Char('Q')) ==> (r is Exit && after.mode is Normal)
    &&& (key == Key::Char('?') || key == Key::Char('h')) ==> (r is Continue && after.mode is Help)
    &&& (key == Key::Char('c') || key == Key::Char('C')) ==> (r is Continue && (after.mode
            matches DashboardMode::Config { editor_input } && editor_input@.len() == 0))
    &&& (key == Key::Char('n') || key == Key::Char('N')) ==> (r is Continue && (after.mode
            matches DashboardMode::Create { input, repo } && input@.len() == 0 && repo == offered_repo(before)))
    &&& key == Key::Enter ==> (after.mode is Normal && match entry_at(
            before.list_index_map@,
            before.worktrees@,
            before.selected as int,
        ) {
            Some(w) => r matches InputResult::Attach(n) && n == w.name,
            None => r is Continue,
        })
    &&& (key == Key::Up || key == Key::Char('k') || key == Key::Down || key == Key::Char('j')) ==> (r is Continue
            && after.mode is Normal)
    &&& !(key == Key::Up || key == Key::Char('k') || key == Key::Down || key == Key::Char('j'))
            ==> after.selected == before.selected
    &&& (key == Key::Up || key == Key::Char('k')) ==> ((exists|j: int|
            crate::dashboard_state::prev_slot(before.list_index_map@, before.selected as int, j))
            ==> crate::dashboard_state::prev_slot(
            before.list_index_map@,
            before.selected as int,
            after.selected as int,
        ))
    &&& (key == Key::Down || key == Key::Char('j')) ==> ((exists|j: int|
            crate::dashboard_state::next_slot(before.list_index_map@, before.selected as int, j))
            ==> crate::dashboard_state::next_slot(
            before.list_index_map@,
            before.selected as int,
            after.selected as int,
        ))
}

fn handle_normal_input(key: Key, state: &mut DashboardState) -> (r: InputResult)
    requires
        old(state).mode is Normal,
    ensures
        final(state).worktrees == old(state).worktrees,
        final(state).list_index_map == old(state).list_index_map,
        normal_outcome(key, *old(state), *final(state), r),
{
    match key {
        Key::Char('q') | Key::Char('Q') => {
            return InputResult::Exit;
        },
        Key::Char('?') | Key::Char('h') => {
            state.mode = DashboardMode::Help;
        },
        Key::Up | Key::Char('k') => {
            state.move_selection_up();
        },
        Key::Down | Key::Char('j') => {
            state.move_selection_down();
        },
        Key::Enter => {
            if let Some(worktree) = state.get_selected_worktree() {
                return InputResult::Attach(worktree.name.clone());
            }
        },
        Key::Char('n') | Key::Char('N') => {
            let repo = if let Some(worktree) = state.get_selected_worktree() {
                Some(worktree.repo.clone())
            } else if state.worktrees.len() > 0 {
                Some(state.worktrees[0].repo.clone())
            } else {
                None
            };
            state.mode = DashboardMode::Create { input: String::new(), repo };
        },
        Key::Char('c') | Key::Char('C') => {
            state.mode = DashboardMode::Config { editor_input: String::new() };
        },
        _ => {},
    }
    InputResult::Continue
}

/// Handles one key press. The help dialog closes on any key. In the editor
/// dialog, Esc or Enter close it (Enter stores a non-blank command in the
/// registry, which the caller then saves). In the create dialog, Enter asks
/// for the workspace with the dialog's repository and Esc leaves the
/// dashboard. Otherwise the keys navigate, open dialogs, attach or quit.
pub fn handle_input(key: Key, state: &mut DashboardState, xlaude_state: &mut XlaudeState) -> (r:
    InputResult)
    ensures
        final(state).worktrees == old(state).worktrees,
        final(state).list_index_map == old(state).list_index_map,
        final(xlaude_state).worktrees == old(xlaude_state).worktrees,
        final(xlaude_state).shell == old(xlaude_state).shell,
        !(old(state).mode is Config) ==> final(xlaude_state).editor == old(xlaude_state).editor,
        old(state).mode is Help ==> (r is Continue && final(state).mode is Normal),
        match old(state).mode {
            DashboardMode::Config { editor_input } => r is Continue && if key == Key::Esc || key
                == Key::Enter {
                final(state).mode is Normal && (key == Key::Enter && trimmed(editor_input@).len() > 0
                    ==> (final(xlaude_state).editor matches Some(e) && e@ == trimmed(editor_input@)))
            } else {
                (final(state).mode matches DashboardMode::Config { editor_input: e2 } && e2@ == edited(
                    key,
                    editor_input@,
                    |c: char| true,
                )) && final(xlaude_state).editor == old(xlaude_state).editor
            },
            _ => true,
        },
        old(state).mode matches DashboardMode::Create { input, repo } ==> if key == Key::Esc {
            r is Exit && final(state).mode is Normal
        } else if key == Key::Enter {
            final(state).mode is Normal && (r matches InputResult::CreateWorktree(n, rp) && rp == repo
                && if trimmed(input@).len() == 0 {
                n is None
            } else {
                n matches Some(s) && s@ == trimmed(input@)
            })
        } else {
            r is Continue && (final(state).mode matches DashboardMode::Create { input: i2, repo: r2 }
                && r2 == repo && i2@ == edited(key, input@, |c: char| name_char(c)))
        },
        old(state).mode is Normal ==> normal_outcome(key, *old(state), *final(state), r),
{
    let mode = take_mode(state);
    match mode {
        DashboardMode::Help => InputResult::Continue,
        DashboardMode::Config { mut editor_input } => {
            let closed = handle_config_input(key, &mut editor_input, xlaude_state);
            if closed {
                if key == Key::Enter {
                    state.set_status_message(owned("Editor configured"));
                }
            } else {
                state.mode = DashboardMode::Config { editor_input };
            }
            InputResult::Continue
        },
        DashboardMode::Create { mut input, repo } => {
            let result = handle_create_input(key, &mut input);
            match result {
                InputResult::CreateWorktree(name, _) => InputResult::CreateWorktree(name, repo),
                InputResult::Continue => {
                    state.mode = DashboardMode::Create { input, repo };
                    InputResult::Continue
                },
                other => other,
            }
        },
        DashboardMode::Normal => handle_normal_input(key, state),
    }
}

} // verus!
