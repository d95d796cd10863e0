//! The dashboard's projection of the registry: a display list, a parallel
//! array of navigable slots, the current selection, and the transient
//! status line.

use vstd::prelude::*;

use crate::text::{contains_text, has_substring, text_eq};

verus! {

/// What a session appears to be doing, read from its recent output.
#[derive(Clone, Copy, Debug, PartialEq, Eq, Structural)]
pub enum ClaudeStatus {
    /// Waiting at its input prompt.
    Idle,
    /// Busy with a request.
    Working,
    /// Waiting for the user to approve an action.
    WaitingForApproval,
    /// No agent process is running in the session.
    NotRunning,
}

/// The marker of a permission request.
pub open spec fn approval_marker() -> Seq<char> {
    "Do you want to"@
}

/// The marker shown while a request is being worked on.
pub open spec fn working_marker() -> Seq<char> {
    "esc to interrupt"@
}

/// The marker shown under an idle input prompt.
pub open spec fn prompt_marker() -> Seq<char> {
    "? for shortcuts"@
}

/// The rule table, first match wins: a permission request means awaiting
/// approval, the interrupt hint means working, the prompt hint means idle,
/// and output with none of them means the agent is not running.
pub open spec fn status_of_output(out: Seq<char>) -> ClaudeStatus {
    if has_substring(out, approval_marker()) {
        ClaudeStatus::WaitingForApproval
    } else if has_substring(out, working_marker()) {
        ClaudeStatus::Working
    } else if has_substring(out, prompt_marker()) {
        ClaudeStatus::Idle
    } else {
        ClaudeStatus::NotRunning
    }
}

/// Classifies captured session output.
#[derive(Debug)]
pub struct ClaudeStatusDetector {}

impl ClaudeStatusDetector {
    pub fn new() -> (r: Self) {
        ClaudeStatusDetector {  }
    }

    /// The status that the captured output shows.
    pub fn analyze_output(&self, output: &str) -> (r: ClaudeStatus)
        ensures
            r == status_of_output(output@),
    {
        if contains_text(output, "Do you want to") {
            ClaudeStatus::WaitingForApproval
        } else if contains_text(output, "esc to interrupt") {
            ClaudeStatus::Working
        } else if contains_text(output, "? for shortcuts") {
            ClaudeStatus::Idle
        } else {
            ClaudeStatus::NotRunning
        }
    }
}

/// One line of the dashboard's workspace list.
#[derive(Debug)]
pub struct WorktreeDisplay {
    pub name: String,
    pub repo: String,
    pub key: String,
    pub has_session: bool,
    pub claude_status: ClaudeStatus,
}

impl Clone for WorktreeDisplay {
    fn clone(&self) -> (r: Self)
        ensures
            r == *self,
    {
        WorktreeDisplay {
            name: self.name.clone(),
            repo: self.repo.clone(),
            key: self.key.clone(),
            has_session: self.has_session,
            claude_status: self.claude_status,
        }
    }
}

/// The dialog the dashboard is showing, if any.
#[derive(Debug)]
pub enum DashboardMode {
    Normal,
    Help,
    Create { input: String, repo: Option<String> },
    Config { editor_input: String },
}

impl Default for DashboardMode {
    fn default() -> (r: Self)
        ensures
            r is Normal,
    {
        DashboardMode::Normal
    }
}

/// Ticks a status message stays on screen after it is set.
pub const STATUS_MESSAGE_TICKS: u8 = 5;

/// Slot `j` of the navigable-index array points at an entry.
pub open spec fn navigable(m: Seq<Option<usize>>, j: int) -> bool {
    0 <= j < m.len() && m[j] is Some
}

/// The nearest navigable slot after `from`, if there is one.
pub open spec fn next_slot(m: Seq<Option<usize>>, from: int, to: int) -> bool {
    from < to && navigable(m, to) && forall|j: int| from < j < to ==> !navigable(m, j)
}

/// The nearest navigable slot before `from`, if there is one.
pub open spec fn prev_slot(m: Seq<Option<usize>>, from: int, to: int) -> bool {
    to < from && navigable(m, to) && forall|j: int| to < j < from ==> !navigable(m, j)
}

/// The entry shown in list slot `slot`, if the slot points at one.
pub open spec fn entry_at(m: Seq<Option<usize>>, w: Seq<WorktreeDisplay>, slot: int) -> Option<
    WorktreeDisplay,
> {
    if navigable(m, slot) && (m[slot]->0 as int) < w.len() {
        Some(w[m[slot]->0 as int])
    } else {
        None
    }
}

/// Slot `j` shows an entry with the workspace name `name`.
pub open spec fn shows_name(
    m: Seq<Option<usize>>,
    w: Seq<WorktreeDisplay>,
    j: int,
    name: Seq<char>,
) -> bool {
    entry_at(m, w, j) is Some && entry_at(m, w, j)->0.name@ == name
}

/// Slot `i` is the first that shows an entry named `name`.
pub open spec fn first_slot_named(
    m: Seq<Option<usize>>,
    w: Seq<WorktreeDisplay>,
    name: Seq<char>,
    i: int,
) -> bool {
    shows_name(m, w, i, name) && forall|j: int| 0 <= j < i ==> !shows_name(m, w, j, name)
}

/// The dashboard's view state.
#[derive(Debug)]
pub struct DashboardState {
    pub mode: DashboardMode,
    pub worktrees: Vec<WorktreeDisplay>,
    pub selected: usize,
    pub list_index_map: Vec<Option<usize>>,
    pub status_message: Option<String>,
    pub status_message_timer: u8,
    /// Last captured output of each unattached session, by workspace name.
    pub preview_cache: Vec<(String, String)>,
    /// Last classified status of each session, by workspace name.
    pub claude_statuses: Vec<(String, ClaudeStatus)>,
    pub status_detector: ClaudeStatusDetector,
}

impl DashboardState {
    /// An empty dashboard showing no dialog, with the first slot selected.
    pub fn new() -> (r: Self)
        ensures
            r.mode is Normal,
            r.worktrees@.len() == 0,
            r.selected == 0,
            r.list_index_map@.len() == 0,
            r.status_message is None,
            r.status_message_timer == 0,
            r.preview_cache@.len() == 0,
            r.claude_statuses@.len() == 0,
    {
        DashboardState {
            mode: DashboardMode::default(),
            worktrees: Vec::new(),
            selected: 0,
            list_index_map: Vec::new(),
            status_message: None,
            status_message_timer: 0,
            preview_cache: Vec::new(),
            claude_statuses: Vec::new(),
            status_detector: ClaudeStatusDetector::new(),
        }
    }

    /// Shows `message` for the next few ticks.
    pub fn set_status_message(&mut self, message: String)
        ensures
            final(self).status_message == Some(message),
            final(self).status_message_timer == STATUS_MESSAGE_TICKS,
            final(self).mode == old(self).mode,
            final(self).selected == old(self).selected,
            final(self).worktrees == old(self).worktrees,
            final(self).list_index_map == old(self).list_index_map,
    {
        self.status_message = Some(message);
        self.status_message_timer = STATUS_MESSAGE_TICKS;
    }

    /// Removes the status message.
    pub fn clear_status_message(&mut self)
        ensures
            final(self).status_message is None,
            final(self).status_message_timer == 0,
            final(self).selected == old(self).selected,
            final(self).worktrees == old(self).worktrees,
            final(self).list_index_map == old(self).list_index_map,
    {
        self.status_message = None;
        self.status_message_timer = 0;
    }

    /// One tick of the status line: the timer counts down while a message is
    /// shown, and the message goes once the timer is at zero.
    pub fn update_status_timer(&mut self)
        ensures
            old(self).status_message is None ==> final(self).status_message is None
                && final(self).status_message_timer == old(self).status_message_timer,
            old(self).status_message is Some && old(self).status_message_timer > 0 ==> final(self).status_message == old(self).status_message && final(self).status_message_timer
                == old(self).status_message_timer - 1,
            old(self).status_message is Some && old(self).status_message_timer == 0 ==> final(self).status_message is None && final(self).status_message_timer == 0,
            final(self).selected == old(self).selected,
            final(self).worktrees == old(self).worktrees,
            final(self).list_index_map == old(self).list_index_map,
    {
        if self.status_message.is_some() {
            if self.status_message_timer > 0 {
                self.status_message_timer -= 1;
            } else {
                self.clear_status_message();
            }
        }
    }

    /// The entry at the selected slot, if the slot points at one.
    pub fn get_selected_worktree(&self) -> (r: Option<&WorktreeDisplay>)
        ensures
            match r {
                Some(w) => entry_at(self.list_index_map@, self.worktrees@, self.selected as int)
                    == Some(*w),
                None => entry_at(self.list_index_map@, self.worktrees@, self.selected as int)
                    is None,
            },
    {
        if self.selected < self.list_index_map.len() {
            match self.list_index_map[self.selected] {
                Some(idx) => {
                    if idx < self.worktrees.len() {
                        Some(&self.worktrees[idx])
                    } else {
                        None
                    }
                },
                None => None,
            }
        } else {
            None
        }
    }

    /// Moves the selection to the nearest navigable slot above it; stays
    /// where it is when there is none.
    pub fn move_selection_up(&mut self)
        ensures
            (exists|j: int| prev_slot(old(self).list_index_map@, old(self).selected as int, j))
                ==> prev_slot(
                old(self).list_index_map@,
                old(self).selected as int,
                final(self).selected as int,
            ),
            !(exists|j: int| prev_slot(old(self).list_index_map@, old(self).selected as int, j))
                ==> final(self).selected == old(self).selected,
            final(self).worktrees == old(self).worktrees,
            final(self).list_index_map == old(self).list_index_map,
            final(self).mode == old(self).mode,
    {
        let ghost m = self.list_index_map@;
        let ghost from = self.selected as int;
        let mut prev: usize = self.selected;
        while prev > 0
            invariant
                prev <= from,
                *self == *old(self),
                m == self.list_index_map@,
                from == self.selected,
                forall|j: int| prev <= j < from ==> !navigable(m, j),
            decreases prev,
        {
            prev -= 1;
            if prev < self.list_index_map.len() && self.list_index_map[prev].is_some() {
                proof {
                    assert(prev_slot(m, from, prev as int));
                }
                self.selected = prev;
                return;
            }
        }
        proof {
            assert forall|j: int| !prev_slot(m, from, j) by {
                if prev_slot(m, from, j) {
                    assert(!navigable(m, j));
                }
            }
        }
    }

    /// Moves the selection to the nearest navigable slot below it; stays
    /// where it is when there is none.
    pub fn move_selection_down(&mut self)
        ensures
            (exists|j: int| next_slot(old(self).list_index_map@, old(self).selected as int, j))
                ==> next_slot(
                old(self).list_index_map@,
                old(self).selected as int,
                final(self).selected as int,
            ),
            !(exists|j: int| next_slot(old(self).list_index_map@, old(self).selected as int, j))
                ==> final(self).selected == old(self).selected,
            final(self).worktrees == old(self).worktrees,
            final(self).list_index_map == old(self).list_index_map,
            final(self).mode == old(self).mode,
    {
        let ghost m = self.list_index_map@;
        let ghost from = self.selected as int;
        if self.selected >= self.list_index_map.len() {
            proof {
                assert forall|j: int| !next_slot(m, from, j) by {}
            }
            return;
        }
        let mut next: usize = self.selected + 1;
        while next < self.list_index_map.len()
            invariant
                from < next <= m.len(),
                *self == *old(self),
                m == self.list_index_map@,
                from == self.selected,
                forall|j: int| from < j < next ==> !navigable(m, j),
            decreases m.len() - next,
        {
            if self.list_index_map[next].is_some() {
                proof {
                    assert(next_slot(m, from, next as int));
                }
                self.selected = next;
                return;
            }
            next += 1;
        }
        proof {
            assert forall|j: int| !next_slot(m, from, j) by {
                if next_slot(m, from, j) {
                    assert(!navigable(m, j));
                }
            }
        }
    }

    /// The first slot whose entry has the workspace name `name`.
    pub fn find_worktree_by_name(&self, name: &str) -> (r: Option<usize>)
        ensures
            match r {
                Some(i) => first_slot_named(self.list_index_map@, self.worktrees@, name@, i as int),
                None => forall|j: int| !shows_name(self.list_index_map@, self.worktrees@, j, name@),
            },
    {
        let mut idx: usize = 0;
        while idx < self.list_index_map.len()
            invariant
                idx <= self.list_index_map.len(),
                forall|j: int| 0 <= j < idx ==> !shows_name(self.list_index_map@, self.worktrees@, j, name@),
            decreases self.list_index_map.len() - idx,
        {
            if let Some(w) = self.list_index_map[idx] {
                if w < self.worktrees.len() && text_eq(self.worktrees[w].name.as_str(), name) {
                    return Some(idx);
                }
            }
            idx += 1;
        }
        proof {
            assert forall|j: int| !shows_name(self.list_index_map@, self.worktrees@, j, name@) by {
                if shows_name(self.list_index_map@, self.worktrees@, j, name@) {
                    assert(0 <= j < idx);
                }
            }
        }
        None
    }

    /// Selects the slot of the workspace named `name`, if it is listed.
    pub fn focus_on_worktree(&mut self, name: &str)
        ensures
            forall|i: int|
                first_slot_named(old(self).list_index_map@, old(self).worktrees@, name@, i)
                    ==> final(self).selected == i,
            (forall|j: int| !shows_name(old(self).list_index_map@, old(self).worktrees@, j, name@))
                ==> final(self).selected == old(self).selected,
            final(self).worktrees == old(self).worktrees,
            final(self).list_index_map == old(self).list_index_map,
    {
        if let Some(idx) = self.find_worktree_by_name(name) {
            proof {
                let m = self.list_index_map@;
                let w = self.worktrees@;
                assert forall|i: int| first_slot_named(m, w, name@, i) implies idx == i by {
                    if i < idx {
                        assert(!shows_name(m, w, i, name@));
                    } else if idx < i {
                        assert(!shows_name(m, w, idx as int, name@));
                    }
                }
            }
            self.selected = idx;
        }
    }
}

} // verus!
