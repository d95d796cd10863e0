//! The session reconciler: matches registry entries to live multiplexer
//! sessions, picks the sessions to retire, plans the output captures for
//! status classification and rebuilds the dashboard's sorted projection.

use vstd::prelude::*;

use crate::dashboard_state::{status_of_output, ClaudeStatus, DashboardState, WorktreeDisplay};
use crate::state::{
    doc_view, has_key, keys_unique, lemma_map_of_at, map_of, WorktreeInfo, XlaudeState,
};
use crate::command::{owned, runs, Tool, ToolCommand};
use crate::paths::prefix_string;
use crate::text::{
    chars_of, last_index, lines_of, names_match, rfind_char, sanitize_session_name, sanitized,
    session_name_matches, split_lines, string_of, text_eq, text_less, text_lt, views,
};

verus! {

broadcast use vstd::string::group_string_axioms;

/// A live multiplexer session as listed.
#[derive(Debug)]
pub struct SessionInfo {
    /// The session label.
    pub project: String,
    /// Whether a client is attached to it.
    pub is_attached: bool,
}

impl Clone for SessionInfo {
    fn clone(&self) -> (r: Self)
        ensures
            r == *self,
    {
        SessionInfo { project: self.project.clone(), is_attached: self.is_attached }
    }
}

/// Some registry entry's workspace name matches the session label.
pub open spec fn matches_entry(reg: Map<Seq<char>, WorktreeInfo>, label: Seq<char>) -> bool {
    exists|k: Seq<char>| #[trigger] reg.contains_key(k) && names_match(reg[k].name@, label)
}

/// The labels of the sessions that match no registry entry, in order.
pub open spec fn orphan_labels(reg: Map<Seq<char>, WorktreeInfo>, ss: Seq<SessionInfo>) -> Seq<
    Seq<char>,
>
    decreases ss.len(),
{
    if ss.len() == 0 {
        Seq::empty()
    } else {
        let rest = orphan_labels(reg, ss.drop_last());
        if matches_entry(reg, ss.last().project@) {
            rest
        } else {
            rest.push(ss.last().project@)
        }
    }
}

/// Some live session belongs to the workspace `name`.
pub open spec fn has_live_session(name: Seq<char>, ss: Seq<SessionInfo>) -> bool {
    exists|i: int| 0 <= i < ss.len() && names_match(name, #[trigger] ss[i].project@)
}

/// The last recorded status of workspace `name`, or `NotRunning`.
pub open spec fn status_for(statuses: Seq<(String, ClaudeStatus)>, name: Seq<char>) -> ClaudeStatus
    decreases statuses.len(),
{
    if statuses.len() == 0 {
        ClaudeStatus::NotRunning
    } else if statuses.last().0@ == name {
        statuses.last().1
    } else {
        status_for(statuses.drop_last(), name)
    }
}

/// `t` is the workspace name under which the status of the session
/// labelled `label` is recorded: the name of a matching entry, or the label
/// itself when no entry matches.
pub open spec fn status_target(reg: Map<Seq<char>, WorktreeInfo>, label: Seq<char>, t: Seq<char>) -> bool {
    if matches_entry(reg, label) {
        exists|k: Seq<char>|
            #[trigger] reg.contains_key(k) && reg[k].name@ == t && names_match(t, label)
    } else {
        t == label
    }
}

/// Display order: by repository name, then by workspace name.
pub open spec fn display_lt(x: WorktreeDisplay, y: WorktreeDisplay) -> bool {
    text_lt(x.repo@, y.repo@) || (x.repo@ == y.repo@ && text_lt(x.name@, y.name@))
}

/// No entry comes before one to its left.
pub open spec fn sorted_displays(v: Seq<WorktreeDisplay>) -> bool {
    forall|i: int, j: int| 0 <= i < j < v.len() ==> !display_lt(#[trigger] v[j], #[trigger] v[i])
}

/// `d` shows the registry entry under its key, with the session and status
/// information of that workspace.
pub open spec fn projects(
    reg: Map<Seq<char>, WorktreeInfo>,
    ss: Seq<SessionInfo>,
    statuses: Seq<(String, ClaudeStatus)>,
    d: WorktreeDisplay,
) -> bool {
    &&& reg.contains_key(d.key@)
    &&& d.name == reg[d.key@].name
    &&& d.repo == reg[d.key@].repo_name
    &&& d.has_session == has_live_session(d.name@, ss)
    &&& d.claude_status == status_for(statuses, d.name@)
}

/// `v` lists every registry entry once, projected, in display order.
pub open spec fn is_projection(
    reg: Map<Seq<char>, WorktreeInfo>,
    ss: Seq<SessionInfo>,
    statuses: Seq<(String, ClaudeStatus)>,
    v: Seq<WorktreeDisplay>,
) -> bool {
    &&& sorted_displays(v)
    &&& forall|i: int| 0 <= i < v.len() ==> projects(reg, ss, statuses, #[trigger] v[i])
    &&& forall|i: int, j: int|
        0 <= i < v.len() && 0 <= j < v.len() && i != j ==> (#[trigger] v[i]).key@ != (#[trigger] v[j]).key@
    &&& forall|k: Seq<char>| #[trigger]
        reg.contains_key(k) ==> exists|i: int| 0 <= i < v.len() && (#[trigger] v[i]).key@ == k
}

/// The sessions that match some registry entry, in order.
pub open spec fn matched_sessions(reg: Map<Seq<char>, WorktreeInfo>, ss: Seq<SessionInfo>) -> Seq<
    SessionInfo,
>
    decreases ss.len(),
{
    if ss.len() == 0 {
        Seq::empty()
    } else {
        let rest = matched_sessions(reg, ss.drop_last());
        if matches_entry(reg, ss.last().project@) {
            rest.push(ss.last())
        } else {
            rest
        }
    }
}

/// `t` names the matching entry under which the status of session `s` is
/// recorded, with the session's attached flag.
pub open spec fn target_of(reg: Map<Seq<char>, WorktreeInfo>, s: SessionInfo, t: (String, bool)) -> bool {
    status_target(reg, s.project@, t.0@) && t.1 == s.is_attached
}

/// A captured tail of a session's output.
#[derive(Debug)]
pub struct PaneCapture {
    /// The workspace name the status is recorded under.
    pub worktree_name: String,
    pub is_attached: bool,
    pub output: String,
}

/// The previews kept from `cs`: the output of each unattached session.
pub open spec fn previews(cs: Seq<PaneCapture>) -> Seq<(String, String)>
    decreases cs.len(),
{
    if cs.len() == 0 {
        Seq::empty()
    } else {
        let rest = previews(cs.drop_last());
        if cs.last().is_attached {
            rest
        } else {
            rest.push((cs.last().worktree_name, cs.last().output))
        }
    }
}

proof fn lemma_matches_entry(s: Seq<(String, WorktreeInfo)>, label: Seq<char>)
    requires
        keys_unique(doc_view(s)),
    ensures
        matches_entry(map_of(doc_view(s)), label) <==> exists|i: int|
            0 <= i < s.len() && names_match((#[trigger] s[i]).1.name@, label),
{
    let d = doc_view(s);
    let reg = map_of(d);
    if matches_entry(reg, label) {
        let k = choose|k: Seq<char>| #[trigger] reg.contains_key(k) && names_match(reg[k].name@, label);
        let i = choose|i: int| 0 <= i < d.len() && d[i].0 == k;
        lemma_map_of_at(d, i);
        assert(names_match(s[i].1.name@, label));
    }
    if exists|i: int| 0 <= i < s.len() && names_match((#[trigger] s[i]).1.name@, label) {
        let i = choose|i: int| 0 <= i < s.len() && names_match((#[trigger] s[i]).1.name@, label);
        lemma_map_of_at(d, i);
        assert(reg.contains_key(d[i].0));
    }
}

/// Position of the first entry whose name matches `label`.
fn first_match(entries: &Vec<(String, WorktreeInfo)>, label: &str) -> (r: Option<usize>)
    ensures
        match r {
            Some(i) => i < entries.len() && names_match(entries@[i as int].1.name@, label@),
            None => forall|i: int|
                0 <= i < entries.len() ==> !names_match((#[trigger] entries@[i]).1.name@, label@),
        },
{
    let mut i: usize = 0;
    while i < entries.len()
        invariant
            i <= entries.len(),
            forall|j: int| 0 <= j < i ==> !names_match((#[trigger] entries@[j]).1.name@, label@),
        decreases entries.len() - i,
    {
        if session_name_matches(entries[i].1.name.as_str(), label) {
            return Some(i);
        }
        i += 1;
    }
    None
}

/// Whether some session belongs to the workspace `name`.
fn has_session(sessions: &[SessionInfo], name: &str) -> (r: bool)
    ensures
        r == has_live_session(name@, sessions@),
{
    let mut i: usize = 0;
    while i < sessions.len()
        invariant
            i <= sessions.len(),
            forall|j: int| 0 <= j < i ==> !names_match(name@, (#[trigger] sessions@[j]).project@),
        decreases sessions.len() - i,
    {
        if session_name_matches(name, sessions[i].project.as_str()) {
            return true;
        }
        i += 1;
    }
    false
}

/// The last recorded status of workspace `name`.
pub fn lookup_status(statuses: &Vec<(String, ClaudeStatus)>, name: &str) -> (r: ClaudeStatus)
    ensures
        r == status_for(statuses@, name@),
{
    let mut i: usize = statuses.len();
    proof {
        assert(statuses@.take(i as int) =~= statuses@);
    }
    while i > 0
        invariant
            i <= statuses.len(),
            status_for(statuses@, name@) == status_for(statuses@.take(i as int), name@),
        decreases i,
    {
        proof {
            assert(statuses@.take(i as int).drop_last() =~= statuses@.take(i - 1));
        }
        if text_eq(statuses[i - 1].0.as_str(), name) {
            return statuses[i - 1].1;
        }
        i -= 1;
    }
    ClaudeStatus::NotRunning
}

fn display_less(x: &WorktreeDisplay, y: &WorktreeDisplay) -> (r: bool)
    ensures
        r == display_lt(*x, *y),
{
    text_less(x.repo.as_str(), y.repo.as_str()) || (text_eq(x.repo.as_str(), y.repo.as_str())
        && text_less(x.name.as_str(), y.name.as_str()))
}

proof fn lemma_display_lt_transitive(a: WorktreeDisplay, b: WorktreeDisplay, c: WorktreeDisplay)
    requires
        display_lt(a, b),
        display_lt(b, c),
    ensures
        display_lt(a, c),
{
    crate::text::lemma_text_lt_irreflexive(a.repo@);
    crate::text::lemma_text_lt_irreflexive(b.repo@);
    if text_lt(a.repo@, b.repo@) && text_lt(b.repo@, c.repo@) {
        crate::text::lemma_text_lt_transitive(a.repo@, b.repo@, c.repo@);
    }
    if a.repo@ == b.repo@ && b.repo@ == c.repo@ {
        crate::text::lemma_text_lt_transitive(a.name@, b.name@, c.name@);
    }
}

/// Puts `x` into the sorted `v` after every entry that does not come after it.
fn insert_sorted(v: &mut Vec<WorktreeDisplay>, x: WorktreeDisplay)
    requires
        sorted_displays(old(v)@),
    ensures
        sorted_displays(final(v)@),
        exists|p: int| 0 <= p <= old(v)@.len() && final(v)@ == old(v)@.insert(p, x),
{
    let mut p: usize = 0;
    while p < v.len() && !display_less(&x, &v[p])
        invariant
            p <= v.len(),
            forall|j: int| 0 <= j < p ==> !display_lt(x, #[trigger] v@[j]),
        decreases v.len() - p,
    {
        p += 1;
    }
    let ghost old_v = v@;
    v.insert(p, x);
    proof {
        let nv = v@;
        assert(nv == old_v.insert(p as int, x));
        assert forall|i: int, j: int| 0 <= i < j < nv.len() implies !display_lt(
            #[trigger] nv[j],
            #[trigger] nv[i],
        ) by {
            if i < p && j < p {
                assert(nv[i] == old_v[i] && nv[j] == old_v[j]);
            } else if i < p && j == p {
                assert(nv[i] == old_v[i]);
            } else if i < p && j > p {
                assert(nv[i] == old_v[i] && nv[j] == old_v[j - 1]);
            } else if i == p {
                // x < old_v[p] <= old_v[j - 1]
                assert(nv[j] == old_v[j - 1]);
                assert(display_lt(x, old_v[p as int]));
                if display_lt(old_v[j - 1], x) {
                    lemma_display_lt_transitive(old_v[j - 1], x, old_v[p as int]);
                    if j - 1 > p {
                        assert(!display_lt(old_v[j - 1], old_v[p as int]));
                    } else {
                        crate::text::lemma_text_lt_irreflexive(old_v[p as int].repo@);
                        crate::text::lemma_text_lt_irreflexive(old_v[p as int].name@);
                    }
                }
            } else {
                assert(nv[i] == old_v[i - 1] && nv[j] == old_v[j - 1]);
            }
        }
    }
}

/// Every element projects a registry entry.
pub open spec fn all_project(
    reg: Map<Seq<char>, WorktreeInfo>,
    ss: Seq<SessionInfo>,
    st: Seq<(String, ClaudeStatus)>,
    v: Seq<WorktreeDisplay>,
) -> bool {
    forall|j: int| 0 <= j < v.len() ==> projects(reg, ss, st, #[trigger] v[j])
}

/// No key is shown twice.
pub open spec fn distinct_keys(v: Seq<WorktreeDisplay>) -> bool {
    forall|a: int, b: int|
        0 <= a < v.len() && 0 <= b < v.len() && a != b ==> (#[trigger] v[a]).key@ != (#[trigger] v[b]).key@
}

/// Every shown key is one of the first `n` entries of `d`.
pub open spec fn keys_from(v: Seq<WorktreeDisplay>, d: Seq<crate::state::EntryView>, n: int) -> bool {
    forall|j: int| 0 <= j < v.len() ==> exists|q: int| 0 <= q < n && (#[trigger] v[j]).key@ == d[q].0
}

/// Every one of the first `n` entries of `d` is shown.
pub open spec fn covers(v: Seq<WorktreeDisplay>, d: Seq<crate::state::EntryView>, n: int) -> bool {
    forall|q: int| 0 <= q < n ==> exists|j: int| 0 <= j < v.len() && v[j].key@ == (#[trigger] d[q]).0
}

proof fn lemma_step_projects(
    reg: Map<Seq<char>, WorktreeInfo>,
    ss: Seq<SessionInfo>,
    st: Seq<(String, ClaudeStatus)>,
    before: Seq<WorktreeDisplay>,
    p: int,
    disp: WorktreeDisplay,
)
    requires
        0 <= p <= before.len(),
        projects(reg, ss, st, disp),
        all_project(reg, ss, st, before),
    ensures
        all_project(reg, ss, st, before.insert(p, disp)),
{
    let after = before.insert(p, disp);
    assert forall|j: int| 0 <= j < after.len() implies projects(reg, ss, st, #[trigger] after[j]) by {
        if j < p {
            assert(after[j] == before[j]);
        } else if j > p {
            assert(after[j] == before[j - 1]);
        }
    }
}

proof fn lemma_step_keys(
    d: Seq<crate::state::EntryView>,
    i: int,
    before: Seq<WorktreeDisplay>,
    p: int,
    disp: WorktreeDisplay,
)
    requires
        0 <= i < d.len(),
        0 <= p <= before.len(),
        disp.key@ == d[i].0,
        keys_from(before, d, i),
    ensures
        keys_from(before.insert(p, disp), d, i + 1),
{
    let after = before.insert(p, disp);
    assert forall|j: int| 0 <= j < after.len() implies exists|q: int|
        0 <= q < i + 1 && (#[trigger] after[j]).key@ == d[q].0 by {
        if j < p {
            assert(after[j] == before[j]);
        } else if j > p {
            assert(after[j] == before[j - 1]);
        } else {
            assert(after[j].key@ == d[i].0);
        }
    }
}

proof fn lemma_step_covers(
    d: Seq<crate::state::EntryView>,
    i: int,
    before: Seq<WorktreeDisplay>,
    p: int,
    disp: WorktreeDisplay,
)
    requires
        0 <= i < d.len(),
        0 <= p <= before.len(),
        disp.key@ == d[i].0,
        covers(before, d, i),
    ensures
        covers(before.insert(p, disp), d, i + 1),
{
    let after = before.insert(p, disp);
    assert forall|q: int| 0 <= q < i + 1 implies exists|j: int|
        0 <= j < after.len() && after[j].key@ == (#[trigger] d[q]).0 by {
        if q == i {
            assert(after[p].key@ == d[q].0);
        } else {
            let j0 = choose|j: int| 0 <= j < before.len() && before[j].key@ == d[q].0;
            if j0 < p {
                assert(after[j0] == before[j0]);
            } else {
                assert(after[j0 + 1] == before[j0]);
            }
        }
    }
}

proof fn lemma_step_distinct(
    d: Seq<crate::state::EntryView>,
    i: int,
    before: Seq<WorktreeDisplay>,
    p: int,
    disp: WorktreeDisplay,
)
    requires
        0 <= i < d.len(),
        keys_unique(d),
        0 <= p <= before.len(),
        disp.key@ == d[i].0,
        distinct_keys(before),
        keys_from(before, d, i),
    ensures
        distinct_keys(before.insert(p, disp)),
{
    let after = before.insert(p, disp);
    assert forall|j: int| 0 <= j < before.len() implies (#[trigger] before[j]).key@ != d[i].0 by {
        let q = choose|q: int| 0 <= q < i && before[j].key@ == d[q].0;
    }
    assert forall|a: int, b: int|
        0 <= a < after.len() && 0 <= b < after.len() && a != b implies (#[trigger] after[a]).key@
            != (#[trigger] after[b]).key@ by {
        let a1 = if a < p { a } else { a - 1 };
        let b1 = if b < p { b } else { b - 1 };
        if a != p && b != p {
            assert(after[a] == before[a1] && after[b] == before[b1]);
        } else if a == p {
            assert(after[b] == before[b1]);
        } else {
            assert(after[a] == before[a1]);
        }
    }
}

/// Drives the multiplexer on behalf of the dashboard: it decides, and the
/// caller runs the multiplexer commands it names.
#[derive(Debug)]
pub struct WorktreeManager {}

impl WorktreeManager {
    pub fn new() -> (r: Self) {
        WorktreeManager {  }
    }

    /// `tmux kill-session -t <label>`, for the session of `worktree_name`.
    pub fn kill_session(&self, worktree_name: &str) -> (r: ToolCommand)
        ensures
            runs(r, Tool::Tmux, seq!["kill-session"@, "-t"@, sanitized(worktree_name@)]),
    {
        let label = sanitize_session_name(worktree_name);
        let r = ToolCommand { tool: Tool::Tmux, args: vec![owned("kill-session"), owned("-t"), label] };
        proof {
            assert(views(r.args@) =~= seq!["kill-session"@, "-t"@, sanitized(worktree_name@)]);
        }
        r
    }

    /// `tmux has-session -t <label>`: it succeeds when the session of
    /// `project` exists.
    pub fn session_exists(&self, project: &str) -> (r: ToolCommand)
        ensures
            runs(r, Tool::Tmux, seq!["has-session"@, "-t"@, sanitized(project@)]),
    {
        let label = sanitize_session_name(project);
        let r = ToolCommand { tool: Tool::Tmux, args: vec![owned("has-session"), owned("-t"), label] };
        proof {
            assert(views(r.args@) =~= seq!["has-session"@, "-t"@, sanitized(project@)]);
        }
        r
    }

    /// `tmux new-session -d -s <label> -c <path>`: a detached session for
    /// `project` in its directory.
    pub fn create_session(&self, project: &str, path: &str) -> (r: ToolCommand)
        ensures
            runs(
                r,
                Tool::Tmux,
                seq!["new-session"@, "-d"@, "-s"@, sanitized(project@), "-c"@, path@],
            ),
    {
        let label = sanitize_session_name(project);
        let r = ToolCommand {
            tool: Tool::Tmux,
            args: vec![owned("new-session"), owned("-d"), owned("-s"), label, owned("-c"), owned(path)],
        };
        proof {
            assert(views(r.args@) =~= seq![
                "new-session"@,
                "-d"@,
                "-s"@,
                sanitized(project@),
                "-c"@,
                path@,
            ]);
        }
        r
    }

    /// `tmux attach-session -t <label>`.
    pub fn attach_session(&self, project: &str) -> (r: ToolCommand)
        ensures
            runs(r, Tool::Tmux, seq!["attach-session"@, "-t"@, sanitized(project@)]),
    {
        let label = sanitize_session_name(project);
        let r = ToolCommand { tool: Tool::Tmux, args: vec![owned("attach-session"), owned("-t"), label] };
        proof {
            assert(views(r.args@) =~= seq!["attach-session"@, "-t"@, sanitized(project@)]);
        }
        r
    }

    /// `tmux list-sessions -F '#{session_name}:#{session_attached}'`; its
    /// output is read by `parse_session_list`.
    pub fn list_sessions(&self) -> (r: ToolCommand)
        ensures
            runs(r, Tool::Tmux, seq!["list-sessions"@, "-F"@, "#{session_name}:#{session_attached}"@]),
    {
        let r = ToolCommand {
            tool: Tool::Tmux,
            args: vec![owned("list-sessions"), owned("-F"), owned("#{session_name}:#{session_attached}")],
        };
        proof {
            assert(views(r.args@) =~= seq![
                "list-sessions"@,
                "-F"@,
                "#{session_name}:#{session_attached}"@,
            ]);
        }
        r
    }

    /// `tmux capture-pane -p -t <label> -S -100`: the last hundred lines of
    /// the session of `worktree_name`.
    pub fn capture_pane(&self, worktree_name: &str) -> (r: ToolCommand)
        ensures
            runs(r, Tool::Tmux, seq!["capture-pane"@, "-p"@, "-t"@, sanitized(worktree_name@), "-S"@, "-100"@]),
    {
        let label = sanitize_session_name(worktree_name);
        let r = ToolCommand {
            tool: Tool::Tmux,
            args: vec![owned("capture-pane"), owned("-p"), owned("-t"), label, owned("-S"), owned("-100")],
        };
        proof {
            assert(views(r.args@) =~= seq![
                "capture-pane"@,
                "-p"@,
                "-t"@,
                sanitized(worktree_name@),
                "-S"@,
                "-100"@,
            ]);
        }
        r
    }

    /// The labels of the sessions that match no registry entry: the
    /// sessions to terminate, in listing order.
    pub fn cleanup_orphaned_sessions(&self, xlaude_state: &XlaudeState, sessions: &[SessionInfo]) -> (r:
        Vec<String>)
        ensures
            views(r@) == orphan_labels(xlaude_state.worktrees@, sessions@),
    {
        let entries = xlaude_state.worktrees.entries();
        let ghost reg = xlaude_state.worktrees@;
        let mut out: Vec<String> = Vec::new();
        let mut i: usize = 0;
        while i < sessions.len()
            invariant
                i <= sessions.len(),
                keys_unique(doc_view(entries@)),
                map_of(doc_view(entries@)) == reg,
                views(out@) == orphan_labels(reg, sessions@.take(i as int)),
            decreases sessions.len() - i,
        {
            let label = &sessions[i].project;
            proof {
                lemma_matches_entry(entries@, label@);
                assert(sessions@.take(i + 1).drop_last() =~= sessions@.take(i as int));
                assert(sessions@.take(i + 1).last() == sessions@[i as int]);
            }
            match first_match(&entries, label.as_str()) {
                Some(_) => {},
                None => {
                    let ghost before = out@;
                    out.push(label.clone());
                    proof {
                        assert(views(out@) =~= views(before).push(label@));
                    }
                },
            }
            i += 1;
        }
        proof {
            assert(sessions@.take(sessions@.len() as int) =~= sessions@);
        }
        out
    }

    /// For each session that matches a registry entry, in listing order,
    /// the name of a matching entry (its status is recorded under it) and
    /// whether a client is attached. Sessions that match no entry are left
    /// out: cleanup retires them.
    pub fn status_targets(&self, xlaude_state: &XlaudeState, sessions: &[SessionInfo]) -> (r: Vec<
        (String, bool),
    >)
        ensures
            r@.len() == matched_sessions(xlaude_state.worktrees@, sessions@).len(),
            forall|i: int|
                0 <= i < r@.len() ==> target_of(
                    xlaude_state.worktrees@,
                    matched_sessions(xlaude_state.worktrees@, sessions@)[i],
                    #[trigger] r@[i],
                ),
    {
        let entries = xlaude_state.worktrees.entries();
        let ghost reg = xlaude_state.worktrees@;
        let mut out: Vec<(String, bool)> = Vec::new();
        let mut i: usize = 0;
        while i < sessions.len()
            invariant
                i <= sessions.len(),
                out@.len() == matched_sessions(reg, sessions@.take(i as int)).len(),
                keys_unique(doc_view(entries@)),
                map_of(doc_view(entries@)) == reg,
                forall|j: int|
                    0 <= j < out@.len() ==> target_of(
                        reg,
                        matched_sessions(reg, sessions@.take(i as int))[j],
                        #[trigger] out@[j],
                    ),
            decreases sessions.len() - i,
        {
            let label = &sessions[i].project;
            let ghost m0 = matched_sessions(reg, sessions@.take(i as int));
            proof {
                lemma_matches_entry(entries@, label@);
                assert(sessions@.take(i + 1).drop_last() =~= sessions@.take(i as int));
                assert(sessions@.take(i + 1).last() == sessions@[i as int]);
            }
            match first_match(&entries, label.as_str()) {
                Some(j) => {
                    proof {
                        let d = doc_view(entries@);
                        lemma_map_of_at(d, j as int);
                        assert(reg.contains_key(d[j as int].0));
                    }
                    let ghost before = out@;
                    out.push((entries[j].1.name.clone(), sessions[i].is_attached));
                    proof {
                        let m1 = matched_sessions(reg, sessions@.take(i + 1));
                        assert(m1 == m0.push(sessions@[i as int]));
                        assert forall|q: int| 0 <= q < out@.len() implies target_of(
                            reg,
                            m1[q],
                            #[trigger] out@[q],
                        ) by {
                            if q < before.len() {
                                assert(out@[q] == before[q]);
                                assert(m1[q] == m0[q]);
                            }
                        }
                    }
                },
                None => {},
            }
            i += 1;
        }
        proof {
            assert(sessions@.take(sessions@.len() as int) =~= sessions@);
        }
        out
    }

    /// Classifies the captures: the status read from each captured output
    /// replaces the recorded ones, and the output of each unattached session
    /// is kept as its preview.
    pub fn update_claude_statuses(&self, state: &mut DashboardState, captures: Vec<PaneCapture>)
        ensures
            final(state).claude_statuses@.len() == captures@.len(),
            forall|i: int|
                0 <= i < captures@.len() ==> (#[trigger] final(state).claude_statuses@[i]) == (
                captures@[i].worktree_name,
                status_of_output(captures@[i].output@),
            ),
            final(state).preview_cache@ == old(state).preview_cache@ + previews(captures@),
            final(state).worktrees == old(state).worktrees,
            final(state).selected == old(state).selected,
            final(state).list_index_map == old(state).list_index_map,
    {
        state.claude_statuses = Vec::new();
        let ghost cache0 = state.preview_cache@;
        let mut i: usize = 0;
        while i < captures.len()
            invariant
                i <= captures.len(),
                state.claude_statuses@.len() == i,
                forall|j: int|
                    0 <= j < i ==> (#[trigger] state.claude_statuses@[j]) == (
                    captures@[j].worktree_name,
                    status_of_output(captures@[j].output@),
                ),
                state.preview_cache@ == cache0 + previews(captures@.take(i as int)),
                state.worktrees == old(state).worktrees,
                state.selected == old(state).selected,
                state.list_index_map == old(state).list_index_map,
            decreases captures.len() - i,
        {
            let c = &captures[i];
            let status = state.status_detector.analyze_output(c.output.as_str());
            state.claude_statuses.push((c.worktree_name.clone(), status));
            proof {
                assert(captures@.take(i + 1).drop_last() =~= captures@.take(i as int));
                assert(captures@.take(i + 1).last() == captures@[i as int]);
            }
            if !c.is_attached {
                let ghost before = state.preview_cache@;
                state.preview_cache.push((c.worktree_name.clone(), c.output.clone()));
                proof {
                    assert(state.preview_cache@ =~= cache0 + previews(captures@.take(i + 1)));
                }
            } else {
                proof {
                    assert(previews(captures@.take(i + 1)) == previews(captures@.take(i as int)));
                }
            }
            i += 1;
        }
        proof {
            assert(captures@.take(captures@.len() as int) =~= captures@);
        }
    }

    /// One refresh pass: picks the orphaned sessions (returned, for the
    /// caller to terminate before any status is classified) and rebuilds
    /// the display list from the registry, the live sessions and the
    /// recorded statuses, sorted by repository name and workspace name.
    pub fn refresh_worktrees(
        &self,
        state: &mut DashboardState,
        xlaude_state: &XlaudeState,
        sessions: &[SessionInfo],
    ) -> (r: Vec<String>)
        ensures
            views(r@) == orphan_labels(xlaude_state.worktrees@, sessions@),
            is_projection(
                xlaude_state.worktrees@,
                sessions@,
                old(state).claude_statuses@,
                final(state).worktrees@,
            ),
            final(state).claude_statuses == old(state).claude_statuses,
            final(state).preview_cache == old(state).preview_cache,
            final(state).selected == old(state).selected,
            final(state).list_index_map == old(state).list_index_map,
    {
        let orphans = self.cleanup_orphaned_sessions(xlaude_state, sessions);
        let entries = xlaude_state.worktrees.entries();
        let ghost reg = xlaude_state.worktrees@;
        let ghost d = doc_view(entries@);
        let mut out: Vec<WorktreeDisplay> = Vec::new();
        let mut i: usize = 0;
        while i < entries.len()
            invariant
                i <= entries.len(),
                d == doc_view(entries@),
                keys_unique(d),
                map_of(d) == reg,
                sorted_displays(out@),
                all_project(reg, sessions@, state.claude_statuses@, out@),
                distinct_keys(out@),
                keys_from(out@, d, i as int),
                covers(out@, d, i as int),
            decreases entries.len() - i,
        {
            let (key, info) = (&entries[i].0, &entries[i].1);
            let status = lookup_status(&state.claude_statuses, info.name.as_str());
            let live = has_session(sessions, info.name.as_str());
            let disp = WorktreeDisplay {
                name: info.name.clone(),
                repo: info.repo_name.clone(),
                key: key.clone(),
                has_session: live,
                claude_status: status,
            };
            proof {
                lemma_map_of_at(d, i as int);
                assert(d[i as int] == (key@, *info));
            }
            let ghost before = out@;
            insert_sorted(&mut out, disp);
            proof {
                let p = choose|p: int| 0 <= p <= before.len() && out@ == before.insert(p, disp);
                lemma_step_projects(reg, sessions@, state.claude_statuses@, before, p, disp);
                lemma_step_keys(d, i as int, before, p, disp);
                lemma_step_covers(d, i as int, before, p, disp);
                lemma_step_distinct(d, i as int, before, p, disp);
            }
            i += 1;
        }
        proof {
            assert forall|k: Seq<char>| #[trigger] reg.contains_key(k) implies exists|j: int|
                0 <= j < out@.len() && (#[trigger] out@[j]).key@ == k by {
                assert(has_key(d, k));
                let q = choose|q: int| 0 <= q < d.len() && d[q].0 == k;
                assert(covers(out@, d, d.len() as int));
                assert(exists|j: int| 0 <= j < out@.len() && out@[j].key@ == d[q].0);
            }
        }
        state.worktrees = out;
        orphans
    }
}

/// A session is terminated by orphan cleanup exactly when its label matches
/// no registry entry, literally or in sanitized form.
pub proof fn lemma_cleanup_kills_exactly_orphans(
    reg: Map<Seq<char>, WorktreeInfo>,
    ss: Seq<SessionInfo>,
    i: int,
)
    requires
        0 <= i < ss.len(),
    ensures
        orphan_labels(reg, ss).contains(ss[i].project@) <==> !matches_entry(reg, ss[i].project@),
    decreases ss.len(),
{
    let rest = ss.drop_last();
    let l = ss[i].project@;
    lemma_orphans_match_none(reg, ss);
    if i < ss.len() - 1 {
        assert(rest[i] == ss[i]);
        lemma_cleanup_kills_exactly_orphans(reg, rest, i);
        if !matches_entry(reg, l) {
            let o = orphan_labels(reg, rest);
            let k = choose|k: int| 0 <= k < o.len() && o[k] == l;
            if !matches_entry(reg, ss.last().project@) {
                assert(orphan_labels(reg, ss)[k] == l);
            }
        }
    } else if !matches_entry(reg, l) {
        let o = orphan_labels(reg, ss);
        assert(o[o.len() - 1] == l);
    }
}

proof fn lemma_orphans_match_none(reg: Map<Seq<char>, WorktreeInfo>, ss: Seq<SessionInfo>)
    ensures
        forall|j: int|
            0 <= j < orphan_labels(reg, ss).len() ==> !matches_entry(
                reg,
                #[trigger] orphan_labels(reg, ss)[j],
            ),
    decreases ss.len(),
{
    if ss.len() > 0 {
        lemma_orphans_match_none(reg, ss.drop_last());
        let o = orphan_labels(reg, ss);
        let rest = orphan_labels(reg, ss.drop_last());
        assert forall|j: int| 0 <= j < o.len() implies !matches_entry(reg, #[trigger] o[j]) by {
            if j < rest.len() {
                assert(o[j] == rest[j]);
            }
        }
    }
}

/// The three consumers of the name-matching rule agree: for a registry
/// entry and a session whose label is the entry's name, literal or
/// sanitized, cleanup spares the session, the status is recorded under the
/// name of a matching entry, and the display reports a live session.
pub proof fn lemma_matching_consistent(
    reg: Map<Seq<char>, WorktreeInfo>,
    ss: Seq<SessionInfo>,
    k: Seq<char>,
    i: int,
    t: Seq<char>,
)
    requires
        reg.contains_key(k),
        0 <= i < ss.len(),
        ss[i].project@ == reg[k].name@ || ss[i].project@ == crate::text::sanitized(reg[k].name@),
        status_target(reg, ss[i].project@, t),
    ensures
        !orphan_labels(reg, ss).contains(ss[i].project@),
        exists|k2: Seq<char>| #[trigger] reg.contains_key(k2) && reg[k2].name@ == t && names_match(t, ss[i].project@),
        has_live_session(reg[k].name@, ss),
{
    assert(names_match(reg[k].name@, ss[i].project@));
    assert(matches_entry(reg, ss[i].project@));
    lemma_cleanup_kills_exactly_orphans(reg, ss, i);
}

/// A line of the session listing: the label before its last `:` and
/// whether the attached count after it is other than `0`; `None` for a
/// line without `:`.
pub open spec fn session_of_line(l: Seq<char>) -> Option<(Seq<char>, bool)> {
    let k = last_index(l, ':');
    if k < 0 {
        None
    } else {
        Some((l.take(k), l.skip(k + 1) != "0"@))
    }
}

/// The sessions named by the lines of a session listing, in order.
pub open spec fn sessions_of(ls: Seq<Seq<char>>) -> Seq<(Seq<char>, bool)>
    decreases ls.len(),
{
    if ls.len() == 0 {
        Seq::empty()
    } else {
        let rest = sessions_of(ls.drop_last());
        match session_of_line(ls.last()) {
            Some(x) => rest.push(x),
            None => rest,
        }
    }
}

/// A session seen as its label and attached flag.
pub open spec fn session_view(s: SessionInfo) -> (Seq<char>, bool) {
    (s.project@, s.is_attached)
}

fn session_from_line(line: &str) -> (r: Option<SessionInfo>)
    ensures
        match session_of_line(line@) {
            Some(x) => r matches Some(s) && session_view(s) == x,
            None => r is None,
        },
{
    let cs = chars_of(line);
    let k = match rfind_char(&cs, ':') {
        Some(k) => k,
        None => return None,
    };
    let label = prefix_string(&cs, k);
    let mut tail: Vec<char> = Vec::new();
    let mut j: usize = k + 1;
    while j < cs.len()
        invariant
            k < j <= cs.len(),
            cs@ == line@,
            tail@ == cs@.subrange(k + 1, j as int),
        decreases cs.len() - j,
    {
        tail.push(cs[j]);
        proof {
            assert(cs@.subrange(k + 1, j + 1) =~= cs@.subrange(k + 1, j as int).push(cs@[j as int]));
        }
        j += 1;
    }
    proof {
        assert(cs@.subrange(k + 1, cs.len() as int) =~= line@.skip(k + 1));
    }
    let count = string_of(&tail);
    let attached = !text_eq(count.as_str(), "0");
    Some(SessionInfo { project: label, is_attached: attached })
}

/// The sessions in the output of the listing command.
pub fn parse_session_list(output: &str) -> (r: Vec<SessionInfo>)
    ensures
        r@.map_values(|s: SessionInfo| session_view(s)) == sessions_of(lines_of(output@)),
{
    let lines = split_lines(output);
    let ghost ls = lines_of(output@);
    let mut out: Vec<SessionInfo> = Vec::new();
    let mut i: usize = 0;
    while i < lines.len()
        invariant
            i <= lines.len(),
            views(lines@) == ls,
            out@.map_values(|s: SessionInfo| session_view(s)) == sessions_of(ls.take(i as int)),
        decreases lines.len() - i,
    {
        proof {
            assert(lines@[i as int]@ == ls[i as int]);
            assert(ls.take(i + 1).drop_last() =~= ls.take(i as int));
            assert(ls.take(i + 1).last() == ls[i as int]);
        }
        match session_from_line(lines[i].as_str()) {
            Some(sess) => {
                let ghost before = out@;
                let ghost v = session_view(sess);
                out.push(sess);
                proof {
                    assert(out@.map_values(|s: SessionInfo| session_view(s)) =~= before.map_values(
                        |s: SessionInfo| session_view(s),
                    ).push(v));
                }
            },
            None => {},
        }
        i += 1;
    }
    proof {
        assert(ls.take(ls.len() as int) =~= ls);
    }
    out
}

} // verus!
