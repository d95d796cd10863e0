//! The logic behind the web dashboard: settings, per-workspace actions,
//! launch commands and the git status summary of a workspace.

use vstd::prelude::*;

use crate::command::owned;
use crate::state::{key_of, later, Timestamp, WorktreeInfo, XlaudeState};
use crate::text::{
    before_first, chars_of, first_index, lines_of, prefix_before, split_lines, string_of, text_eq,
    trim_text, trimmed, views,
};

verus! {

broadcast use vstd::string::group_string_axioms;

/// Sessions listed per workspace unless configured otherwise.
pub const DEFAULT_SESSION_LIMIT: usize = 5;

/// Settings of the dashboard server.
#[derive(Debug, Clone, Copy)]
pub struct DashboardConfig {
    pub session_limit: usize,
}

impl Default for DashboardConfig {
    fn default() -> (r: Self)
        ensures
            r.session_limit == DEFAULT_SESSION_LIMIT,
    {
        DashboardConfig { session_limit: DEFAULT_SESSION_LIMIT }
    }
}

/// The two free-text preferences as the dashboard exchanges them.
#[derive(Debug)]
pub struct SettingsPayload {
    pub editor: Option<String>,
    pub terminal: Option<String>,
}

/// A preference as stored: trimmed, and absent when nothing is left.
pub open spec fn normalized(value: Option<String>) -> Option<Seq<char>> {
    match value {
        Some(s) => if trimmed(s@).len() == 0 {
            None
        } else {
            Some(trimmed(s@))
        },
        None => None,
    }
}

/// The view of an optional text.
pub open spec fn opt_view(v: Option<String>) -> Option<Seq<char>> {
    match v {
        Some(s) => Some(s@),
        None => None,
    }
}

/// A preference trimmed, or `None` when it is absent or blank.
pub fn normalize_setting(value: Option<String>) -> (r: Option<String>)
    ensures
        opt_view(r) == normalized(value),
{
    match value {
        Some(s) => {
            let t = trim_text(s.as_str());
            if t.as_str().is_empty() {
                None
            } else {
                Some(t)
            }
        },
        None => None,
    }
}

fn clone_opt(v: &Option<String>) -> (r: Option<String>)
    ensures
        r == *v,
{
    match v {
        Some(s) => Some(s.clone()),
        None => None,
    }
}

/// The stored preferences.
pub fn load_settings_payload(state: &XlaudeState) -> (r: SettingsPayload)
    ensures
        r.editor == state.editor,
        r.terminal == state.shell,
{
    SettingsPayload { editor: clone_opt(&state.editor), terminal: clone_opt(&state.shell) }
}

/// Stores the normalized preferences of `req` and returns them; the caller
/// saves the registry.
pub fn update_settings_state(state: &mut XlaudeState, req: SettingsPayload) -> (r: SettingsPayload)
    ensures
        opt_view(final(state).editor) == normalized(req.editor),
        opt_view(final(state).shell) == normalized(req.terminal),
        final(state).worktrees == old(state).worktrees,
        r.editor == final(state).editor,
        r.terminal == final(state).shell,
{
    state.editor = normalize_setting(req.editor);
    state.shell = normalize_setting(req.terminal);
    load_settings_payload(state)
}

/// The last six characters of a session id, or all of it when shorter.
pub open spec fn short_id(id: Seq<char>) -> Seq<char> {
    if id.len() <= 6 {
        id
    } else {
        id.skip(id.len() - 6)
    }
}

/// The short form of a session id shown when a session has no message.
pub fn short_session_id(id: &str) -> (r: String)
    ensures
        r@ == short_id(id@),
{
    let cs = chars_of(id);
    if cs.len() <= 6 {
        return owned(id);
    }
    let from = cs.len() - 6;
    let mut out: Vec<char> = Vec::new();
    let mut k: usize = from;
    while k < cs.len()
        invariant
            from <= k <= cs.len(),
            cs@ == id@,
            out@ == cs@.subrange(from as int, k as int),
        decreases cs.len() - k,
    {
        out.push(cs[k]);
        proof {
            assert(cs@.subrange(from as int, k + 1) =~= cs@.subrange(from as int, k as int).push(
                cs@[k as int],
            ));
        }
        k += 1;
    }
    proof {
        assert(cs@.subrange(from as int, cs.len() as int) =~= id@.skip(from as int));
    }
    string_of(&out)
}

/// `a` before `b` when listing newest first; absent times go last.
pub fn compare_option_desc(a: Option<Timestamp>, b: Option<Timestamp>) -> (r: core::cmp::Ordering)
    ensures
        r == match (a, b) {
            (Some(x), Some(y)) => if later(y, x) {
                core::cmp::Ordering::Greater
            } else if later(x, y) {
                core::cmp::Ordering::Less
            } else {
                core::cmp::Ordering::Equal
            },
            (Some(_), None) => core::cmp::Ordering::Less,
            (None, Some(_)) => core::cmp::Ordering::Greater,
            (None, None) => core::cmp::Ordering::Equal,
        },
{
    match (a, b) {
        (Some(x), Some(y)) => if y.is_after(&x) {
            core::cmp::Ordering::Greater
        } else if x.is_after(&y) {
            core::cmp::Ordering::Less
        } else {
            core::cmp::Ordering::Equal
        },
        (Some(_), None) => core::cmp::Ordering::Less,
        (None, Some(_)) => core::cmp::Ordering::Greater,
        (None, None) => core::cmp::Ordering::Equal,
    }
}

/// The latest of the creation time, the last commit time and the session
/// times.
pub open spec fn latest(created: Timestamp, times: Seq<Option<Timestamp>>) -> Timestamp
    decreases times.len(),
{
    if times.len() == 0 {
        created
    } else {
        let t = latest(created, times.drop_last());
        match times.last() {
            Some(x) => if later(x, t) {
                x
            } else {
                t
            },
            None => t,
        }
    }
}

/// A workspace's last activity: the latest of its creation, its last
/// commit and its sessions' times.
pub fn last_activity(created: Timestamp, times: &Vec<Option<Timestamp>>) -> (r: Timestamp)
    ensures
        r == latest(created, times@),
{
    let mut t = created;
    let mut i: usize = 0;
    while i < times.len()
        invariant
            i <= times.len(),
            t == latest(created, times@.take(i as int)),
        decreases times.len() - i,
    {
        proof {
            assert(times@.take(i + 1).drop_last() =~= times@.take(i as int));
        }
        match times[i] {
            Some(x) => {
                if x.is_after(&t) {
                    t = x;
                }
            },
            None => {},
        }
        i += 1;
    }
    proof {
        assert(times@.take(times@.len() as int) =~= times@);
    }
    t
}

/// Counts of the entries in `git status --short`.
#[derive(Debug)]
pub struct GitStatusSummary {
    pub clean: bool,
    pub staged_files: usize,
    pub unstaged_files: usize,
    pub untracked_files: usize,
    pub conflict_files: usize,
    pub last_commit_message: Option<String>,
    pub last_commit_time: Option<Timestamp>,
    pub error: Option<String>,
}

impl GitStatusSummary {
    /// No entries counted, nothing known of the last commit, no error.
    pub fn new() -> (r: Self)
        ensures
            r.staged_files == 0 && r.unstaged_files == 0 && r.untracked_files == 0
                && r.conflict_files == 0,
            !r.clean,
            r.last_commit_message is None && r.last_commit_time is None && r.error is None,
    {
        GitStatusSummary {
            clean: false,
            staged_files: 0,
            unstaged_files: 0,
            untracked_files: 0,
            conflict_files: 0,
            last_commit_message: None,
            last_commit_time: None,
            error: None,
        }
    }
}

/// What one status column adds: 0 for ` `, else a conflict for `U`, else
/// a change.
pub open spec fn column_kind(c: char) -> int {
    if c == ' ' {
        0
    } else if c == 'U' {
        1
    } else {
        2
    }
}

/// How one line of `git status --short` changes the counts
/// `(staged, unstaged, untracked, conflicts)`: `??` is untracked, `!!` is
/// ignored, otherwise the first column is the index and the second the
/// working tree.
pub open spec fn line_counts(l: Seq<char>) -> (int, int, int, int) {
    if l.len() >= 2 && l[0] == '?' && l[1] == '?' {
        (0, 0, 1, 0)
    } else if l.len() >= 2 && l[0] == '!' && l[1] == '!' {
        (0, 0, 0, 0)
    } else {
        let first = if l.len() >= 1 { column_kind(l[0]) } else { 0 };
        let second = if l.len() >= 2 { column_kind(l[1]) } else { 0 };
        (
            if first == 2 { 1 } else { 0 },
            if second == 2 { 1 } else { 0 },
            0,
            (if first == 1 { 1int } else { 0 }) + (if second == 1 { 1int } else { 0 }),
        )
    }
}

/// Adds one line of `git status --short` to the counts.
pub fn apply_status_line(line: &str, summary: &mut GitStatusSummary)
    requires
        old(summary).staged_files < usize::MAX,
        old(summary).unstaged_files < usize::MAX,
        old(summary).untracked_files < usize::MAX,
        old(summary).conflict_files < usize::MAX - 1,
    ensures
        final(summary).staged_files == old(summary).staged_files + line_counts(line@).0,
        final(summary).unstaged_files == old(summary).unstaged_files + line_counts(line@).1,
        final(summary).untracked_files == old(summary).untracked_files + line_counts(line@).2,
        final(summary).conflict_files == old(summary).conflict_files + line_counts(line@).3,
        final(summary).clean == old(summary).clean,
        final(summary).last_commit_message == old(summary).last_commit_message,
        final(summary).last_commit_time == old(summary).last_commit_time,
        final(summary).error == old(summary).error,
{
    let cs = chars_of(line);
    if cs.len() >= 2 && cs[0] == '?' && cs[1] == '?' {
        summary.untracked_files += 1;
        return;
    }
    if cs.len() >= 2 && cs[0] == '!' && cs[1] == '!' {
        return;
    }
    if cs.len() >= 1 {
        let first = cs[0];
        if first == 'U' {
            summary.conflict_files += 1;
        } else if first != ' ' {
            summary.staged_files += 1;
        }
    }
    if cs.len() >= 2 {
        let second = cs[1];
        if second == 'U' {
            summary.conflict_files += 1;
        } else if second != ' ' {
            summary.unstaged_files += 1;
        }
    }
}

/// The counts over the lines of `git status --short` output.
pub open spec fn status_counts(ls: Seq<Seq<char>>) -> (int, int, int, int)
    decreases ls.len(),
{
    if ls.len() == 0 {
        (0, 0, 0, 0)
    } else {
        let r = status_counts(ls.drop_last());
        let c = line_counts(ls.last());
        (r.0 + c.0, r.1 + c.1, r.2 + c.2, r.3 + c.3)
    }
}

proof fn lemma_status_counts_bounded(ls: Seq<Seq<char>>)
    ensures
        0 <= status_counts(ls).0 <= ls.len(),
        0 <= status_counts(ls).1 <= ls.len(),
        0 <= status_counts(ls).2 <= ls.len(),
        0 <= status_counts(ls).3 <= 2 * ls.len(),
    decreases ls.len(),
{
    if ls.len() > 0 {
        lemma_status_counts_bounded(ls.drop_last());
    }
}

/// The summary of a successful `git status --short`: the counts over its
/// lines, and clean when all are zero.
pub fn summarize_status_output(stdout: &str) -> (r: GitStatusSummary)
    requires
        lines_of(stdout@).len() < usize::MAX / 2,
    ensures
        r.staged_files == status_counts(lines_of(stdout@)).0,
        r.unstaged_files == status_counts(lines_of(stdout@)).1,
        r.untracked_files == status_counts(lines_of(stdout@)).2,
        r.conflict_files == status_counts(lines_of(stdout@)).3,
        r.clean == (r.staged_files == 0 && r.unstaged_files == 0 && r.untracked_files == 0
            && r.conflict_files == 0),
        r.last_commit_message is None && r.last_commit_time is None && r.error is None,
{
    let lines = split_lines(stdout);
    let ghost ls = lines_of(stdout@);
    let mut summary = GitStatusSummary::new();
    let mut i: usize = 0;
    while i < lines.len()
        invariant
            i <= lines.len(),
            lines.len() < usize::MAX / 2,
            views(lines@) == ls,
            summary.staged_files == status_counts(ls.take(i as int)).0,
            summary.unstaged_files == status_counts(ls.take(i as int)).1,
            summary.untracked_files == status_counts(ls.take(i as int)).2,
            summary.conflict_files == status_counts(ls.take(i as int)).3,
            summary.last_commit_message is None && summary.last_commit_time is None
                && summary.error is None,
        decreases lines.len() - i,
    {
        proof {
            lemma_status_counts_bounded(ls.take(i as int));
            assert(lines@[i as int]@ == ls[i as int]);
            assert(ls.take(i + 1).drop_last() =~= ls.take(i as int));
            assert(ls.take(i + 1).last() == ls[i as int]);
        }
        apply_status_line(lines[i].as_str(), &mut summary);
        i += 1;
    }
    proof {
        assert(ls.take(ls.len() as int) =~= ls);
    }
    summary.clean = summary.staged_files == 0 && summary.unstaged_files == 0
        && summary.untracked_files == 0 && summary.conflict_files == 0;
    summary
}

/// What `chrono::DateTime::parse_from_rfc3339` makes of a text: the
/// instant it denotes, as whole seconds and nanoseconds since the Unix
/// epoch, or `None` when it is not an RFC 3339 date and time.
pub uninterp spec fn rfc3339_instant(s: Seq<char>) -> Option<(i64, u32)>;

/// Relies on `chrono::DateTime::parse_from_rfc3339`, and on `timestamp` and
/// `timestamp_subsec_nanos` of its result, to read an RFC 3339 date and time.
#[verifier::external_body]
fn parse_rfc3339(s: &str) -> (r: Option<(i64, u32)>)
    ensures
        r == rfc3339_instant(s@),
{
    match chrono::DateTime::parse_from_rfc3339(s) {
        Ok(t) => Some((t.timestamp(), t.timestamp_subsec_nanos())),
        Err(_) => None,
    }
}

/// The separator between the fields of the last-commit query's output.
pub open spec fn unit_separator() -> char {
    '\u{1f}'
}

/// The text after the first `c` of `s`, if `s` has one.
pub open spec fn after_first(s: Seq<char>, c: char) -> Option<Seq<char>> {
    if first_index(s, c) < s.len() {
        Some(s.skip(first_index(s, c) + 1))
    } else {
        None
    }
}

/// The subject and commit time of the last commit.
#[derive(Debug)]
pub struct CommitSummary {
    pub message: String,
    pub timestamp: Timestamp,
}

/// What the output of `git log -1 --pretty=format:%s%x1f%cI` says of the
/// last commit: its trimmed subject and its commit time, when the output
/// is not blank and its time field reads as an RFC 3339 instant.
pub open spec fn last_commit_of(out: Seq<char>) -> Option<(Seq<char>, Timestamp)> {
    if trimmed(out).len() == 0 {
        None
    } else {
        match after_first(out, unit_separator()) {
            None => None,
            Some(rest) => match rfc3339_instant(trimmed(before_first(rest, unit_separator()))) {
                None => None,
                Some((secs, nanos)) => Some(
                    (trimmed(before_first(out, unit_separator())), Timestamp { secs, nanos }),
                ),
            },
        }
    }
}

proof fn lemma_first_index_bounds(s: Seq<char>, c: char)
    ensures
        0 <= first_index(s, c) <= s.len(),
        first_index(s, c) < s.len() ==> s[first_index(s, c)] == c,
    decreases s.len(),
{
    if s.len() > 0 && s[0] != c {
        lemma_first_index_bounds(s.drop_first(), c);
    }
}

fn after_separator(s: &str) -> (r: Option<String>)
    ensures
        match after_first(s@, unit_separator()) {
            Some(rest) => r matches Some(t) && t@ == rest,
            None => r is None,
        },
{
    let head = prefix_before(s, '\u{1f}');
    let cs = chars_of(s);
    let hs = chars_of(head.as_str());
    proof {
        lemma_first_index_bounds(s@, unit_separator());
    }
    if hs.len() >= cs.len() {
        return None;
    }
    let from = hs.len() + 1;
    let mut out: Vec<char> = Vec::new();
    let mut k: usize = from;
    while k < cs.len()
        invariant
            from <= k <= cs.len(),
            cs@ == s@,
            out@ == cs@.subrange(from as int, k as int),
        decreases cs.len() - k,
    {
        out.push(cs[k]);
        proof {
            assert(cs@.subrange(from as int, k + 1) =~= cs@.subrange(from as int, k as int).push(
                cs@[k as int],
            ));
        }
        k += 1;
    }
    proof {
        assert(cs@.subrange(from as int, cs.len() as int) =~= s@.skip(from as int));
    }
    Some(string_of(&out))
}

/// The last commit, read from the output of
/// `git log -1 --pretty=format:%s%x1f%cI`.
pub fn read_last_commit(stdout: &str) -> (r: Option<CommitSummary>)
    ensures
        match last_commit_of(stdout@) {
            Some((m, t)) => r matches Some(c) && c.message@ == m && c.timestamp == t,
            None => r is None,
        },
{
    let all = trim_text(stdout);
    if all.as_str().is_empty() {
        return None;
    }
    let rest = match after_separator(stdout) {
        Some(r) => r,
        None => return None,
    };
    let time_field = prefix_before(rest.as_str(), '\u{1f}');
    let time_text = trim_text(time_field.as_str());
    let instant = parse_rfc3339(time_text.as_str());
    let head = prefix_before(stdout, '\u{1f}');
    let message = trim_text(head.as_str());
    commit_from_fields(message, instant)
}

/// The last commit from its subject and the instant read from its time
/// field, if that field was read.
pub fn commit_from_fields(message: String, instant: Option<(i64, u32)>) -> (r: Option<CommitSummary>)
    ensures
        match instant {
            Some((secs, nanos)) => r matches Some(c) && c.message == message && c.timestamp == (
            Timestamp { secs, nanos }),
            None => r is None,
        },
{
    match instant {
        Some((secs, nanos)) => Some(CommitSummary { message, timestamp: Timestamp { secs, nanos } }),
        None => None,
    }
}

/// The actions the dashboard can start for a workspace.
#[derive(Debug, Clone, Copy, PartialEq, Eq, Structural)]
pub enum WorktreeAction {
    OpenAgent,
    OpenShell,
    OpenEditor,
}

/// Why an action request was not served, by the kind of HTTP answer.
#[derive(Debug)]
pub enum ActionError {
    NotFound(String),
    BadRequest(String),
    Internal(String),
}

/// The action named `a`, if it is one.
pub open spec fn action_named(a: Seq<char>) -> Option<WorktreeAction> {
    if a == "open-agent"@ {
        Some(WorktreeAction::OpenAgent)
    } else if a == "open-shell"@ {
        Some(WorktreeAction::OpenShell)
    } else if a == "open-editor"@ {
        Some(WorktreeAction::OpenEditor)
    } else {
        None
    }
}

/// The action named `action`.
pub fn parse_action(action: &str) -> (r: Option<WorktreeAction>)
    ensures
        r == action_named(action@),
{
    if text_eq(action, "open-agent") {
        Some(WorktreeAction::OpenAgent)
    } else if text_eq(action, "open-shell") {
        Some(WorktreeAction::OpenShell)
    } else if text_eq(action, "open-editor") {
        Some(WorktreeAction::OpenEditor)
    } else {
        None
    }
}

/// Resolves an action request for workspace `name` of repository `repo`:
/// the workspace must be in the registry (else not found) and the action
/// must be one of the three (else a bad request).
pub fn handle_worktree_action(state: &XlaudeState, repo: &str, name: &str, action: &str) -> (r:
    Result<(WorktreeAction, WorktreeInfo), ActionError>)
    ensures
        !state.worktrees@.contains_key(key_of(repo@, name@)) ==> r matches Err(ActionError::NotFound(_)),
        state.worktrees@.contains_key(key_of(repo@, name@)) && action_named(action@) is None
            ==> r matches Err(ActionError::BadRequest(_)),
        state.worktrees@.contains_key(key_of(repo@, name@)) && action_named(action@) is Some ==> (
        r matches Ok((a, w)) && Some(a) == action_named(action@) && w == state.worktrees@[key_of(
            repo@,
            name@,
        )]),
{
    let key = XlaudeState::make_key(repo, name);
    let info = match state.worktrees.get(key.as_str()) {
        Some(w) => w.clone(),
        None => {
            let mut msg = owned("Worktree '");
            msg.append(key.as_str());
            msg.append("' not found");
            return Err(ActionError::NotFound(msg));
        },
    };
    match parse_action(action) {
        Some(a) => Ok((a, info)),
        None => {
            let mut msg = owned("Unsupported action '");
            msg.append(action);
            msg.append("'");
            Err(ActionError::BadRequest(msg))
        },
    }
}

/// An override is used when it holds more than whitespace.
pub open spec fn usable(o: Option<String>) -> bool {
    o matches Some(s) && trimmed(s@).len() > 0
}

/// The command chosen from an override, two environment values and a
/// default, in that order of preference.
pub open spec fn chosen_command(
    o: Option<String>,
    first: Option<String>,
    second: Option<String>,
    default: Seq<char>,
) -> Seq<char> {
    if usable(o) {
        o->0@
    } else {
        match first {
            Some(x) => x@,
            None => match second {
                Some(y) => y@,
                None => default,
            },
        }
    }
}

fn choose_command(o: Option<String>, first: Option<String>, second: Option<String>, default: &str) -> (r:
    String)
    ensures
        r@ == chosen_command(o, first, second, default@),
{
    if let Some(s) = o {
        let t = trim_text(s.as_str());
        if !t.as_str().is_empty() {
            return s;
        }
    }
    match first {
        Some(x) => x,
        None => match second {
            Some(y) => y,
            None => owned(default),
        },
    }
}

/// The editor command: the stored preference if not blank, else the
/// dashboard's editor variable, else `EDITOR`, else `code`.
pub fn editor_command(
    override_cmd: Option<String>,
    dashboard_editor: Option<String>,
    editor: Option<String>,
) -> (r: String)
    ensures
        r@ == chosen_command(override_cmd, dashboard_editor, editor, "code"@),
{
    choose_command(override_cmd, dashboard_editor, editor, "code")
}

/// The shell command: the stored preference if not blank, else the
/// dashboard's shell variable, else `SHELL`, else `/bin/zsh`.
pub fn shell_command(
    override_cmd: Option<String>,
    dashboard_shell: Option<String>,
    shell: Option<String>,
) -> (r: String)
    ensures
        r@ == chosen_command(override_cmd, dashboard_shell, shell, "/bin/zsh"@),
{
    choose_command(override_cmd, dashboard_shell, shell, "/bin/zsh")
}

/// What `shell_words::split` makes of a command line: its words, or `None`
/// when the line does not parse (an unclosed quote).
pub uninterp spec fn shell_words_of(s: Seq<char>) -> Option<Seq<Seq<char>>>;

/// Relies on `shell_words::split` to cut a command line into words the way
/// a POSIX shell would.
#[verifier::external_body]
fn split_words(s: &str) -> (r: Option<Vec<String>>)
    ensures
        match r {
            Some(v) => shell_words_of(s@) == Some(views(v@)),
            None => shell_words_of(s@) is None,
        },
{
    match shell_words::split(s) {
        Ok(v) => Some(v),
        Err(_) => None,
    }
}

/// A process to start, detached from the dashboard.
#[derive(Debug)]
pub struct LaunchPlan {
    pub program: String,
    pub args: Vec<String>,
    pub current_dir: Option<String>,
}

/// Why a command line could not be turned into a process.
#[derive(Debug, Clone, Copy, PartialEq, Eq, Structural)]
pub enum LaunchError {
    Unparsable,
    Empty,
}

/// A process from a command line's words: the first word is the program,
/// the others and then `extra` its arguments.
pub fn plan_from_words(words: Option<Vec<String>>, extra: Option<String>, current_dir: Option<String>) -> (r:
    Result<LaunchPlan, LaunchError>)
    ensures
        match words {
            None => r == Err::<LaunchPlan, LaunchError>(LaunchError::Unparsable),
            Some(w) => if w@.len() == 0 {
                r == Err::<LaunchPlan, LaunchError>(LaunchError::Empty)
            } else {
                r matches Ok(p) && p.program == w@[0] && p.current_dir == current_dir && p.args@
                    == match extra {
                    Some(e) => w@.skip(1).push(e),
                    None => w@.skip(1),
                }
            },
        },
{
    let mut w = match words {
        Some(w) => w,
        None => return Err(LaunchError::Unparsable),
    };
    if w.len() == 0 {
        return Err(LaunchError::Empty);
    }
    let ghost w0 = w@;
    let program = w.remove(0);
    proof {
        assert(w@ =~= w0.skip(1));
    }
    if let Some(e) = extra {
        w.push(e);
    }
    Ok(LaunchPlan { program, args: w, current_dir })
}

fn launch_failure(e: LaunchError, what: &str) -> (r: ActionError)
    ensures
        r matches ActionError::Internal(_),
{
    let mut msg = match e {
        LaunchError::Unparsable => owned("Failed to parse "),
        LaunchError::Empty => owned(""),
    };
    msg.append(what);
    match e {
        LaunchError::Unparsable => msg.append(" command"),
        LaunchError::Empty => msg.append(" command is empty"),
    }
    ActionError::Internal(msg)
}

/// Opens a shell in the workspace's directory, running the shell command.
pub fn launch_shell(
    info: &WorktreeInfo,
    shell_override: Option<String>,
    dashboard_shell: Option<String>,
    shell: Option<String>,
) -> (r: Result<LaunchPlan, ActionError>)
    ensures
        match shell_words_of(chosen_command(shell_override, dashboard_shell, shell, "/bin/zsh"@)) {
            Some(w) if w.len() > 0 => r matches Ok(p) && p.program@ == w[0] && views(p.args@) == w.skip(
                1,
            ) && p.current_dir == Some(info.path),
            _ => r matches Err(ActionError::Internal(_)),
        },
{
    let command = shell_command(shell_override, dashboard_shell, shell);
    let words = split_words(command.as_str());
    let ghost wv = words;
    match plan_from_words(words, None, Some(info.path.clone())) {
        Ok(p) => {
            proof {
                let w = wv->0;
                assert(views(p.args@) =~= views(w@).skip(1));
            }
            Ok(p)
        },
        Err(e) => Err(launch_failure(e, "shell")),
    }
}

/// Opens the workspace's directory in the editor command.
pub fn launch_editor(
    path: &str,
    editor_override: Option<String>,
    dashboard_editor: Option<String>,
    editor: Option<String>,
) -> (r: Result<LaunchPlan, ActionError>)
    ensures
        match shell_words_of(chosen_command(editor_override, dashboard_editor, editor, "code"@)) {
            Some(w) if w.len() > 0 => r matches Ok(p) && p.program@ == w[0] && views(p.args@) == w.skip(
                1,
            ).push(path@) && p.current_dir is None,
            _ => r matches Err(ActionError::Internal(_)),
        },
{
    let command = editor_command(editor_override, dashboard_editor, editor);
    let words = split_words(command.as_str());
    let ghost wv = words;
    match plan_from_words(words, Some(owned(path)), None) {
        Ok(p) => {
            proof {
                let w = wv->0;
                assert(views(p.args@) =~= views(w@).skip(1).push(path@));
            }
            Ok(p)
        },
        Err(e) => Err(launch_failure(e, "editor")),
    }
}

/// Starts the agent for the workspace through this program's own `open`
/// command.
pub fn launch_agent(info: &WorktreeInfo, program: String) -> (r: LaunchPlan)
    ensures
        r.program == program,
        views(r.args@) == seq!["open"@, info.name@],
        r.current_dir is None,
{
    let r = LaunchPlan { program, args: vec![owned("open"), info.name.clone()], current_dir: None };
    proof {
        assert(views(r.args@) =~= seq!["open"@, info.name@]);
    }
    r
}

} // verus!
