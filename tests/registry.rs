use xlaude::state::{Timestamp, WorktreeInfo, WorktreeMap, XlaudeState};

fn info(repo: &str, name: &str, path: &str) -> WorktreeInfo {
    WorktreeInfo {
        name: name.to_string(),
        branch: name.to_string(),
        path: path.to_string(),
        repo_name: repo.to_string(),
        created_at: Timestamp { secs: 1_700_000_000, nanos: 0 },
    }
}

#[test]
fn make_key_joins_with_slash() {
    assert_eq!(XlaudeState::make_key("repo", "feature-x"), "repo/feature-x");
    assert_eq!(XlaudeState::make_key("", ""), "/");
}

#[test]
fn make_key_distinguishes_pairs() {
    let a = XlaudeState::make_key("ab", "c");
    let b = XlaudeState::make_key("a", "bc");
    assert_ne!(a, b);
    assert_eq!(a.matches('/').count(), 1);
    assert_eq!(b.matches('/').count(), 1);
    assert_eq!(XlaudeState::make_key("ab", "c"), a);
}

#[test]
fn map_insert_get_remove() {
    let mut m = WorktreeMap::new();
    assert!(m.is_empty());
    m.insert("r/a".to_string(), info("r", "a", "/w/r-a"));
    m.insert("r/b".to_string(), info("r", "b", "/w/r-b"));
    assert_eq!(m.len(), 2);
    assert!(m.contains_key("r/a"));
    assert_eq!(m.get("r/b").unwrap().path, "/w/r-b");
    m.insert("r/a".to_string(), info("r", "a", "/elsewhere"));
    assert_eq!(m.len(), 2);
    assert_eq!(m.get("r/a").unwrap().path, "/elsewhere");
    let removed = m.remove("r/a").unwrap();
    assert_eq!(removed.path, "/elsewhere");
    assert!(m.remove("r/a").is_none());
    assert!(!m.contains_key("r/a"));
    assert_eq!(m.len(), 1);
}

#[test]
fn find_by_name_across_repositories() {
    let mut m = WorktreeMap::new();
    m.insert("one/x".to_string(), info("one", "x", "/w/one-x"));
    m.insert("two/y".to_string(), info("two", "y", "/w/two-y"));
    let (k, w) = m.find_by_name("y").unwrap();
    assert_eq!(k, "two/y");
    assert_eq!(w.repo_name, "two");
    assert!(m.find_by_name("z").is_none());
}

#[test]
fn entries_lists_each_key_once() {
    let mut m = WorktreeMap::new();
    m.insert("r/a".to_string(), info("r", "a", "/a"));
    m.insert("r/b".to_string(), info("r", "b", "/b"));
    m.insert("r/a".to_string(), info("r", "a", "/a2"));
    let mut keys: Vec<String> = m.entries().into_iter().map(|(k, _)| k).collect();
    keys.sort();
    assert_eq!(keys, vec!["r/a".to_string(), "r/b".to_string()]);
}

#[test]
fn legacy_document_is_migrated_once() {
    let doc = vec![
        ("feature-x".to_string(), info("repo", "feature-x", "/w/repo-feature-x")),
        ("other/y".to_string(), info("other", "y", "/w/other-y")),
    ];
    let (state, migrated) = XlaudeState::load(doc, None, Some("bash".to_string()));
    assert!(migrated);
    assert!(state.worktrees.contains_key("repo/feature-x"));
    assert!(state.worktrees.contains_key("other/y"));
    assert!(!state.worktrees.contains_key("feature-x"));
    assert_eq!(state.worktrees.len(), 2);
    assert_eq!(state.shell.as_deref(), Some("bash"));
    let saved = state.worktrees.entries();
    let (again, migrated_again) = XlaudeState::load(saved, None, None);
    assert!(!migrated_again);
    assert_eq!(again.worktrees.len(), 2);
    assert_eq!(again.worktrees.get("repo/feature-x").unwrap().path, "/w/repo-feature-x");
}

#[test]
fn reload_of_saved_registry_is_stable() {
    let doc = vec![
        ("b".to_string(), info("r", "b", "/w/r-b")),
        ("r/a".to_string(), info("r", "a", "/w/r-a")),
    ];
    let (first, _) = XlaudeState::load(doc, None, None);
    let mut saved1: Vec<(String, String)> =
        first.worktrees.entries().into_iter().map(|(k, w)| (k, w.path)).collect();
    let (second, migrated) = XlaudeState::load(first.worktrees.entries(), None, None);
    assert!(!migrated);
    let mut saved2: Vec<(String, String)> =
        second.worktrees.entries().into_iter().map(|(k, w)| (k, w.path)).collect();
    saved1.sort();
    saved2.sort();
    assert_eq!(saved1, saved2);
}

#[test]
fn later_document_entry_wins_a_key() {
    let doc = vec![
        ("x".to_string(), info("r", "x", "/first")),
        ("r/x".to_string(), info("r", "x", "/second")),
    ];
    let (state, migrated) = XlaudeState::load(doc, None, None);
    assert!(migrated);
    assert_eq!(state.worktrees.len(), 1);
    assert_eq!(state.worktrees.get("r/x").unwrap().path, "/second");
}

#[test]
fn empty_document_loads_empty_registry() {
    let (state, migrated) = XlaudeState::load(Vec::new(), None, None);
    assert!(!migrated);
    assert!(state.worktrees.is_empty());
    let fresh = XlaudeState::new();
    assert!(fresh.worktrees.is_empty());
    assert!(fresh.editor.is_none());
}

#[test]
fn timestamp_order() {
    let a = Timestamp { secs: 10, nanos: 5 };
    let b = Timestamp { secs: 10, nanos: 4 };
    let c = Timestamp { secs: 9, nanos: 999 };
    assert!(a.is_after(&b));
    assert!(b.is_after(&c));
    assert!(!a.is_after(&a));
}

#[test]
fn save_holds_entries_and_preferences() {
    let mut s = XlaudeState::new();
    s.editor = Some("vim".to_string());
    s.worktrees.insert("r/a".to_string(), info("r", "a", "/a"));
    let (entries, editor, shell) = s.save();
    assert_eq!(entries.len(), 1);
    assert_eq!(entries[0].0, "r/a");
    assert_eq!(editor.as_deref(), Some("vim"));
    assert!(shell.is_none());
}

#[test]
fn saved_document_is_in_key_order_and_stable() {
    let mut a = XlaudeState::new();
    a.worktrees.insert("r/b".to_string(), info("r", "b", "/b"));
    a.worktrees.insert("r/a".to_string(), info("r", "a", "/a"));
    a.worktrees.insert("q/z".to_string(), info("q", "z", "/z"));
    let mut b = XlaudeState::new();
    b.worktrees.insert("q/z".to_string(), info("q", "z", "/z"));
    b.worktrees.insert("r/a".to_string(), info("r", "a", "/a"));
    b.worktrees.insert("r/b".to_string(), info("r", "b", "/b"));
    let ka: Vec<String> = a.save().0.into_iter().map(|(k, _)| k).collect();
    let kb: Vec<String> = b.save().0.into_iter().map(|(k, _)| k).collect();
    assert_eq!(ka, vec!["q/z".to_string(), "r/a".to_string(), "r/b".to_string()]);
    assert_eq!(ka, kb);
    let (reloaded, migrated) = XlaudeState::load(a.save().0, None, None);
    assert!(!migrated);
    let kr: Vec<String> = reloaded.save().0.into_iter().map(|(k, _)| k).collect();
    assert_eq!(kr, ka);
}
