//! The workspace registry: a map from the composite key
//! `"{repo_name}/{workspace_name}"` to a workspace record, with the
//! document form that is persisted and the one-time key migration applied
//! when a document is loaded.

use vstd::prelude::*;

use crate::text::{
    contains_char, lemma_text_lt_irreflexive, lemma_text_lt_total, lemma_text_lt_transitive, push_char,
    text_eq, text_less, text_lt,
};

verus! {

broadcast use vstd::string::group_string_axioms;

/// A point in time, in whole seconds and nanoseconds since the Unix epoch (UTC).
#[derive(Clone, Copy, Debug, PartialEq, Eq, Structural)]
pub struct Timestamp {
    pub secs: i64,
    pub nanos: u32,
}

/// `a` lies strictly after `b`.
pub open spec fn later(a: Timestamp, b: Timestamp) -> bool {
    a.secs > b.secs || (a.secs == b.secs && a.nanos > b.nanos)
}

impl Timestamp {
    /// Whether `self` lies strictly after `other`.
    pub fn is_after(&self, other: &Timestamp) -> (r: bool)
        ensures
            r == later(*self, *other),
    {
        self.secs > other.secs || (self.secs == other.secs && self.nanos > other.nanos)
    }
}

/// One managed worktree or workspace.
#[derive(Debug)]
pub struct WorktreeInfo {
    /// The workspace name (second half of the key).
    pub name: String,
    /// The branch (branch model) or the workspace name (workspace model).
    pub branch: String,
    /// Absolute location of the working copy.
    pub path: String,
    /// The repository name (first half of the key).
    pub repo_name: String,
    pub created_at: Timestamp,
}

impl Clone for WorktreeInfo {
    fn clone(&self) -> (r: Self)
        ensures
            r == *self,
    {
        WorktreeInfo {
            name: self.name.clone(),
            branch: self.branch.clone(),
            path: self.path.clone(),
            repo_name: self.repo_name.clone(),
            created_at: self.created_at,
        }
    }
}

/// The composite key of a workspace.
pub open spec fn key_of(repo_name: Seq<char>, name: Seq<char>) -> Seq<char> {
    repo_name + seq!['/'] + name
}

/// A key of the legacy format, a bare workspace name.
pub open spec fn is_legacy_key(k: Seq<char>) -> bool {
    !k.contains('/')
}

/// The key under which a stored entry is kept after loading.
pub open spec fn migrated_key(k: Seq<char>, info: WorktreeInfo) -> Seq<char> {
    if is_legacy_key(k) {
        key_of(info.repo_name@, info.name@)
    } else {
        k
    }
}

/// A document entry seen through the key's characters.
pub type EntryView = (Seq<char>, WorktreeInfo);

/// The entries of a document, keys seen as characters.
pub open spec fn doc_view(d: Seq<(String, WorktreeInfo)>) -> Seq<EntryView> {
    d.map_values(|e: (String, WorktreeInfo)| (e.0@, e.1))
}

/// No key occurs twice.
pub open spec fn keys_unique(s: Seq<EntryView>) -> bool {
    forall|i: int, j: int| 0 <= i < s.len() && 0 <= j < s.len() && i != j ==> s[i].0 != s[j].0
}

/// Some entry has key `k`.
pub open spec fn has_key(s: Seq<EntryView>, k: Seq<char>) -> bool {
    exists|i: int| 0 <= i < s.len() && s[i].0 == k
}

/// The map that a sequence of entries with unique keys stands for.
pub open spec fn map_of(s: Seq<EntryView>) -> Map<Seq<char>, WorktreeInfo> {
    Map::new(
        |k: Seq<char>| has_key(s, k),
        |k: Seq<char>| s[choose|i: int| 0 <= i < s.len() && s[i].0 == k].1,
    )
}

/// The map obtained by inserting the entries of `s` in order, each under
/// its migrated key, later entries replacing earlier ones.
pub open spec fn loaded_map(s: Seq<EntryView>) -> Map<Seq<char>, WorktreeInfo>
    decreases s.len(),
{
    if s.len() == 0 {
        Map::empty()
    } else {
        let e = s.last();
        loaded_map(s.drop_last()).insert(migrated_key(e.0, e.1), e.1)
    }
}

/// Some key of the document has the legacy format.
pub open spec fn needs_migration(s: Seq<EntryView>) -> bool {
    exists|i: int| 0 <= i < s.len() && is_legacy_key(#[trigger] s[i].0)
}

/// With unique keys, each entry is what the map holds under its key.
pub proof fn lemma_map_of_at(s: Seq<EntryView>, i: int)
    requires
        keys_unique(s),
        0 <= i < s.len(),
    ensures
        map_of(s).contains_key(s[i].0),
        map_of(s)[s[i].0] == s[i].1,
{
    let k = s[i].0;
    assert(has_key(s, k));
    let j = choose|j: int| 0 <= j < s.len() && s[j].0 == k;
    assert(j == i);
}

proof fn lemma_map_of_push(s: Seq<EntryView>, e: EntryView)
    requires
        keys_unique(s),
        !has_key(s, e.0),
    ensures
        keys_unique(s.push(e)),
        map_of(s.push(e)) == map_of(s).insert(e.0, e.1),
{
    let t = s.push(e);
    assert forall|i: int, j: int| 0 <= i < t.len() && 0 <= j < t.len() && i != j implies t[i].0
        != t[j].0 by {
        if i < s.len() && j < s.len() {
            assert(t[i] == s[i] && t[j] == s[j]);
        } else if i < s.len() {
            assert(t[i] == s[i]);
        } else {
            assert(t[j] == s[j]);
        }
    }
    let m = map_of(s).insert(e.0, e.1);
    assert forall|k: Seq<char>| #[trigger] map_of(t).contains_key(k) <==> m.contains_key(k) by {
        if has_key(t, k) {
            let i = choose|i: int| 0 <= i < t.len() && t[i].0 == k;
            if i < s.len() {
                assert(s[i] == t[i]);
                assert(has_key(s, k));
            }
        }
        if has_key(s, k) {
            let i = choose|i: int| 0 <= i < s.len() && s[i].0 == k;
            assert(t[i] == s[i]);
        }
        if k == e.0 {
            assert(t[s.len() as int] == e);
        }
    }
    assert forall|k: Seq<char>| #[trigger] map_of(t).contains_key(k) implies map_of(t)[k]
        == m[k] by {
        let i = choose|i: int| 0 <= i < t.len() && t[i].0 == k;
        lemma_map_of_at(t, i);
        if i < s.len() {
            assert(t[i] == s[i]);
            lemma_map_of_at(s, i);
        }
    }
    assert(map_of(t) =~= m);
}

proof fn lemma_map_of_update(s: Seq<EntryView>, i: int, v: WorktreeInfo)
    requires
        keys_unique(s),
        0 <= i < s.len(),
    ensures
        keys_unique(s.update(i, (s[i].0, v))),
        map_of(s.update(i, (s[i].0, v))) == map_of(s).insert(s[i].0, v),
{
    let k0 = s[i].0;
    let t = s.update(i, (k0, v));
    assert forall|a: int, b: int| 0 <= a < t.len() && 0 <= b < t.len() && a != b implies t[a].0
        != t[b].0 by {
        assert(t[a].0 == s[a].0 && t[b].0 == s[b].0);
    }
    let m = map_of(s).insert(k0, v);
    assert forall|k: Seq<char>| #[trigger] map_of(t).contains_key(k) <==> m.contains_key(k) by {
        if has_key(t, k) {
            let j = choose|j: int| 0 <= j < t.len() && t[j].0 == k;
            assert(s[j].0 == k);
        }
        if has_key(s, k) {
            let j = choose|j: int| 0 <= j < s.len() && s[j].0 == k;
            assert(t[j].0 == k);
        }
        assert(s[i].0 == k0);
    }
    assert forall|k: Seq<char>| #[trigger] map_of(t).contains_key(k) implies map_of(t)[k]
        == m[k] by {
        let j = choose|j: int| 0 <= j < t.len() && t[j].0 == k;
        lemma_map_of_at(t, j);
        if j != i {
            assert(t[j] == s[j]);
            lemma_map_of_at(s, j);
        }
    }
    assert(map_of(t) =~= m);
}

proof fn lemma_map_of_remove(s: Seq<EntryView>, i: int)
    requires
        keys_unique(s),
        0 <= i < s.len(),
    ensures
        keys_unique(s.remove(i)),
        map_of(s.remove(i)) == map_of(s).remove(s[i].0),
{
    let k0 = s[i].0;
    let t = s.remove(i);
    assert forall|a: int, b: int| 0 <= a < t.len() && 0 <= b < t.len() && a != b implies t[a].0
        != t[b].0 by {
        let a1 = if a < i { a } else { a + 1 };
        let b1 = if b < i { b } else { b + 1 };
        assert(t[a] == s[a1] && t[b] == s[b1]);
    }
    let m = map_of(s).remove(k0);
    assert forall|k: Seq<char>| #[trigger] map_of(t).contains_key(k) <==> m.contains_key(k) by {
        if has_key(t, k) {
            let j = choose|j: int| 0 <= j < t.len() && t[j].0 == k;
            let j1 = if j < i { j } else { j + 1 };
            assert(t[j] == s[j1]);
            assert(has_key(s, k));
        }
        if has_key(s, k) && k != k0 {
            let j = choose|j: int| 0 <= j < s.len() && s[j].0 == k;
            assert(j != i);
            let j1 = if j < i { j } else { j - 1 };
            assert(t[j1] == s[j]);
        }
    }
    assert forall|k: Seq<char>| #[trigger] map_of(t).contains_key(k) implies map_of(t)[k]
        == m[k] by {
        let j = choose|j: int| 0 <= j < t.len() && t[j].0 == k;
        lemma_map_of_at(t, j);
        let j1 = if j < i { j } else { j + 1 };
        assert(t[j] == s[j1]);
        lemma_map_of_at(s, j1);
    }
    assert(map_of(t) =~= m);
}

/// The map of entries with unique keys has as many keys as there are entries.
pub proof fn lemma_len_of_unique(s: Seq<EntryView>)
    requires
        keys_unique(s),
    ensures
        map_of(s).dom().finite(),
        map_of(s).len() == s.len(),
{
    let ks = s.map_values(|e: EntryView| e.0);
    assert(ks.no_duplicates()) by {
        assert forall|i: int, j: int| 0 <= i < ks.len() && 0 <= j < ks.len() && i != j implies ks[i]
            != ks[j] by {}
    }
    ks.unique_seq_to_set();
    assert(map_of(s).dom() =~= ks.to_set()) by {
        assert forall|k: Seq<char>| map_of(s).dom().contains(k) implies ks.to_set().contains(k) by {
            let i = choose|i: int| 0 <= i < s.len() && s[i].0 == k;
            assert(ks[i] == k);
        }
        assert forall|k: Seq<char>| ks.to_set().contains(k) implies map_of(s).dom().contains(k) by {
            let i = choose|i: int| 0 <= i < ks.len() && ks[i] == k;
            assert(s[i].0 == k);
        }
    }
    vstd::seq_lib::seq_to_set_is_finite(ks);
}

/// Every managed workspace under its composite key; no key occurs twice.
#[derive(Debug)]
pub struct WorktreeMap {
    worktrees: Vec<(String, WorktreeInfo)>,
}

impl WorktreeMap {
    /// The stored entries, keys seen as characters.
    pub closed spec fn stored(&self) -> Seq<EntryView> {
        doc_view(self.worktrees@)
    }

    #[verifier::type_invariant]
    closed spec fn inv(&self) -> bool {
        keys_unique(self.stored())
    }

    /// The registry as a map from key to record.
    pub closed spec fn view(&self) -> Map<Seq<char>, WorktreeInfo> {
        map_of(self.stored())
    }

    /// An empty map.
    pub fn new() -> (r: Self)
        ensures
            r@ == Map::<Seq<char>, WorktreeInfo>::empty(),
    {
        let r = WorktreeMap { worktrees: Vec::new() };
        proof {
            assert(r.stored() =~= Seq::<EntryView>::empty());
            assert(map_of(r.stored()) =~= Map::<Seq<char>, WorktreeInfo>::empty());
        }
        r
    }

    /// Position of `key` among the stored entries.
    fn position(&self, key: &str) -> (r: Option<usize>)
        ensures
            match r {
                Some(i) => i < self.stored().len() && self.stored()[i as int].0 == key@,
                None => !has_key(self.stored(), key@),
            },
    {
        let mut i: usize = 0;
        while i < self.worktrees.len()
            invariant
                i <= self.worktrees.len(),
                forall|j: int| 0 <= j < i ==> self.stored()[j].0 != key@,
            decreases self.worktrees.len() - i,
        {
            if text_eq(self.worktrees[i].0.as_str(), key) {
                return Some(i);
            }
            i += 1;
        }
        None
    }

    /// Number of managed workspaces.
    pub fn len(&self) -> (r: usize)
        ensures
            r == self@.len(),
    {
        proof {
            use_type_invariant(self);
            self.lemma_len();
        }
        self.worktrees.len()
    }

    proof fn lemma_len(&self)
        requires
            keys_unique(self.stored()),
        ensures
            self@.dom().len() == self.stored().len(),
            self@.dom().finite(),
    {
        let s = self.stored();
        let ks = s.map_values(|e: EntryView| e.0);
        assert(ks.no_duplicates()) by {
            assert forall|i: int, j: int| 0 <= i < ks.len() && 0 <= j < ks.len() && i != j implies ks[i]
                != ks[j] by {}
        }
        ks.unique_seq_to_set();
        assert(self@.dom() =~= ks.to_set()) by {
            assert forall|k: Seq<char>| self@.dom().contains(k) implies ks.to_set().contains(k) by {
                let i = choose|i: int| 0 <= i < s.len() && s[i].0 == k;
                assert(ks[i] == k);
            }
            assert forall|k: Seq<char>| ks.to_set().contains(k) implies self@.dom().contains(k) by {
                let i = choose|i: int| 0 <= i < ks.len() && ks[i] == k;
                assert(s[i].0 == k);
            }
        }
        vstd::seq_lib::seq_to_set_is_finite(ks);
    }

    /// Whether no workspace is managed.
    pub fn is_empty(&self) -> (r: bool)
        ensures
            r == (self@.len() == 0),
    {
        self.len() == 0
    }

    /// Whether `key` is in the registry.
    pub fn contains_key(&self, key: &str) -> (r: bool)
        ensures
            r == self@.contains_key(key@),
    {
        self.position(key).is_some()
    }

    /// The record under `key`, if any.
    pub fn get(&self, key: &str) -> (r: Option<&WorktreeInfo>)
        ensures
            match r {
                Some(w) => self@.contains_key(key@) && *w == self@[key@],
                None => !self@.contains_key(key@),
            },
    {
        proof {
            use_type_invariant(self);
        }
        match self.position(key) {
            Some(i) => {
                proof {
                    lemma_map_of_at(self.stored(), i as int);
                }
                Some(&self.worktrees[i].1)
            },
            None => None,
        }
    }

    /// Puts `info` under `key`, replacing a record already there.
    pub fn insert(&mut self, key: String, info: WorktreeInfo)
        ensures
            final(self)@ == old(self)@.insert(key@, info),
    {
        proof {
            use_type_invariant(&*self);
        }
        let ghost s = self.stored();
        match self.position(key.as_str()) {
            Some(i) => {
                let mut v = Vec::new();
                std::mem::swap(&mut v, &mut self.worktrees);
                let ghost kk = v@[i as int].0;
                v.set(i, (key, info));
                proof {
                    assert(doc_view(v@) =~= s.update(i as int, (s[i as int].0, info)));
                    lemma_map_of_update(s, i as int, info);
                }
                self.worktrees = v;
            },
            None => {
                let mut v = Vec::new();
                std::mem::swap(&mut v, &mut self.worktrees);
                let ghost kv = key@;
                v.push((key, info));
                proof {
                    assert(doc_view(v@) =~= s.push((kv, info)));
                    lemma_map_of_push(s, (kv, info));
                }
                self.worktrees = v;
            },
        }
    }

    /// Takes the record under `key` out of the registry.
    pub fn remove(&mut self, key: &str) -> (r: Option<WorktreeInfo>)
        ensures
            final(self)@ == old(self)@.remove(key@),
            match r {
                Some(w) => old(self)@.contains_key(key@) && w == old(self)@[key@],
                None => !old(self)@.contains_key(key@),
            },
    {
        proof {
            use_type_invariant(&*self);
        }
        let ghost s = self.stored();
        match self.position(key) {
            Some(i) => {
                let mut v = Vec::new();
                std::mem::swap(&mut v, &mut self.worktrees);
                let e = v.remove(i);
                proof {
                    assert(doc_view(v@) =~= s.remove(i as int));
                    lemma_map_of_remove(s, i as int);
                    lemma_map_of_at(s, i as int);
                }
                self.worktrees = v;
                Some(e.1)
            },
            None => {
                proof {
                    assert(map_of(s).remove(key@) =~= map_of(s));
                }
                None
            },
        }
    }

    /// All entries, each key once, in storage order.
    pub fn entries(&self) -> (r: Vec<(String, WorktreeInfo)>)
        ensures
            keys_unique(doc_view(r@)),
            map_of(doc_view(r@)) == self@,
    {
        proof {
            use_type_invariant(self);
        }
        let mut out: Vec<(String, WorktreeInfo)> = Vec::new();
        let mut i: usize = 0;
        while i < self.worktrees.len()
            invariant
                i <= self.worktrees.len(),
                doc_view(out@) == self.stored().take(i as int),
            decreases self.worktrees.len() - i,
        {
            let e = &self.worktrees[i];
            let k = e.0.clone();
            let w = e.1.clone();
            let ghost before = out@;
            out.push((k, w));
            proof {
                assert(doc_view(out@) =~= doc_view(before).push(self.stored()[i as int]));
                assert(self.stored().take(i + 1) =~= self.stored().take(i as int).push(
                    self.stored()[i as int],
                ));
            }
            i += 1;
        }
        proof {
            assert(self.stored().take(self.stored().len() as int) =~= self.stored());
        }
        out
    }

    /// Some entry whose record has the workspace name `name`, with its key.
    pub fn find_by_name(&self, name: &str) -> (r: Option<(String, WorktreeInfo)>)
        ensures
            match r {
                Some((k, w)) => self@.contains_key(k@) && self@[k@] == w && w.name@ == name@,
                None => forall|k: Seq<char>| #[trigger]
                    self@.contains_key(k) ==> self@[k].name@ != name@,
            },
    {
        proof {
            use_type_invariant(self);
        }
        let mut i: usize = 0;
        while i < self.worktrees.len()
            invariant
                i <= self.worktrees.len(),
                keys_unique(self.stored()),
                forall|j: int| 0 <= j < i ==> self.stored()[j].1.name@ != name@,
            decreases self.worktrees.len() - i,
        {
            if text_eq(self.worktrees[i].1.name.as_str(), name) {
                proof {
                    lemma_map_of_at(self.stored(), i as int);
                }
                return Some((self.worktrees[i].0.clone(), self.worktrees[i].1.clone()));
            }
            i += 1;
        }
        proof {
            assert forall|k: Seq<char>| #[trigger] self@.contains_key(k) implies self@[k].name@
                != name@ by {
                let j = choose|j: int| 0 <= j < self.stored().len() && self.stored()[j].0 == k;
                lemma_map_of_at(self.stored(), j);
            }
        }
        None
    }
}

/// The registry: the managed workspaces and the two free-text preferences
/// (editor command and shell command).
#[derive(Debug)]
pub struct XlaudeState {
    pub worktrees: WorktreeMap,
    pub editor: Option<String>,
    pub shell: Option<String>,
}

impl XlaudeState {
    /// The composite key `"{repo_name}/{worktree_name}"`.
    pub fn make_key(repo_name: &str, worktree_name: &str) -> (r: String)
        ensures
            r@ == key_of(repo_name@, worktree_name@),
    {
        let mut k = repo_name.to_owned();
        push_char(&mut k, '/');
        let r = k.concat(worktree_name);
        r
    }

    /// An empty registry with no preferences set.
    pub fn new() -> (r: Self)
        ensures
            r.worktrees@ == Map::<Seq<char>, WorktreeInfo>::empty(),
            r.editor is None,
            r.shell is None,
    {
        XlaudeState { worktrees: WorktreeMap::new(), editor: None, shell: None }
    }

    /// The registry that a stored document stands for. Each entry is put
    /// under its migrated key, in document order; the flag says whether some
    /// key had the legacy format, in which case the caller writes the
    /// registry back once.
    pub fn load(
        doc: Vec<(String, WorktreeInfo)>,
        editor: Option<String>,
        shell: Option<String>,
    ) -> (r: (XlaudeState, bool))
        ensures
            r.0.worktrees@ == loaded_map(doc_view(doc@)),
            r.0.editor == editor,
            r.0.shell == shell,
            r.1 == needs_migration(doc_view(doc@)),
    {
        let ghost d = doc_view(doc@);
        let mut map = WorktreeMap::new();
        let mut migrate = false;
        let mut i: usize = 0;
        while i < doc.len()
            invariant
                i <= doc.len(),
                d == doc_view(doc@),
                map@ == loaded_map(d.take(i as int)),
                migrate == needs_migration(d.take(i as int)),
            decreases doc.len() - i,
        {
            let k = &doc[i].0;
            let info = doc[i].1.clone();
            let legacy = !contains_char(k.as_str(), '/');
            let key = if legacy {
                XlaudeState::make_key(info.repo_name.as_str(), info.name.as_str())
            } else {
                k.clone()
            };
            proof {
                assert(d[i as int] == (k@, info));
                assert(d.take(i + 1).drop_last() =~= d.take(i as int));
                assert(d.take(i + 1).last() == d[i as int]);
                if legacy {
                    assert(d.take(i + 1)[i as int] == d[i as int]);
                }
                if needs_migration(d.take(i as int)) {
                    let j = choose|j: int| 0 <= j < i && is_legacy_key(#[trigger] d.take(i as int)[j].0);
                    assert(d.take(i + 1)[j] == d.take(i as int)[j]);
                }
                if needs_migration(d.take(i + 1)) && !legacy {
                    let j = choose|j: int| 0 <= j < i + 1 && is_legacy_key(#[trigger] d.take(i + 1)[j].0);
                    assert(d.take(i as int)[j] == d.take(i + 1)[j]);
                }
            }
            map.insert(key, info);
            migrate = migrate || legacy;
            i += 1;
        }
        proof {
            assert(d.take(d.len() as int) =~= d);
        }
        (XlaudeState { worktrees: map, editor, shell }, migrate)
    }

    /// The document that stores the registry: every entry under its key,
    /// in ascending key order, and the two preferences.
    pub fn save(&self) -> (r: (Vec<(String, WorktreeInfo)>, Option<String>, Option<String>))
        ensures
            keys_unique(doc_view(r.0@)),
            keys_ascending(doc_view(r.0@)),
            map_of(doc_view(r.0@)) == self.worktrees@,
            r.1 == self.editor,
            r.2 == self.shell,
    {
        let editor = match &self.editor {
            Some(e) => Some(e.clone()),
            None => None,
        };
        let shell = match &self.shell {
            Some(s) => Some(s.clone()),
            None => None,
        };
        (sort_by_key(self.worktrees.entries()), editor, shell)
    }
}

/// Keys are in strictly ascending order.
pub open spec fn keys_ascending(s: Seq<EntryView>) -> bool {
    forall|i: int, j: int| 0 <= i < j < s.len() ==> text_lt(#[trigger] s[i].0, #[trigger] s[j].0)
}

proof fn lemma_map_of_insert(s: Seq<EntryView>, p: int, e: EntryView)
    requires
        keys_unique(s),
        !has_key(s, e.0),
        0 <= p <= s.len(),
    ensures
        keys_unique(s.insert(p, e)),
        map_of(s.insert(p, e)) == map_of(s).insert(e.0, e.1),
{
    let t = s.insert(p, e);
    assert forall|i: int| 0 <= i < t.len() implies #[trigger] t[i] == (if i < p {
        s[i]
    } else if i == p {
        e
    } else {
        s[i - 1]
    }) by {}
    assert forall|i: int, j: int| 0 <= i < t.len() && 0 <= j < t.len() && i != j implies t[i].0
        != t[j].0 by {
        if i != p && j != p {
            let i1 = if i < p { i } else { i - 1 };
            let j1 = if j < p { j } else { j - 1 };
            assert(t[i] == s[i1] && t[j] == s[j1]);
        } else if i == p {
            let j1 = if j < p { j } else { j - 1 };
            assert(t[j] == s[j1]);
        } else {
            let i1 = if i < p { i } else { i - 1 };
            assert(t[i] == s[i1]);
        }
    }
    let m = map_of(s).insert(e.0, e.1);
    assert forall|k: Seq<char>| #[trigger] map_of(t).contains_key(k) <==> m.contains_key(k) by {
        if has_key(t, k) {
            let i = choose|i: int| 0 <= i < t.len() && t[i].0 == k;
            if i != p {
                let i1 = if i < p { i } else { i - 1 };
                assert(t[i] == s[i1]);
                assert(has_key(s, k));
            }
        }
        if has_key(s, k) {
            let i = choose|i: int| 0 <= i < s.len() && s[i].0 == k;
            let i1 = if i < p { i } else { i + 1 };
            assert(t[i1] == s[i]);
        }
        if k == e.0 {
            assert(t[p] == e);
        }
    }
    assert forall|k: Seq<char>| #[trigger] map_of(t).contains_key(k) implies map_of(t)[k] == m[k] by {
        let i = choose|i: int| 0 <= i < t.len() && t[i].0 == k;
        lemma_map_of_at(t, i);
        if i != p {
            let i1 = if i < p { i } else { i - 1 };
            assert(t[i] == s[i1]);
            lemma_map_of_at(s, i1);
        }
    }
    assert(map_of(t) =~= m);
}

/// The entries of `v` in ascending key order.
fn sort_by_key(v: Vec<(String, WorktreeInfo)>) -> (r: Vec<(String, WorktreeInfo)>)
    requires
        keys_unique(doc_view(v@)),
    ensures
        keys_unique(doc_view(r@)),
        keys_ascending(doc_view(r@)),
        map_of(doc_view(r@)) == map_of(doc_view(v@)),
{
    let ghost d = doc_view(v@);
    let mut out: Vec<(String, WorktreeInfo)> = Vec::new();
    let mut i: usize = 0;
    proof {
        assert(doc_view(out@) =~= Seq::<EntryView>::empty());
        assert(d.take(0) =~= Seq::<EntryView>::empty());
    }
    while i < v.len()
        invariant
            i <= v.len(),
            d == doc_view(v@),
            keys_unique(d),
            keys_unique(doc_view(out@)),
            keys_ascending(doc_view(out@)),
            map_of(doc_view(out@)) == map_of(d.take(i as int)),
        decreases v.len() - i,
    {
        let key = v[i].0.clone();
        let info = v[i].1.clone();
        let ghost o = doc_view(out@);
        let ghost e = (key@, info);
        proof {
            assert(d[i as int] == e);
            let ti = d.take(i as int);
            assert(keys_unique(ti));
            assert(!has_key(ti, e.0)) by {
                if has_key(ti, e.0) {
                    let j = choose|j: int| 0 <= j < ti.len() && ti[j].0 == e.0;
                    assert(d[j].0 == d[i as int].0);
                }
            }
            assert(d.take(i + 1) =~= ti.push(e));
            lemma_map_of_push(ti, e);
            assert(!has_key(o, e.0)) by {
                if has_key(o, e.0) {
                    assert(map_of(o).contains_key(e.0));
                }
            }
        }
        let mut p: usize = 0;
        while p < out.len() && !text_less(key.as_str(), out[p].0.as_str())
            invariant
                p <= out.len(),
                o == doc_view(out@),
                e == (key@, info),
                forall|q: int| 0 <= q < p ==> !text_lt(e.0, #[trigger] o[q].0),
            decreases out.len() - p,
        {
            p += 1;
        }
        out.insert(p, (key, info));
        proof {
            assert(doc_view(out@) =~= o.insert(p as int, e));
            lemma_map_of_insert(o, p as int, e);
            let t = o.insert(p as int, e);
            assert forall|a: int, b: int| 0 <= a < b < t.len() implies text_lt(
                #[trigger] t[a].0,
                #[trigger] t[b].0,
            ) by {
                if b < p {
                    assert(t[a] == o[a] && t[b] == o[b]);
                } else if b == p {
                    assert(t[a] == o[a]);
                    assert(o[a].0 != e.0) by {
                        assert(has_key(o, o[a].0));
                    }
                    lemma_text_lt_total(o[a].0, e.0);
                } else if a > p {
                    assert(t[a] == o[a - 1] && t[b] == o[b - 1]);
                } else if a == p {
                    assert(t[b] == o[b - 1]);
                    if b - 1 == p {
                    } else {
                        assert(text_lt(o[p as int].0, o[b - 1].0));
                        lemma_text_lt_transitive(e.0, o[p as int].0, o[b - 1].0);
                    }
                } else {
                    assert(t[a] == o[a] && t[b] == o[b - 1]);
                }
            }
        }
        i += 1;
    }
    proof {
        assert(d.take(d.len() as int) =~= d);
    }
    out
}

proof fn lemma_ascending_drop_first(s: Seq<EntryView>)
    requires
        s.len() > 0,
        keys_ascending(s),
    ensures
        keys_ascending(s.remove(0)),
{
    let t = s.remove(0);
    assert forall|i: int, j: int| 0 <= i < j < t.len() implies text_lt(#[trigger] t[i].0, #[trigger] t[j].0) by {
        assert(t[i] == s[i + 1] && t[j] == s[j + 1]);
    }
}

/// Two documents in ascending key order that stand for the same registry
/// are the same document.
pub proof fn lemma_ascending_document_is_unique(a: Seq<EntryView>, b: Seq<EntryView>)
    requires
        keys_unique(a),
        keys_unique(b),
        keys_ascending(a),
        keys_ascending(b),
        map_of(a) == map_of(b),
    ensures
        a == b,
    decreases a.len(),
{
    if a.len() == 0 || b.len() == 0 {
        if a.len() > 0 {
            assert(map_of(a).contains_key(a[0].0));
        }
        if b.len() > 0 {
            assert(map_of(b).contains_key(b[0].0));
        }
        assert(a =~= b);
    } else {
        let ka = a[0].0;
        let kb = b[0].0;
        assert(map_of(b).contains_key(ka));
        assert(map_of(a).contains_key(kb));
        let j = choose|j: int| 0 <= j < a.len() && a[j].0 == kb;
        let k = choose|k: int| 0 <= k < b.len() && b[k].0 == ka;
        if j > 0 && k > 0 {
            assert(text_lt(ka, kb));
            assert(text_lt(kb, ka));
            lemma_text_lt_transitive(ka, kb, ka);
            lemma_text_lt_irreflexive(ka);
        }
        assert(ka == kb);
        lemma_map_of_at(a, 0);
        lemma_map_of_at(b, 0);
        assert(a[0] == b[0]);
        lemma_map_of_remove(a, 0);
        lemma_map_of_remove(b, 0);
        lemma_ascending_drop_first(a);
        lemma_ascending_drop_first(b);
        lemma_ascending_document_is_unique(a.remove(0), b.remove(0));
        assert(a =~= seq![a[0]] + a.remove(0));
        assert(b =~= seq![b[0]] + b.remove(0));
    }
}

/// Loading a stored document and saving it, twice over, writes the same
/// document both times: `first` is what `XlaudeState::save` yields for the
/// registry loaded from `stored`, and `second` what it yields for the
/// registry loaded from `first`. Loading `first` asks for no write-back.
pub proof fn lemma_resave_is_identical(
    stored: Seq<EntryView>,
    first: Seq<EntryView>,
    second: Seq<EntryView>,
)
    requires
        keys_unique(first),
        keys_ascending(first),
        map_of(first) == loaded_map(stored),
        keys_unique(second),
        keys_ascending(second),
        map_of(second) == loaded_map(first),
    ensures
        second == first,
        !needs_migration(first),
{
    lemma_reload_is_stable(stored, first);
    lemma_ascending_document_is_unique(second, first);
}

/// Two workspaces whose names hold no `/` get the same key exactly when
/// they have the same repository name and the same workspace name, and each
/// key holds exactly one `/`.
pub proof fn lemma_make_key_injective(r1: Seq<char>, n1: Seq<char>, r2: Seq<char>, n2: Seq<char>)
    requires
        !r1.contains('/'),
        !n1.contains('/'),
        !r2.contains('/'),
        !n2.contains('/'),
    ensures
        key_of(r1, n1) == key_of(r2, n2) <==> (r1 == r2 && n1 == n2),
        exists|i: int|
            0 <= i < key_of(r1, n1).len() && key_of(r1, n1)[i] == '/' && forall|j: int|
                0 <= j < key_of(r1, n1).len() && #[trigger] key_of(r1, n1)[j] == '/' ==> j == i,
{
    let k1 = key_of(r1, n1);
    let k2 = key_of(r2, n2);
    if k1 == k2 {
        if r1.len() < r2.len() {
            assert(k1[r1.len() as int] == '/');
            assert(k2[r1.len() as int] == r2[r1.len() as int]);
            assert(r2.contains(r2[r1.len() as int]));
        } else if r2.len() < r1.len() {
            assert(k2[r2.len() as int] == '/');
            assert(k1[r2.len() as int] == r1[r2.len() as int]);
            assert(r1.contains(r1[r2.len() as int]));
        }
        assert(r1 =~= k1.take(r1.len() as int));
        assert(r2 =~= k2.take(r2.len() as int));
        assert(n1 =~= k1.skip(r1.len() as int + 1));
        assert(n2 =~= k2.skip(r2.len() as int + 1));
    }
    let p = r1.len() as int;
    assert(k1[p] == '/');
    assert forall|j: int| 0 <= j < k1.len() && #[trigger] k1[j] == '/' implies j == p by {
        if j < p {
            assert(k1[j] == r1[j]);
            assert(r1.contains(r1[j]));
        } else if j > p {
            assert(k1[j] == n1[j - p - 1]);
            assert(n1.contains(n1[j - p - 1]));
        }
    }
}

proof fn lemma_key_of_composite(r: Seq<char>, n: Seq<char>)
    ensures
        !is_legacy_key(key_of(r, n)),
{
    assert(key_of(r, n)[r.len() as int] == '/');
}

proof fn lemma_loaded_keys_composite(s: Seq<EntryView>)
    ensures
        forall|k: Seq<char>| #[trigger] loaded_map(s).contains_key(k) ==> !is_legacy_key(k),
    decreases s.len(),
{
    if s.len() > 0 {
        lemma_loaded_keys_composite(s.drop_last());
        let e = s.last();
        lemma_key_of_composite(e.1.repo_name@, e.1.name@);
        assert(!is_legacy_key(migrated_key(e.0, e.1)));
        assert forall|k: Seq<char>| #[trigger] loaded_map(s).contains_key(k) implies !is_legacy_key(
            k,
        ) by {
            if k != migrated_key(e.0, e.1) {
                assert(loaded_map(s.drop_last()).contains_key(k));
            }
        }
    }
}

proof fn lemma_loaded_is_map(s: Seq<EntryView>)
    requires
        keys_unique(s),
        forall|i: int| 0 <= i < s.len() ==> !is_legacy_key(#[trigger] s[i].0),
    ensures
        loaded_map(s) == map_of(s),
    decreases s.len(),
{
    if s.len() == 0 {
        assert(map_of(s) =~= Map::<Seq<char>, WorktreeInfo>::empty());
    } else {
        let t = s.drop_last();
        let e = s.last();
        assert forall|i: int, j: int| 0 <= i < t.len() && 0 <= j < t.len() && i != j implies t[i].0
            != t[j].0 by {
            assert(t[i] == s[i] && t[j] == s[j]);
        }
        assert forall|i: int| 0 <= i < t.len() implies !is_legacy_key(#[trigger] t[i].0) by {
            assert(t[i] == s[i]);
        }
        lemma_loaded_is_map(t);
        assert(!has_key(t, e.0)) by {
            if has_key(t, e.0) {
                let i = choose|i: int| 0 <= i < t.len() && t[i].0 == e.0;
                assert(s[i] == t[i]);
                assert(s[s.len() - 1] == e);
            }
        }
        assert(!is_legacy_key(s[s.len() - 1].0));
        assert(t.push(e) =~= s);
        lemma_map_of_push(t, e);
    }
}

/// Saving a loaded registry and loading it again gives back the same
/// registry and asks for no further write-back, so every later save writes
/// the same entries: `saved` is any document holding the registry loaded
/// from `stored`, as `XlaudeState::save` yields it.
pub proof fn lemma_reload_is_stable(stored: Seq<EntryView>, saved: Seq<EntryView>)
    requires
        keys_unique(saved),
        map_of(saved) == loaded_map(stored),
    ensures
        loaded_map(saved) == loaded_map(stored),
        !needs_migration(saved),
{
    lemma_loaded_keys_composite(stored);
    assert forall|i: int| 0 <= i < saved.len() implies !is_legacy_key(#[trigger] saved[i].0) by {
        assert(has_key(saved, saved[i].0));
        assert(map_of(saved).contains_key(saved[i].0));
    }
    lemma_loaded_is_map(saved);
}

/// A document with a legacy key asks for a write-back when it is loaded;
/// every key of the loaded registry is composite, an entry stored under a
/// bare name sits under `key_of(repo_name, name)` unless a later entry of the
/// document takes that key, and loading the written-back document migrates
/// nothing more.
pub proof fn lemma_migration_runs_once(stored: Seq<EntryView>, saved: Seq<EntryView>)
    requires
        exists|i: int| 0 <= i < stored.len() && is_legacy_key(#[trigger] stored[i].0),
        keys_unique(saved),
        map_of(saved) == loaded_map(stored),
    ensures
        needs_migration(stored),
        forall|k: Seq<char>| #[trigger] loaded_map(stored).contains_key(k) ==> !is_legacy_key(k),
        is_legacy_key(stored.last().0) ==> loaded_map(stored)[key_of(
            stored.last().1.repo_name@,
            stored.last().1.name@,
        )] == stored.last().1,
        !needs_migration(saved),
        loaded_map(saved) == loaded_map(stored),
{
    lemma_loaded_keys_composite(stored);
    lemma_reload_is_stable(stored, saved);
}

} // verus!
