//! Paths as plain text with `/` separators, as the version-control tools
//! print them.

use vstd::prelude::*;

use crate::text::{chars_of, last_index, rfind_char, string_of};

verus! {

broadcast use vstd::string::group_string_axioms;

/// The last component of `p`: the text after its last `/`, if not empty.
pub open spec fn base_name(p: Seq<char>) -> Option<Seq<char>> {
    let rest = p.skip(last_index(p, '/') + 1);
    if rest.len() == 0 {
        None
    } else {
        Some(rest)
    }
}

/// The directory holding `p`: the text before its last `/` (the root for a
/// path directly under it), if `p` has a `/`.
pub open spec fn parent_dir(p: Seq<char>) -> Option<Seq<char>> {
    let k = last_index(p, '/');
    if k < 0 {
        None
    } else if k == 0 {
        Some(seq!['/'])
    } else {
        Some(p.take(k))
    }
}

/// `name` inside directory `dir`.
pub open spec fn joined(dir: Seq<char>, name: Seq<char>) -> Seq<char> {
    if dir.len() > 0 && dir.last() == '/' {
        dir + name
    } else {
        dir + seq!['/'] + name
    }
}

proof fn lemma_last_index_bounds(s: Seq<char>, c: char)
    ensures
        -1 <= last_index(s, c) < s.len(),
        last_index(s, c) >= 0 ==> s[last_index(s, c)] == c,
    decreases s.len(),
{
    if s.len() > 0 && s.last() != c {
        lemma_last_index_bounds(s.drop_last(), c);
    }
}

fn slice_string(cs: &Vec<char>, from: usize, to: usize) -> (r: String)
    requires
        from <= to <= cs.len(),
    ensures
        r@ == cs@.subrange(from as int, to as int),
{
    let mut out: Vec<char> = Vec::new();
    let mut i: usize = from;
    while i < to
        invariant
            from <= i <= to <= cs.len(),
            out@ == cs@.subrange(from as int, i as int),
        decreases to - i,
    {
        out.push(cs[i]);
        proof {
            assert(cs@.subrange(from as int, i + 1) =~= cs@.subrange(from as int, i as int).push(
                cs@[i as int],
            ));
        }
        i += 1;
    }
    string_of(&out)
}

/// The text of `cs` before position `to`.
pub(crate) fn prefix_string(cs: &Vec<char>, to: usize) -> (r: String)
    requires
        to <= cs.len(),
    ensures
        r@ == cs@.take(to as int),
{
    let r = slice_string(cs, 0, to);
    proof {
        assert(cs@.subrange(0, to as int) =~= cs@.take(to as int));
    }
    r
}

/// The last component of `p`.
pub fn file_name(p: &str) -> (r: Option<String>)
    ensures
        match r {
            Some(n) => base_name(p@) == Some(n@),
            None => base_name(p@) is None,
        },
{
    let cs = chars_of(p);
    proof {
        lemma_last_index_bounds(p@, '/');
    }
    let from: usize = match rfind_char(&cs, '/') {
        Some(k) => k + 1,
        None => 0,
    };
    if from == cs.len() {
        return None;
    }
    let r = slice_string(&cs, from, cs.len());
    proof {
        assert(cs@.subrange(from as int, cs@.len() as int) =~= p@.skip(from as int));
    }
    Some(r)
}

/// The directory holding `p`.
pub fn parent(p: &str) -> (r: Option<String>)
    ensures
        match r {
            Some(d) => parent_dir(p@) == Some(d@),
            None => parent_dir(p@) is None,
        },
{
    let cs = chars_of(p);
    proof {
        lemma_last_index_bounds(p@, '/');
    }
    match rfind_char(&cs, '/') {
        Some(k) => {
            if k == 0 {
                let mut s = String::new();
                crate::text::push_char(&mut s, '/');
                proof {
                    assert(s@ =~= seq!['/']);
                }
                Some(s)
            } else {
                Some(prefix_string(&cs, k))
            }
        },
        None => None,
    }
}

/// `name` inside directory `dir`.
pub fn join(dir: &str, name: &str) -> (r: String)
    ensures
        r@ == joined(dir@, name@),
{
    let cs = chars_of(dir);
    let mut s = dir.to_owned();
    if !(cs.len() > 0 && cs[cs.len() - 1] == '/') {
        crate::text::push_char(&mut s, '/');
    }
    let r = s.concat(name);
    proof {
        if !(dir@.len() > 0 && dir@.last() == '/') {
            assert(r@ =~= dir@ + seq!['/'] + name@);
        }
    }
    r
}

} // verus!
