//! Options of the `open` command.

use vstd::prelude::*;

use crate::text::{push_char, trim_end_text, trim_text, trimmed, trimmed_end};

verus! {

broadcast use vstd::string::group_string_axioms;

/// The `--type-text` option: absent, given without a value (the text comes
/// from standard input), or given with a value.
#[derive(Debug)]
pub struct OpenOptions {
    pub type_text: Option<Option<String>>,
}

/// The text to type into the agent, from the option and from `input`, what
/// standard input held when it was read (it is read when it is not a
/// terminal, and always when the option has no value).
pub open spec fn type_text_of(opt: Option<Option<String>>, input: Option<String>) -> Option<Seq<char>> {
    let piped = match input {
        Some(b) => if trimmed(b@).len() == 0 {
            None
        } else {
            Some(trimmed_end(b@))
        },
        None => None,
    };
    match opt {
        None => None,
        Some(None) => piped,
        Some(Some(text)) => match piped {
            Some(p) => Some(text@ + seq!['\n'] + p),
            None => Some(text@),
        },
    }
}

impl OpenOptions {
    /// The text to type: the option's value, followed on a new line by
    /// piped input that is not blank (its trailing whitespace removed); or
    /// the piped input alone when the option has no value.
    pub fn get_type_text(&self, input: Option<String>) -> (r: Option<String>)
        ensures
            match type_text_of(self.type_text, input) {
                Some(t) => r matches Some(s) && s@ == t,
                None => r is None,
            },
    {
        let piped = match input {
            Some(b) => {
                let t = trim_text(b.as_str());
                if t.as_str().is_empty() {
                    None
                } else {
                    Some(trim_end_text(b.as_str()))
                }
            },
            None => None,
        };
        match &self.type_text {
            None => None,
            Some(None) => piped,
            Some(Some(text)) => match piped {
                Some(p) => {
                    let mut s = text.clone();
                    push_char(&mut s, '\n');
                    Some(s.concat(p.as_str()))
                },
                None => Some(text.clone()),
            },
        }
    }
}

} // verus!
