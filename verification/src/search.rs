//! The incremental search box shared by the lists.

use vstd::prelude::*;
use crate::keys::KeyModifiers;
use crate::text::{char_whitespace, contains_seq, contains_str, is_whitespace, str_lowercase, to_lowercase};

verus! {

/// Search input: the query typed so far and whether typing goes into it.
#[derive(Debug)]
pub struct SearchState {
    pub query: String,
    pub active: bool,
}

/// Whether `text` matches `query`: an empty query matches everything, otherwise
/// the lowercased query must occur in the lowercased text.
pub open spec fn search_matches(query: Seq<char>, text: Seq<char>) -> bool {
    query.len() == 0 || contains_seq(str_lowercase(text), str_lowercase(query))
}

/// `s` without its last word: trailing whitespace, then the non-whitespace run before it.
pub open spec fn drop_word(s: Seq<char>) -> Seq<char>
    decreases s.len(),
{
    if s.len() == 0 {
        s
    } else if char_whitespace(s.last()) {
        drop_word(s.drop_last())
    } else {
        drop_word_chars(s)
    }
}

pub open spec fn drop_word_chars(s: Seq<char>) -> Seq<char>
    decreases s.len(),
{
    if s.len() == 0 || char_whitespace(s.last()) {
        s
    } else {
        drop_word_chars(s.drop_last())
    }
}

/// What backspace leaves of `s`: one character less, or one word less with Ctrl or Alt.
pub open spec fn backspace_spec(s: Seq<char>, word: bool) -> Seq<char> {
    if word {
        drop_word(s)
    } else if s.len() == 0 {
        s
    } else {
        s.drop_last()
    }
}

/// Deletes the last character of `text`, or its last word when Ctrl or Alt is held.
pub fn backspace(text: &mut String, modifiers: KeyModifiers)
    ensures
        final(text)@ == backspace_spec(old(text)@, modifiers.control || modifiers.alt),
{
    let word = modifiers.control || modifiers.alt;
    let n = text.as_str().unicode_len();
    let mut end = n;
    if word {
        assert(text@.subrange(0, n as int) =~= text@);
        while end > 0 && is_whitespace(text.as_str().get_char(end - 1))
            invariant
                end <= n,
                n == text@.len(),
                drop_word(text@) == drop_word(text@.subrange(0, end as int)),
            decreases end,
        {
            assert(text@.subrange(0, end as int).drop_last() =~= text@.subrange(0, end - 1));
            end = end - 1;
        }
        proof {
            if end > 0 {
                assert(text@.subrange(0, end as int).last() == text@[end - 1]);
            } else {
                assert(text@.subrange(0, 0) =~= Seq::<char>::empty());
            }
        }
        while end > 0 && !is_whitespace(text.as_str().get_char(end - 1))
            invariant
                end <= n,
                n == text@.len(),
                drop_word(text@) == drop_word_chars(text@.subrange(0, end as int)),
            decreases end,
        {
            assert(text@.subrange(0, end as int).drop_last() =~= text@.subrange(0, end - 1));
            end = end - 1;
        }
        proof {
            if end > 0 {
                assert(text@.subrange(0, end as int).last() == text@[end - 1]);
            }
        }
    } else if end > 0 {
        end = end - 1;
        assert(text@.subrange(0, end as int) =~= text@.drop_last());
    } else {
        assert(text@.subrange(0, 0) =~= text@);
    }
    if end == 0 && n == 0 {
        return;
    }
    *text = crate::text::substring(text.as_str(), 0, end);
}

impl SearchState {
    /// An empty, inactive search.
    pub fn new() -> (r: SearchState)
        ensures
            r.query@.len() == 0,
            !r.active,
    {
        SearchState { query: String::new(), active: false }
    }

    /// Starts typing into the search.
    pub fn activate(&mut self)
        ensures
            final(self).active,
            final(self).query@ == old(self).query@,
    {
        self.active = true;
    }

    /// Cancels the search: stops typing and clears the query.
    pub fn deactivate(&mut self)
        ensures
            !final(self).active,
            final(self).query@.len() == 0,
    {
        self.active = false;
        self.query = String::new();
    }

    /// Stops typing and keeps the query as the filter.
    pub fn confirm(&mut self)
        ensures
            !final(self).active,
            final(self).query@ == old(self).query@,
    {
        self.active = false;
    }

    /// Appends a typed character to the query.
    pub fn push(&mut self, c: char)
        ensures
            final(self).query@ == old(self).query@.push(c),
            final(self).active == old(self).active,
    {
        crate::text::push_char(&mut self.query, c);
    }

    /// Deletes from the end of the query.
    pub fn backspace(&mut self, modifiers: KeyModifiers)
        ensures
            final(self).query@ == backspace_spec(old(self).query@, modifiers.control || modifiers.alt),
            final(self).active == old(self).active,
    {
        backspace(&mut self.query, modifiers);
    }

    /// Whether the query is empty.
    pub fn is_empty(&self) -> (r: bool)
        ensures
            r == (self.query@.len() == 0),
    {
        self.query.as_str().unicode_len() == 0
    }

    /// Whether `text` matches the query.
    pub fn matches(&self, text: &str) -> (r: bool)
        ensures
            r == search_matches(self.query@, text@),
    {
        if self.is_empty() {
            return true;
        }
        let t = to_lowercase(text);
        let q = to_lowercase(self.query.as_str());
        contains_str(t.as_str(), q.as_str())
    }

    /// A copy of this search.
    pub fn copy(&self) -> (r: SearchState)
        ensures
            r.query@ == self.query@,
            r.active == self.active,
    {
        SearchState { query: self.query.clone(), active: self.active }
    }
}

} // verus!
