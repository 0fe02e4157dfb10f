//! Source text held both as a string and as a sequence of characters.

use vstd::prelude::*;
use vstd::string::*;

use crate::lexer::chars_of;

verus! {

/// The text of one module, with its characters ready for indexing.
pub struct Source<'a> {
    text: &'a str,
    chars: Vec<char>,
}

impl<'a> Source<'a> {
    pub closed spec fn view(&self) -> Seq<char> {
        self.text@
    }

    pub closed spec fn wf(&self) -> bool {
        self.chars@ == self.text@ && self.chars@.len() <= usize::MAX
    }

    pub fn new(text: &'a str) -> (r: Self)
        ensures
            r.wf(),
            r@ == text@,
    {
        let chars = chars_of(text);
        let count = chars.len();
        assert(chars@.len() == count);
        Source { text, chars }
    }

    /// The text has no more characters than a `usize` can count.
    pub proof fn lemma_len_fits(&self)
        requires
            self.wf(),
        ensures
            self@.len() <= usize::MAX,
    {
    }

    pub fn len(&self) -> (r: usize)
        requires
            self.wf(),
        ensures
            r == self@.len(),
    {
        self.chars.len()
    }

    /// The characters, for scanning.
    pub fn chars(&self) -> (r: &Vec<char>)
        requires
            self.wf(),
        ensures
            r@ == self@,
    {
        &self.chars
    }

    pub fn char_at(&self, i: usize) -> (r: char)
        requires
            self.wf(),
            i < self@.len(),
        ensures
            r == self@[i as int],
    {
        self.chars[i]
    }

    /// A copy of the characters from `from` up to `to`.
    pub fn slice(&self, from: usize, to: usize) -> (r: String)
        requires
            self.wf(),
            from <= to <= self@.len(),
        ensures
            r@ == self@.subrange(from as int, to as int),
    {
        String::from_str(self.text.substring_char(from, to))
    }

    /// The text from `from` to the end.
    pub fn rest(&self, from: usize) -> (r: &'a str)
        requires
            self.wf(),
            from <= self@.len(),
        ensures
            r@ == self@.subrange(from as int, self@.len() as int),
    {
        self.text.substring_char(from, self.chars.len())
    }
}

} // verus!
