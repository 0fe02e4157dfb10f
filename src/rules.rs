//! Pieces shared by the grammar rules: fixed text, keywords, and the
//! joining of results.

use vstd::prelude::*;

use crate::error::Failure;
use crate::lexer::{char_in_class, chars_of, in_class, lemma_run_end_bounds, run_end, CharClass};
use crate::parser::module_name_rule;
use crate::source::Source;

verus! {

/// The text `w` stands in `s` at `pos`.
pub open spec fn matches_at(s: Seq<char>, pos: int, w: Seq<char>) -> bool {
    0 <= pos && pos + w.len() <= s.len() && s.subrange(pos, pos + w.len()) == w
}

/// The keyword `w` stands in `s` at `pos`, not run on into a longer name.
pub open spec fn keyword_at(s: Seq<char>, pos: int, w: Seq<char>) -> bool {
    matches_at(s, pos, w) && (pos + w.len() == s.len() || !in_class(
        CharClass::IdentTail,
        s[pos + w.len()],
    ))
}

/// `m` with the values `a` put in front of the values it yields.
pub open spec fn prepend<T>(a: Seq<T>, m: Result<(Seq<T>, int), Failure>) -> Result<
    (Seq<T>, int),
    Failure,
> {
    match m {
        Ok((v, e)) => Ok((a + v, e)),
        Err(f) => Err(f),
    }
}

pub proof fn lemma_prepend_twice<T>(a: Seq<T>, b: Seq<T>, m: Result<(Seq<T>, int), Failure>)
    ensures
        prepend(a, prepend(b, m)) == prepend(a + b, m),
{
    if m is Ok {
        assert(a + (b + m->Ok_0.0) =~= (a + b) + m->Ok_0.0);
    }
}

pub proof fn lemma_module_name_rule_bounds(s: Seq<char>, pos: int)
    requires
        0 <= pos <= s.len(),
    ensures
        module_name_rule(s, pos) is Ok ==> pos < module_name_rule(s, pos)->Ok_0.1 <= s.len(),
{
    if pos < s.len() {
        lemma_run_end_bounds(s, pos + 1, CharClass::ModuleTail);
        lemma_run_end_bounds(s, run_end(s, pos + 1, CharClass::ModuleTail), CharClass::Layout);
    }
}

/// Whether the text `w` stands in the source at `pos`.
pub fn matches_text(src: &Source, pos: usize, w: &str) -> (r: bool)
    requires
        src.wf(),
        pos <= src@.len(),
    ensures
        r == matches_at(src@, pos as int, w@),
{
    let k = chars_of(w);
    let n = src.len();
    if k.len() > n - pos {
        return false;
    }
    let mut i: usize = 0;
    while i < k.len()
        invariant
            src.wf(),
            k@ == w@,
            n == src@.len(),
            pos + k@.len() <= n,
            i <= k@.len(),
            forall|j: int| 0 <= j < i ==> src@[pos + j] == k@[j],
        decreases k@.len() - i,
    {
        if src.char_at(pos + i) != k[i] {
            assert(src@.subrange(pos as int, pos + k@.len())[i as int] != w@[i as int]);
            return false;
        }
        i = i + 1;
    }
    assert(src@.subrange(pos as int, pos + k@.len()) =~= w@);
    true
}

/// Whether the keyword `w` stands in the source at `pos`.
pub fn keyword(src: &Source, pos: usize, w: &str) -> (r: bool)
    requires
        src.wf(),
        pos <= src@.len(),
    ensures
        r == keyword_at(src@, pos as int, w@),
{
    if !matches_text(src, pos, w) {
        return false;
    }
    let n = src.len();
    let e = pos + chars_of(w).len();
    e == n || !char_in_class(CharClass::IdentTail, src.char_at(e))
}

} // verus!
