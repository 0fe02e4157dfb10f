//! Character classes and the scanning of character runs.

use vstd::prelude::*;

verus! {

/// A class of characters that a run can be made of.
#[derive(Debug, PartialEq, Eq, Clone, Copy)]
pub enum CharClass {
    /// Letters, digits, `'` and `_`: the characters after an identifier's first.
    IdentTail,
    /// Letters, digits, `.` and `_`: the characters after a module name's first.
    ModuleTail,
    /// Whitespace between tokens: the characters of Unicode's White_Space property.
    Layout,
}

pub open spec fn is_lower(c: char) -> bool {
    'a' <= c && c <= 'z'
}

pub open spec fn is_upper(c: char) -> bool {
    'A' <= c && c <= 'Z'
}

pub open spec fn is_digit(c: char) -> bool {
    '0' <= c && c <= '9'
}

pub open spec fn is_alpha_num(c: char) -> bool {
    is_lower(c) || is_upper(c) || is_digit(c)
}

/// A character that may start an identifier.
pub open spec fn is_lower_or_underscore(c: char) -> bool {
    is_lower(c) || c == '_'
}

pub open spec fn is_layout(c: char) -> bool {
    ('\t' <= c && c <= '\r') || c == ' ' || c == '\u{85}' || c == '\u{A0}' || c == '\u{1680}'
        || ('\u{2000}' <= c && c <= '\u{200A}') || c == '\u{2028}' || c == '\u{2029}'
        || c == '\u{202F}' || c == '\u{205F}' || c == '\u{3000}'
}

pub open spec fn in_class(k: CharClass, c: char) -> bool {
    match k {
        CharClass::IdentTail => is_alpha_num(c) || c == '\'' || c == '_',
        CharClass::ModuleTail => is_alpha_num(c) || c == '.' || c == '_',
        CharClass::Layout => is_layout(c),
    }
}

/// The end of the longest run of characters of class `k` that starts at `i`.
pub open spec fn run_end(s: Seq<char>, i: int, k: CharClass) -> int
    decreases s.len() - i,
{
    if 0 <= i < s.len() && in_class(k, s[i]) {
        run_end(s, i + 1, k)
    } else {
        i
    }
}

/// Where the layout that starts at `i` ends.
pub open spec fn layout_end(s: Seq<char>, i: int) -> int {
    run_end(s, i, CharClass::Layout)
}

/// A run ends no earlier than it starts, no later than the input, and holds
/// only characters of its class.
pub proof fn lemma_run_end_bounds(s: Seq<char>, i: int, k: CharClass)
    requires
        0 <= i <= s.len(),
    ensures
        i <= run_end(s, i, k) <= s.len(),
        forall|j: int| i <= j < run_end(s, i, k) ==> in_class(k, #[trigger] s[j]),
        run_end(s, i, k) == s.len() || !in_class(k, s[run_end(s, i, k)]),
    decreases s.len() - i,
{
    if i < s.len() && in_class(k, s[i]) {
        lemma_run_end_bounds(s, i + 1, k);
    }
}

/// A run over characters that all belong to its class reaches the end of the input.
pub proof fn lemma_run_end_full(s: Seq<char>, i: int, k: CharClass)
    requires
        0 <= i <= s.len(),
        forall|j: int| i <= j < s.len() ==> in_class(k, #[trigger] s[j]),
    ensures
        run_end(s, i, k) == s.len(),
    decreases s.len() - i,
{
    if i < s.len() {
        lemma_run_end_full(s, i + 1, k);
    }
}

pub fn is_lower_or_underscore_start(c: char) -> (r: bool)
    ensures
        r == is_lower_or_underscore(c),
{
    ('a' <= c && c <= 'z') || c == '_'
}

pub fn is_upper_start(c: char) -> (r: bool)
    ensures
        r == is_upper(c),
{
    'A' <= c && c <= 'Z'
}

pub fn char_in_class(k: CharClass, c: char) -> (r: bool)
    ensures
        r == in_class(k, c),
{
    let alpha_num = ('a' <= c && c <= 'z') || ('A' <= c && c <= 'Z') || ('0' <= c && c <= '9');
    match k {
        CharClass::IdentTail => alpha_num || c == '\'' || c == '_',
        CharClass::ModuleTail => alpha_num || c == '.' || c == '_',
        CharClass::Layout => ('\t' <= c && c <= '\r') || c == ' ' || c == '\u{85}' || c
            == '\u{A0}' || c == '\u{1680}' || ('\u{2000}' <= c && c <= '\u{200A}') || c
            == '\u{2028}' || c == '\u{2029}' || c == '\u{202F}' || c == '\u{205F}' || c
            == '\u{3000}',
    }
}

/// Consumes the longest run of characters of class `k` from `pos`.
pub fn scan_run(s: &Vec<char>, pos: usize, k: CharClass) -> (r: usize)
    requires
        pos <= s@.len(),
    ensures
        r == run_end(s@, pos as int, k),
        pos <= r <= s@.len(),
{
    let mut i = pos;
    while i < s.len() && char_in_class(k, s[i])
        invariant
            pos <= i <= s@.len(),
            run_end(s@, i as int, k) == run_end(s@, pos as int, k),
        decreases s@.len() - i,
    {
        i = i + 1;
    }
    proof {
        lemma_run_end_bounds(s@, pos as int, k);
    }
    i
}

/// Consumes zero or more whitespace characters; never fails.
pub fn skip_layout(s: &Vec<char>, pos: usize) -> (r: usize)
    requires
        pos <= s@.len(),
    ensures
        r == layout_end(s@, pos as int),
        pos <= r <= s@.len(),
{
    scan_run(s, pos, CharClass::Layout)
}

/// The characters of `text`, one element each.
pub fn chars_of(text: &str) -> (r: Vec<char>)
    ensures
        r@ == text@,
{
    let mut v: Vec<char> = Vec::new();
    for c in it: text.chars()
        invariant
            v@ == it.seq().take(it.index() as int),
    {
        v.push(c);
    }
    v
}

} // verus!
