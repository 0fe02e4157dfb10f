//! The primitive grammar rules: identifiers and module names.

use vstd::prelude::*;

use crate::error::{failure, ErrorKind, Failure, ParseError};
use crate::lexer::{
    is_lower_or_underscore, is_lower_or_underscore_start, is_upper, is_upper_start, layout_end,
    run_end, scan_run, skip_layout, CharClass,
};
use crate::source::Source;
use crate::syntax::{Identifier, ModuleName};

verus! {

/// An identifier, `[a-z_][a-zA-Z0-9'_]*`, at `pos`, then layout. On success:
/// the identifier's text and where the layout after it ends.
pub open spec fn identifier_rule(s: Seq<char>, pos: int) -> Result<(Seq<char>, int), Failure> {
    if 0 <= pos < s.len() && is_lower_or_underscore(s[pos]) {
        let e = run_end(s, pos + 1, CharClass::IdentTail);
        Ok((s.subrange(pos, e), layout_end(s, e)))
    } else {
        Err(failure(pos, ErrorKind::ExpectedIdentifier))
    }
}

/// A module name, `[A-Z][a-zA-Z0-9._]*`, at `pos`, then layout. A name run on
/// into a prime (`Hello'World`) is no module name.
pub open spec fn module_name_rule(s: Seq<char>, pos: int) -> Result<(Seq<char>, int), Failure> {
    if 0 <= pos < s.len() && is_upper(s[pos]) {
        let e = run_end(s, pos + 1, CharClass::ModuleTail);
        if e < s.len() && s[e] == '\'' {
            Err(failure(pos, ErrorKind::ExpectedModuleName))
        } else {
            Ok((s.subrange(pos, e), layout_end(s, e)))
        }
    } else {
        Err(failure(pos, ErrorKind::ExpectedModuleName))
    }
}

/// `r` is the outcome `m` describes, a value with the position after it.
pub open spec fn agrees<T: View>(
    r: Result<(T, usize), ParseError>,
    m: Result<(T::V, int), Failure>,
) -> bool {
    match r {
        Ok(p) => m is Ok && m->Ok_0 == (p.0@, p.1 as int),
        Err(x) => m is Err && m->Err_0 == x@,
    }
}

/// `r` is the outcome `m` describes on the text `s`, a value with the text left after it.
pub open spec fn agrees_rest<T: View>(
    r: Result<(T, &str), ParseError>,
    s: Seq<char>,
    m: Result<(T::V, int), Failure>,
) -> bool {
    match r {
        Ok(p) => m is Ok && p.0@ == m->Ok_0.0 && p.1@ == s.subrange(m->Ok_0.1, s.len() as int),
        Err(x) => m is Err && m->Err_0 == x@,
    }
}

/// Parses an identifier at `pos`; fails at `pos`, having consumed nothing,
/// unless the character there is a lowercase letter or `_`.
pub fn identifier(src: &Source, pos: usize) -> (r: Result<(Identifier, usize), ParseError>)
    requires
        src.wf(),
        pos <= src@.len(),
    ensures
        agrees(r, identifier_rule(src@, pos as int)),
        r is Ok ==> pos < r->Ok_0.1 <= src@.len(),
{
    if pos < src.len() && is_lower_or_underscore_start(src.char_at(pos)) {
        let e = scan_run(src.chars(), pos + 1, CharClass::IdentTail);
        let q = skip_layout(src.chars(), e);
        Ok((Identifier(src.slice(pos, e)), q))
    } else {
        Err(ParseError::new(pos, ErrorKind::ExpectedIdentifier))
    }
}

/// Parses a module name at `pos`; fails at `pos`, having consumed nothing,
/// unless the character there is an uppercase letter and the name does not
/// run on into a prime.
pub fn module_name(src: &Source, pos: usize) -> (r: Result<(ModuleName, usize), ParseError>)
    requires
        src.wf(),
        pos <= src@.len(),
    ensures
        agrees(r, module_name_rule(src@, pos as int)),
        r is Ok ==> pos < r->Ok_0.1 <= src@.len(),
{
    if pos < src.len() && is_upper_start(src.char_at(pos)) {
        let e = scan_run(src.chars(), pos + 1, CharClass::ModuleTail);
        if e < src.len() && src.char_at(e) == '\'' {
            Err(ParseError::new(pos, ErrorKind::ExpectedModuleName))
        } else {
            let q = skip_layout(src.chars(), e);
            Ok((ModuleName(src.slice(pos, e)), q))
        }
    } else {
        Err(ParseError::new(pos, ErrorKind::ExpectedModuleName))
    }
}

/// Parses an identifier at the start of `text`, returning it with the text
/// that follows it and its trailing layout.
pub fn parse_identifier<'a>(text: &'a str) -> (r: Result<(Identifier, &'a str), ParseError>)
    ensures
        agrees_rest(r, text@, identifier_rule(text@, 0)),
{
    let src = Source::new(text);
    match identifier(&src, 0) {
        Ok((v, q)) => Ok((v, src.rest(q))),
        Err(e) => Err(e),
    }
}

/// Parses a module name at the start of `text`, returning it with the text
/// that follows it and its trailing layout.
pub fn parse_module_name<'a>(text: &'a str) -> (r: Result<(ModuleName, &'a str), ParseError>)
    ensures
        agrees_rest(r, text@, module_name_rule(text@, 0)),
{
    let src = Source::new(text);
    match module_name(&src, 0) {
        Ok((v, q)) => Ok((v, src.rest(q))),
        Err(e) => Err(e),
    }
}

} // verus!
