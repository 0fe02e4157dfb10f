//! Language-extension pragmas: `{-# LANGUAGE OverloadedStrings #-}`.

use vstd::prelude::*;
use vstd::string::*;

use crate::error::{failure, ErrorKind, Failure, ParseError};
use crate::lexer::{layout_end, lemma_run_end_bounds, skip_layout, CharClass};
use crate::parser::{agrees, module_name, module_name_rule};
use crate::rules::{keyword, keyword_at, lemma_module_name_rule_bounds, lemma_prepend_twice, matches_at, matches_text, prepend};
use crate::source::Source;
use crate::syntax::Extension;

verus! {

/// The extension a pragma name stands for.
pub open spec fn extension_named(n: Seq<char>) -> Option<Extension> {
    if n == "OverloadedStrings"@ {
        Some(Extension::OverloadedStrings)
    } else {
        None
    }
}

/// One extension name inside a pragma, then layout.
pub open spec fn extension_rule(s: Seq<char>, pos: int) -> Result<(Extension, int), Failure> {
    match module_name_rule(s, pos) {
        Err(_) => Err(failure(pos, ErrorKind::ExpectedExtensionName)),
        Ok((n, q)) => match extension_named(n) {
            Some(x) => Ok((x, q)),
            None => Err(Failure { position: pos, kind: ErrorKind::UnknownExtension, found: n }),
        },
    }
}

/// The extension names of a pragma, separated by commas, through the `#-}`
/// that closes it and the layout after that.
pub open spec fn extension_list_rule(s: Seq<char>, pos: int) -> Result<(Seq<Extension>, int), Failure>
    decreases s.len() - pos,
{
    if 0 <= pos <= s.len() {
        match extension_rule(s, pos) {
            Err(f) => Err(f),
            Ok((x, q)) => if q < s.len() && s[q] == ',' {
                proof {
                    lemma_module_name_rule_bounds(s, pos);
                    lemma_run_end_bounds(s, q + 1, CharClass::Layout);
                }
                prepend(seq![x], extension_list_rule(s, layout_end(s, q + 1)))
            } else if matches_at(s, q, "#-}"@) {
                Ok((seq![x], layout_end(s, q + 3)))
            } else {
                Err(failure(q, ErrorKind::ExpectedPragmaClose))
            },
        }
    } else {
        Err(failure(pos, ErrorKind::ExpectedExtensionName))
    }
}

pub proof fn lemma_extension_list_bounds(s: Seq<char>, pos: int)
    requires
        0 <= pos <= s.len(),
    ensures
        extension_list_rule(s, pos) is Ok ==> pos < extension_list_rule(s, pos)->Ok_0.1 <= s.len(),
    decreases s.len() - pos,
{
    lemma_module_name_rule_bounds(s, pos);
    if let Ok((_, q)) = extension_rule(s, pos) {
        if q < s.len() && s[q] == ',' {
            lemma_run_end_bounds(s, q + 1, CharClass::Layout);
            lemma_extension_list_bounds(s, layout_end(s, q + 1));
        } else if matches_at(s, q, "#-}"@) {
            reveal_strlit("#-}");
            lemma_run_end_bounds(s, q + 3, CharClass::Layout);
        }
    }
}

/// Parses one extension name inside a pragma.
pub fn extension(src: &Source, pos: usize) -> (r: Result<(Extension, usize), ParseError>)
    requires
        src.wf(),
        pos <= src@.len(),
    ensures
        match r {
            Ok(p) => extension_rule(src@, pos as int) == Ok::<(Extension, int), Failure>(
                (p.0, p.1 as int),
            ),
            Err(x) => extension_rule(src@, pos as int) == Err::<(Extension, int), Failure>(x@),
        },
{
    match module_name(src, pos) {
        Err(_) => Err(ParseError::new(pos, ErrorKind::ExpectedExtensionName)),
        Ok((n, q)) => {
            if n.0 == String::from_str("OverloadedStrings") {
                Ok((Extension::OverloadedStrings, q))
            } else {
                Err(ParseError { position: pos, kind: ErrorKind::UnknownExtension, found: n.0 })
            }
        },
    }
}

/// Parses the extension names of a pragma through its closing `#-}`.
pub fn extension_list(src: &Source, pos: usize) -> (r: Result<(Vec<Extension>, usize), ParseError>)
    requires
        src.wf(),
        pos <= src@.len(),
    ensures
        agrees(r, extension_list_rule(src@, pos as int)),
{
    let n = src.len();
    let mut acc: Vec<Extension> = Vec::new();
    let mut p = pos;
    loop
        invariant
            src.wf(),
            n == src@.len(),
            pos <= p <= n,
            extension_list_rule(src@, pos as int) == prepend(acc@, extension_list_rule(src@, p as int)),
        decreases n - p,
    {
        proof {
            lemma_module_name_rule_bounds(src@, p as int);
        }
        match extension(src, p) {
            Err(e) => {
                return Err(e);
            },
            Ok((x, q)) => {
                if q < n && src.char_at(q) == ',' {
                    let next = skip_layout(src.chars(), q + 1);
                    let ghost before = acc@;
                    proof {
                        lemma_prepend_twice(acc@, seq![x], extension_list_rule(src@, next as int));
                    }
                    acc.push(x);
                    assert(acc@ =~= before + seq![x]);
                    p = next;
                } else if matches_text(src, q, "#-}") {
                    proof {
                        reveal_strlit("#-}");
                    }
                    let end = skip_layout(src.chars(), q + 3);
                    let ghost before = acc@;
                    acc.push(x);
                    assert(acc@ =~= before + seq![x]);
                    return Ok((acc, end));
                } else {
                    return Err(ParseError::new(q, ErrorKind::ExpectedPragmaClose));
                }
            },
        }
    }
}

/// One pragma from its opening `{-#`: an optional `LANGUAGE` keyword, then
/// the extension names.
pub open spec fn pragma_rule(s: Seq<char>, pos: int) -> Result<(Seq<Extension>, int), Failure> {
    let a = layout_end(s, pos + "{-#"@.len());
    let b = if keyword_at(s, a, "LANGUAGE"@) {
        layout_end(s, a + "LANGUAGE"@.len())
    } else {
        a
    };
    extension_list_rule(s, b)
}

pub proof fn lemma_pragma_rule_bounds(s: Seq<char>, pos: int)
    requires
        0 <= pos <= s.len(),
        matches_at(s, pos, "{-#"@),
    ensures
        pragma_rule(s, pos) is Ok ==> pos < pragma_rule(s, pos)->Ok_0.1 <= s.len(),
{
    reveal_strlit("{-#");
    reveal_strlit("LANGUAGE");
    lemma_run_end_bounds(s, pos + 3, CharClass::Layout);
    let a = layout_end(s, pos + 3);
    if keyword_at(s, a, "LANGUAGE"@) {
        lemma_run_end_bounds(s, a + 8, CharClass::Layout);
        lemma_extension_list_bounds(s, layout_end(s, a + 8));
    } else {
        lemma_extension_list_bounds(s, a);
    }
}

/// Zero or more pragmas, each opened by `{-#`.
pub open spec fn pragmas_rule(s: Seq<char>, pos: int) -> Result<(Seq<Extension>, int), Failure>
    decreases s.len() - pos,
{
    if 0 <= pos <= s.len() && matches_at(s, pos, "{-#"@) {
        match pragma_rule(s, pos) {
            Err(f) => Err(f),
            Ok((xs, q)) => {
                proof {
                    lemma_pragma_rule_bounds(s, pos);
                }
                prepend(xs, pragmas_rule(s, q))
            },
        }
    } else {
        Ok((seq![], pos))
    }
}

pub proof fn lemma_pragmas_rule_bounds(s: Seq<char>, pos: int)
    requires
        0 <= pos <= s.len(),
    ensures
        pragmas_rule(s, pos) is Ok ==> pos <= pragmas_rule(s, pos)->Ok_0.1 <= s.len(),
    decreases s.len() - pos,
{
    if matches_at(s, pos, "{-#"@) {
        lemma_pragma_rule_bounds(s, pos);
        if let Ok((_, q)) = pragma_rule(s, pos) {
            lemma_pragmas_rule_bounds(s, q);
        }
    }
}

/// Parses one pragma at `pos`, where `{-#` stands.
pub fn pragma(src: &Source, pos: usize) -> (r: Result<(Vec<Extension>, usize), ParseError>)
    requires
        src.wf(),
        pos <= src@.len(),
        matches_at(src@, pos as int, "{-#"@),
    ensures
        agrees(r, pragma_rule(src@, pos as int)),
{
    proof {
        reveal_strlit("{-#");
        reveal_strlit("LANGUAGE");
    }
    proof {
        src.lemma_len_fits();
    }
    let a = skip_layout(src.chars(), pos + 3);
    let b = if keyword(src, a, "LANGUAGE") {
        skip_layout(src.chars(), a + 8)
    } else {
        a
    };
    extension_list(src, b)
}

/// Parses zero or more pragmas from `pos`.
pub fn pragma_list(src: &Source, pos: usize) -> (r: Result<(Vec<Extension>, usize), ParseError>)
    requires
        src.wf(),
        pos <= src@.len(),
    ensures
        agrees(r, pragmas_rule(src@, pos as int)),
{
    let n = src.len();
    let mut acc: Vec<Extension> = Vec::new();
    let mut p = pos;
    while matches_text(src, p, "{-#")
        invariant
            src.wf(),
            n == src@.len(),
            pos <= p <= n,
            pragmas_rule(src@, pos as int) == prepend(acc@, pragmas_rule(src@, p as int)),
        decreases n - p,
    {
        proof {
            lemma_pragma_rule_bounds(src@, p as int);
        }
        match pragma(src, p) {
            Err(e) => {
                return Err(e);
            },
            Ok((xs, q)) => {
                proof {
                    lemma_prepend_twice(acc@, xs@, pragmas_rule(src@, q as int));
                }
                let mut xs = xs;
                acc.append(&mut xs);
                p = q;
            },
        }
    }
    proof {
        assert(acc@ + seq![] =~= acc@);
    }
    Ok((acc, p))
}

} // verus!
