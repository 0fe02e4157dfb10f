//! Top-level declarations, recognised by kind; their bodies are skipped.

use vstd::prelude::*;
use vstd::string::*;

use crate::error::{failure, ErrorKind, Failure, ParseError};
use crate::lexer::{char_in_class, is_layout, layout_end, lemma_run_end_bounds, run_end, skip_layout, CharClass};
use crate::parser::{agrees, identifier, identifier_rule, module_name, module_name_rule};
use crate::rules::{keyword, keyword_at, lemma_module_name_rule_bounds, lemma_prepend_twice, prepend};
use crate::source::Source;
use crate::syntax::Declaration;

verus! {

/// A character of an operator symbol.
pub open spec fn is_symbol(c: char) -> bool {
    c == '!' || c == '#' || c == '$' || c == '%' || c == '&' || c == '*' || c == '+' || c == '.'
        || c == '/' || c == '<' || c == '=' || c == '>' || c == '?' || c == '@' || c == '\\'
        || c == '^' || c == '|' || c == '-' || c == '~' || c == ':'
}

pub fn is_symbol_char(c: char) -> (r: bool)
    ensures
        r == is_symbol(c),
{
    c == '!' || c == '#' || c == '$' || c == '%' || c == '&' || c == '*' || c == '+' || c == '.'
        || c == '/' || c == '<' || c == '=' || c == '>' || c == '?' || c == '@' || c == '\\'
        || c == '^' || c == '|' || c == '-' || c == '~' || c == ':'
}

/// A binding operator `=` at `pos`, not part of a longer operator.
pub open spec fn binding_at(s: Seq<char>, pos: int) -> bool {
    0 <= pos < s.len() && s[pos] == '=' && (pos + 1 == s.len() || !is_symbol(s[pos + 1]))
}

/// Whether a binding operator `=` stands at `pos`.
pub fn binding(src: &Source, pos: usize) -> (r: bool)
    requires
        src.wf(),
    ensures
        r == binding_at(src@, pos as int),
{
    let n = src.len();
    pos < n && src.char_at(pos) == '=' && (pos + 1 == n || !is_symbol_char(src.char_at(pos + 1)))
}

/// Where the body of a declaration that goes on at `i` ends: at the end of the
/// input, or at the start of the first line that begins with no layout.
pub open spec fn body_end(s: Seq<char>, i: int) -> int
    decreases s.len() - i,
{
    if 0 <= i < s.len() && !(0 < i && s[i - 1] == '\n' && !is_layout(s[i])) {
        body_end(s, i + 1)
    } else {
        i
    }
}

pub proof fn lemma_body_end_bounds(s: Seq<char>, i: int)
    requires
        0 <= i <= s.len(),
    ensures
        i <= body_end(s, i) <= s.len(),
    decreases s.len() - i,
{
    if i < s.len() && !(0 < i && s[i - 1] == '\n' && !is_layout(s[i])) {
        lemma_body_end_bounds(s, i + 1);
    }
}

/// The rest of a `data`, `type` or `newtype` declaration once its keyword,
/// which ends at `after`, is read: the name of the type, then the body.
pub open spec fn typed_rule(s: Seq<char>, after: int, kind: Declaration) -> Result<
    (Declaration, int),
    Failure,
> {
    match module_name_rule(s, layout_end(s, after)) {
        Err(f) => Err(failure(f.position, ErrorKind::ExpectedTypeName)),
        Ok((_, q)) => Ok((kind, body_end(s, q))),
    }
}

/// A top-level declaration at `pos`: `None` where none of the five shapes
/// starts there.
pub open spec fn declaration_rule(s: Seq<char>, pos: int) -> Option<
    Result<(Declaration, int), Failure>,
> {
    if keyword_at(s, pos, "data"@) {
        Some(typed_rule(s, pos + "data"@.len(), Declaration::Data))
    } else if keyword_at(s, pos, "type"@) {
        Some(typed_rule(s, pos + "type"@.len(), Declaration::Type))
    } else if keyword_at(s, pos, "newtype"@) {
        Some(typed_rule(s, pos + "newtype"@.len(), Declaration::Newtype))
    } else if 0 <= pos < s.len() && s[pos] == '$' {
        Some(Ok((Declaration::Splice, body_end(s, pos + 1))))
    } else {
        match identifier_rule(s, pos) {
            Ok((_, q)) => if binding_at(s, q) {
                Some(Ok((Declaration::Value, body_end(s, q + 1))))
            } else {
                None
            },
            Err(_) => None,
        }
    }
}

pub proof fn lemma_typed_rule_bounds(s: Seq<char>, after: int, kind: Declaration)
    requires
        0 <= after <= s.len(),
    ensures
        typed_rule(s, after, kind) is Ok ==> after <= typed_rule(s, after, kind)->Ok_0.1 <= s.len(),
{
    lemma_run_end_bounds(s, after, CharClass::Layout);
    lemma_module_name_rule_bounds(s, layout_end(s, after));
    if let Ok((_, q)) = module_name_rule(s, layout_end(s, after)) {
        lemma_body_end_bounds(s, q);
    }
}

pub proof fn lemma_declaration_rule_bounds(s: Seq<char>, pos: int)
    requires
        0 <= pos <= s.len(),
    ensures
        declaration_rule(s, pos) matches Some(Ok((_, q))) ==> pos < q <= s.len(),
{
    reveal_strlit("data");
    reveal_strlit("type");
    reveal_strlit("newtype");
    if keyword_at(s, pos, "data"@) || keyword_at(s, pos, "type"@) {
        lemma_typed_rule_bounds(s, pos + 4, Declaration::Data);
        lemma_typed_rule_bounds(s, pos + 4, Declaration::Type);
    } else if keyword_at(s, pos, "newtype"@) {
        lemma_typed_rule_bounds(s, pos + 7, Declaration::Newtype);
    } else if 0 <= pos < s.len() && s[pos] == '$' {
        lemma_body_end_bounds(s, pos + 1);
    } else if let Ok((_, q)) = identifier_rule(s, pos) {
        lemma_run_end_bounds(s, pos + 1, CharClass::IdentTail);
        lemma_run_end_bounds(s, run_end(s, pos + 1, CharClass::IdentTail), CharClass::Layout);
        if binding_at(s, q) {
            lemma_body_end_bounds(s, q + 1);
        }
    }
}

/// Finds where a declaration's body that goes on at `i` ends.
pub fn skip_body(src: &Source, i: usize) -> (r: usize)
    requires
        src.wf(),
        i <= src@.len(),
    ensures
        r == body_end(src@, i as int),
{
    let n = src.len();
    let mut j = i;
    while j < n && !(0 < j && src.char_at(j - 1) == '\n' && !char_in_class(
        CharClass::Layout,
        src.char_at(j),
    ))
        invariant
            src.wf(),
            n == src@.len(),
            i <= j <= n,
            body_end(src@, j as int) == body_end(src@, i as int),
        decreases n - j,
    {
        j = j + 1;
    }
    j
}

fn typed(src: &Source, after: usize, kind: Declaration) -> (r: Result<(Declaration, usize), ParseError>)
    requires
        src.wf(),
        after <= src@.len(),
    ensures
        match r {
            Ok(p) => typed_rule(src@, after as int, kind) == Ok::<(Declaration, int), Failure>(
                (p.0, p.1 as int),
            ),
            Err(x) => typed_rule(src@, after as int, kind) == Err::<(Declaration, int), Failure>(x@),
        },
{
    let a = skip_layout(src.chars(), after);
    match module_name(src, a) {
        Err(e) => Err(ParseError::new(e.position, ErrorKind::ExpectedTypeName)),
        Ok((_, q)) => Ok((kind, skip_body(src, q))),
    }
}

/// Parses a top-level declaration at `pos`, if one starts there.
pub fn declaration(src: &Source, pos: usize) -> (r: Option<Result<(Declaration, usize), ParseError>>)
    requires
        src.wf(),
        pos <= src@.len(),
    ensures
        match r {
            None => declaration_rule(src@, pos as int) is None,
            Some(Ok(p)) => declaration_rule(src@, pos as int) == Some(
                Ok::<(Declaration, int), Failure>((p.0, p.1 as int)),
            ),
            Some(Err(x)) => declaration_rule(src@, pos as int) == Some(
                Err::<(Declaration, int), Failure>(x@),
            ),
        },
{
    proof {
        reveal_strlit("data");
        reveal_strlit("type");
        reveal_strlit("newtype");
    }
    let n = src.len();
    if keyword(src, pos, "data") {
        Some(typed(src, pos + 4, Declaration::Data))
    } else if keyword(src, pos, "type") {
        Some(typed(src, pos + 4, Declaration::Type))
    } else if keyword(src, pos, "newtype") {
        Some(typed(src, pos + 7, Declaration::Newtype))
    } else if pos < n && src.char_at(pos) == '$' {
        Some(Ok((Declaration::Splice, skip_body(src, pos + 1))))
    } else {
        match identifier(src, pos) {
            Ok((_, q)) => {
                if binding(src, q) {
                    Some(Ok((Declaration::Value, skip_body(src, q + 1))))
                } else {
                    None
                }
            },
            Err(_) => None,
        }
    }
}

/// Zero or more top-level declarations.
pub open spec fn declarations_rule(s: Seq<char>, pos: int) -> Result<(Seq<Declaration>, int), Failure>
    decreases s.len() - pos,
{
    if 0 <= pos <= s.len() {
        match declaration_rule(s, pos) {
            None => Ok((seq![], pos)),
            Some(Err(f)) => Err(f),
            Some(Ok((d, q))) => {
                proof {
                    lemma_declaration_rule_bounds(s, pos);
                }
                prepend(seq![d], declarations_rule(s, q))
            },
        }
    } else {
        Ok((seq![], pos))
    }
}

/// Parses zero or more top-level declarations from `pos`.
pub fn declaration_list(src: &Source, pos: usize) -> (r: Result<(Vec<Declaration>, usize), ParseError>)
    requires
        src.wf(),
        pos <= src@.len(),
    ensures
        agrees(r, declarations_rule(src@, pos as int)),
        r is Ok ==> pos <= r->Ok_0.1 <= src@.len(),
{
    let n = src.len();
    let mut acc: Vec<Declaration> = Vec::new();
    let mut p = pos;
    loop
        invariant
            src.wf(),
            n == src@.len(),
            pos <= p <= n,
            declarations_rule(src@, pos as int) == prepend(acc@, declarations_rule(src@, p as int)),
        decreases n - p,
    {
        proof {
            lemma_declaration_rule_bounds(src@, p as int);
        }
        match declaration(src, p) {
            None => {
                assert(acc@ + seq![] =~= acc@);
                return Ok((acc, p));
            },
            Some(Err(e)) => {
                return Err(e);
            },
            Some(Ok((d, q))) => {
                let ghost before = acc@;
                proof {
                    lemma_prepend_twice(acc@, seq![d], declarations_rule(src@, q as int));
                }
                acc.push(d);
                assert(acc@ =~= before + seq![d]);
                p = q;
            },
        }
    }
}

} // verus!
