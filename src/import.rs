//! Import declarations: `import qualified Data.Map as M`.

use vstd::prelude::*;
use vstd::string::*;

use crate::error::{Failure, ParseError};
use crate::lexer::{layout_end, lemma_run_end_bounds, skip_layout, CharClass};
use crate::parser::{agrees, module_name, module_name_rule};
use crate::rules::{keyword, keyword_at, lemma_module_name_rule_bounds, lemma_prepend_twice, prepend};
use crate::source::Source;
use crate::syntax::{Import, ImportView};

verus! {

/// An import declaration at `pos`: `None` where no `import` keyword stands
/// there; once the keyword is read, a malformed rest is an error.
pub open spec fn import_rule(s: Seq<char>, pos: int) -> Option<Result<(ImportView, int), Failure>> {
    if keyword_at(s, pos, "import"@) {
        let a = layout_end(s, pos + "import"@.len());
        let qualified = keyword_at(s, a, "qualified"@);
        let b = if qualified {
            layout_end(s, a + "qualified"@.len())
        } else {
            a
        };
        match module_name_rule(s, b) {
            Err(f) => Some(Err(f)),
            Ok((m, c)) => if keyword_at(s, c, "as"@) {
                match module_name_rule(s, layout_end(s, c + "as"@.len())) {
                    Err(f) => Some(Err(f)),
                    Ok((alias, d)) => Some(
                        Ok((ImportView { qualified, module: m, alias: Some(alias) }, d)),
                    ),
                }
            } else {
                Some(Ok((ImportView { qualified, module: m, alias: None }, c)))
            },
        }
    } else {
        None
    }
}

pub proof fn lemma_import_rule_bounds(s: Seq<char>, pos: int)
    requires
        0 <= pos <= s.len(),
    ensures
        import_rule(s, pos) matches Some(Ok((_, q))) ==> pos < q <= s.len(),
{
    reveal_strlit("import");
    reveal_strlit("qualified");
    reveal_strlit("as");
    if keyword_at(s, pos, "import"@) {
        lemma_run_end_bounds(s, pos + 6, CharClass::Layout);
        let a = layout_end(s, pos + 6);
        if keyword_at(s, a, "qualified"@) {
            lemma_run_end_bounds(s, a + 9, CharClass::Layout);
        }
        let b = if keyword_at(s, a, "qualified"@) {
            layout_end(s, a + 9)
        } else {
            a
        };
        lemma_module_name_rule_bounds(s, b);
        if let Ok((_, c)) = module_name_rule(s, b) {
            if keyword_at(s, c, "as"@) {
                lemma_run_end_bounds(s, c + 2, CharClass::Layout);
                lemma_module_name_rule_bounds(s, layout_end(s, c + 2));
            }
        }
    }
}

/// Parses an import declaration at `pos`, if one starts there.
pub fn import(src: &Source, pos: usize) -> (r: Option<Result<(Import, usize), ParseError>>)
    requires
        src.wf(),
        pos <= src@.len(),
    ensures
        match r {
            None => import_rule(src@, pos as int) is None,
            Some(x) => import_rule(src@, pos as int) is Some && agrees(
                x,
                import_rule(src@, pos as int)->Some_0,
            ),
        },
{
    proof {
        reveal_strlit("import");
        reveal_strlit("qualified");
        reveal_strlit("as");
    }
    proof {
        src.lemma_len_fits();
    }
    if !keyword(src, pos, "import") {
        return None;
    }
    let a = skip_layout(src.chars(), pos + 6);
    let qualified = keyword(src, a, "qualified");
    let b = if qualified {
        skip_layout(src.chars(), a + 9)
    } else {
        a
    };
    match module_name(src, b) {
        Err(e) => Some(Err(e)),
        Ok((module, c)) => {
            if keyword(src, c, "as") {
                let d = skip_layout(src.chars(), c + 2);
                match module_name(src, d) {
                    Err(e) => Some(Err(e)),
                    Ok((alias, end)) => Some(Ok((Import { qualified, module, alias: Some(alias) }, end))),
                }
            } else {
                Some(Ok((Import { qualified, module, alias: None }, c)))
            }
        },
    }
}

/// Zero or more import declarations.
pub open spec fn imports_rule(s: Seq<char>, pos: int) -> Result<(Seq<ImportView>, int), Failure>
    decreases s.len() - pos,
{
    if 0 <= pos <= s.len() {
        match import_rule(s, pos) {
            None => Ok((seq![], pos)),
            Some(Err(f)) => Err(f),
            Some(Ok((i, q))) => {
                proof {
                    lemma_import_rule_bounds(s, pos);
                }
                prepend(seq![i], imports_rule(s, q))
            },
        }
    } else {
        Ok((seq![], pos))
    }
}

pub open spec fn import_views(v: Seq<Import>) -> Seq<ImportView> {
    v.map_values(|i: Import| i@)
}

/// Parses zero or more import declarations from `pos`.
pub fn import_list(src: &Source, pos: usize) -> (r: Result<(Vec<Import>, usize), ParseError>)
    requires
        src.wf(),
        pos <= src@.len(),
    ensures
        match r {
            Ok(p) => imports_rule(src@, pos as int) == Ok::<(Seq<ImportView>, int), Failure>(
                (import_views(p.0@), p.1 as int),
            ),
            Err(x) => imports_rule(src@, pos as int) == Err::<(Seq<ImportView>, int), Failure>(x@),
        },
        r is Ok ==> pos <= r->Ok_0.1 <= src@.len(),
{
    let n = src.len();
    let mut acc: Vec<Import> = Vec::new();
    let mut p = pos;
    loop
        invariant
            src.wf(),
            n == src@.len(),
            pos <= p <= n,
            imports_rule(src@, pos as int) == prepend(import_views(acc@), imports_rule(src@, p as int)),
        decreases n - p,
    {
        proof {
            lemma_import_rule_bounds(src@, p as int);
        }
        match import(src, p) {
            None => {
                assert(import_views(acc@) + seq![] =~= import_views(acc@));
                return Ok((acc, p));
            },
            Some(Err(e)) => {
                return Err(e);
            },
            Some(Ok((i, q))) => {
                let ghost before = acc@;
                proof {
                    lemma_prepend_twice(import_views(acc@), seq![i@], imports_rule(src@, q as int));
                }
                acc.push(i);
                assert(import_views(acc@) =~= import_views(before) + seq![i@]);
                p = q;
            },
        }
    }
}

} // verus!
