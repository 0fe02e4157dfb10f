//! The module assembler: pragmas, then the header, then imports, then
//! declarations, through the end of the input.

use vstd::prelude::*;
use vstd::string::*;

use crate::declaration::{declaration_list, declarations_rule};
use crate::error::{failure, ErrorKind, Failure, ParseError};
use crate::import::{import_list, import_views, imports_rule};
use crate::lexer::{layout_end, skip_layout};
use crate::parser::{agrees, module_name, module_name_rule};
use crate::pragma::{lemma_pragmas_rule_bounds, pragma_list, pragmas_rule};
use crate::rules::{keyword, keyword_at};
use crate::source::Source;
use crate::syntax::{Module, ModuleName, ModuleView};

verus! {

/// The module header: `module`, the module's name, `where`.
pub open spec fn header_rule(s: Seq<char>, pos: int) -> Result<(Seq<char>, int), Failure> {
    if keyword_at(s, pos, "module"@) {
        match module_name_rule(s, layout_end(s, pos + "module"@.len())) {
            Err(f) => Err(f),
            Ok((n, q)) => if keyword_at(s, q, "where"@) {
                Ok((n, layout_end(s, q + "where"@.len())))
            } else {
                Err(failure(q, ErrorKind::ExpectedWhere))
            },
        }
    } else {
        Err(failure(pos, ErrorKind::ExpectedModuleHeader))
    }
}

/// Parses the module header at `pos`.
pub fn header(src: &Source, pos: usize) -> (r: Result<(ModuleName, usize), ParseError>)
    requires
        src.wf(),
        pos <= src@.len(),
    ensures
        agrees(r, header_rule(src@, pos as int)),
        r is Ok ==> pos < r->Ok_0.1 <= src@.len(),
{
    proof {
        reveal_strlit("module");
        reveal_strlit("where");
    }
    proof {
        src.lemma_len_fits();
    }
    if !keyword(src, pos, "module") {
        return Err(ParseError::new(pos, ErrorKind::ExpectedModuleHeader));
    }
    let a = skip_layout(src.chars(), pos + 6);
    match module_name(src, a) {
        Err(e) => Err(e),
        Ok((name, q)) => {
            if keyword(src, q, "where") {
                let end = skip_layout(src.chars(), q + 5);
                Ok((name, end))
            } else {
                Err(ParseError::new(q, ErrorKind::ExpectedWhere))
            }
        },
    }
}

/// A whole module: leading layout, pragmas, the header, imports, then
/// declarations through the end of the input.
pub open spec fn module_rule(s: Seq<char>) -> Result<ModuleView, Failure> {
    match pragmas_rule(s, layout_end(s, 0)) {
        Err(f) => Err(f),
        Ok((extensions, p1)) => match header_rule(s, p1) {
            Err(f) => Err(f),
            Ok((name, p2)) => match imports_rule(s, p2) {
                Err(f) => Err(f),
                Ok((imports, p3)) => match declarations_rule(s, p3) {
                    Err(f) => Err(f),
                    Ok((declarations, p4)) => if p4 == s.len() {
                        Ok(ModuleView { extensions, name, imports, declarations })
                    } else {
                        Err(failure(p4, ErrorKind::UnexpectedInput))
                    },
                },
            },
        },
    }
}

/// Parses a whole module from the source.
pub fn module(src: &Source) -> (r: Result<Module, ParseError>)
    requires
        src.wf(),
    ensures
        match r {
            Ok(m) => module_rule(src@) == Ok::<ModuleView, Failure>(m@),
            Err(e) => module_rule(src@) == Err::<ModuleView, Failure>(e@),
        },
{
    let n = src.len();
    let p0 = skip_layout(src.chars(), 0);
    let (extensions, p1) = match pragma_list(src, p0) {
        Err(e) => {
            return Err(e);
        },
        Ok(x) => x,
    };
    proof {
        lemma_pragmas_rule_bounds(src@, p0 as int);
    }
    let (name, p2) = match header(src, p1) {
        Err(e) => {
            return Err(e);
        },
        Ok(x) => x,
    };
    let (imports, p3) = match import_list(src, p2) {
        Err(e) => {
            return Err(e);
        },
        Ok(x) => x,
    };
    let (declarations, p4) = match declaration_list(src, p3) {
        Err(e) => {
            return Err(e);
        },
        Ok(x) => x,
    };
    if p4 == n {
        let m = Module { extensions, name, imports, declarations };
        assert(m@.imports =~= import_views(m.imports@));
        Ok(m)
    } else {
        Err(ParseError::new(p4, ErrorKind::UnexpectedInput))
    }
}

/// Parses the source text of one module into a `Module`, or reports the first
/// error with its position.
pub fn parse_module(text: &str) -> (r: Result<Module, ParseError>)
    ensures
        match r {
            Ok(m) => module_rule(text@) == Ok::<ModuleView, Failure>(m@),
            Err(e) => module_rule(text@) == Err::<ModuleView, Failure>(e@),
        },
{
    let src = Source::new(text);
    module(&src)
}

} // verus!
