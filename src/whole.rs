//! The assembled module read back from a module source of one pragma, a
//! header, one qualified import with an alias, and one value binding.

use vstd::prelude::*;
use vstd::string::*;

use crate::assembler::{header_rule, module_rule};
use crate::declaration::{binding_at, body_end, declaration_rule, declarations_rule};
use crate::error::Failure;
use crate::import::{import_rule, imports_rule};
use crate::lexer::{in_class, is_layout, is_lower_or_underscore, is_upper, layout_end, run_end, CharClass};
use crate::parser::{identifier_rule, module_name_rule};
use crate::pragma::{extension_list_rule, extension_rule, pragma_rule, pragmas_rule};
use crate::rules::{keyword_at, matches_at};
use crate::syntax::{Declaration, Extension, ImportView, ModuleView};

verus! {

/// `t` is a module name, `[A-Z][a-zA-Z0-9._]*`.
pub open spec fn is_module_name_text(t: Seq<char>) -> bool {
    t.len() > 0 && is_upper(t[0]) && forall|j: int|
        1 <= j < t.len() ==> in_class(CharClass::ModuleTail, #[trigger] t[j])
}

/// `t` is an identifier, `[a-z_][a-zA-Z0-9'_]*`.
pub open spec fn is_identifier_text(t: Seq<char>) -> bool {
    t.len() > 0 && is_lower_or_underscore(t[0]) && forall|j: int|
        1 <= j < t.len() ==> in_class(CharClass::IdentTail, #[trigger] t[j])
}

/// The source `{-# OverloadedStrings #-}`, `module H where`,
/// `import qualified A as B`, `x = 1`, one to a line.
pub open spec fn small_module(h: Seq<char>, a: Seq<char>, b: Seq<char>, x: Seq<char>) -> Seq<char> {
    "{-# OverloadedStrings #-}\nmodule "@ + h + " where\nimport qualified "@ + a + " as "@ + b
        + "\n"@ + x + " = 1\n"@
}

/// A run of class `k` from `i` that stops at `e` ends there.
pub proof fn lemma_run_end_at(s: Seq<char>, i: int, e: int, k: CharClass)
    requires
        0 <= i <= e <= s.len(),
        forall|j: int| i <= j < e ==> in_class(k, #[trigger] s[j]),
        e == s.len() || !in_class(k, s[e]),
    ensures
        run_end(s, i, k) == e,
    decreases e - i,
{
    if i < e {
        lemma_run_end_at(s, i + 1, e, k);
    }
}

/// One layout character, then none, is skipped as one.
pub proof fn lemma_one_space(s: Seq<char>, p: int)
    requires
        0 <= p,
        p + 1 < s.len(),
        s[p] == ' ' || s[p] == '\n',
        !is_layout(s[p + 1]),
    ensures
        layout_end(s, p) == p + 1,
{
    lemma_run_end_at(s, p, p + 1, CharClass::Layout);
}

/// A name that differs from the keyword `w` and is followed by a space is
/// not that keyword.
pub proof fn lemma_not_keyword(s: Seq<char>, p: int, x: Seq<char>, w: Seq<char>)
    requires
        0 <= p,
        p + x.len() < s.len(),
        s.subrange(p, p + x.len()) == x,
        forall|j: int| 0 <= j < x.len() ==> in_class(CharClass::IdentTail, #[trigger] x[j]),
        s[p + x.len()] == ' ',
        x != w,
        forall|j: int| 0 <= j < w.len() ==> in_class(CharClass::IdentTail, #[trigger] w[j]),
    ensures
        !keyword_at(s, p, w),
{
    if keyword_at(s, p, w) {
        if w.len() == x.len() {
            assert(x == w);
        } else if w.len() < x.len() {
            assert(s[p + w.len()] == x[w.len() as int]);
        } else {
            assert(s.subrange(p, p + w.len())[x.len() as int] == w[x.len() as int]);
        }
    }
}

/// Where the pieces of `small_module(h, a, b, x)` stand: the header's name,
/// the imported module, its alias, the bound name, and the end.
pub open spec fn small_module_marks(h: Seq<char>, a: Seq<char>, b: Seq<char>, x: Seq<char>) -> (
    int,
    int,
    int,
    int,
    int,
) {
    let ph: int = 33;
    let pa = ph + h.len() + 24;
    let pb = pa + a.len() + 4;
    let px = pb + b.len() + 1;
    (ph, pa, pb, px, px + x.len() + 5)
}

proof fn lemma_small_module_pieces(h: Seq<char>, a: Seq<char>, b: Seq<char>, x: Seq<char>)
    ensures
        ({
            let s = small_module(h, a, b, x);
            let (ph, pa, pb, px, n) = small_module_marks(h, a, b, x);
            &&& s.len() == n
            &&& s.subrange(0, ph) == "{-# OverloadedStrings #-}\nmodule "@
            &&& s.subrange(ph, ph + h.len()) == h
            &&& s.subrange(ph + h.len(), pa) == " where\nimport qualified "@
            &&& s.subrange(pa, pa + a.len()) == a
            &&& s.subrange(pa + a.len(), pb) == " as "@
            &&& s.subrange(pb, pb + b.len()) == b
            &&& s[pb + b.len()] == '\n'
            &&& s.subrange(px, px + x.len()) == x
            &&& s.subrange(px + x.len(), n) == " = 1\n"@
        }),
{
    reveal_strlit("{-# OverloadedStrings #-}\nmodule ");
    reveal_strlit(" where\nimport qualified ");
    reveal_strlit(" as ");
    reveal_strlit("\n");
    reveal_strlit(" = 1\n");
    let s = small_module(h, a, b, x);
    let (ph, pa, pb, px, n) = small_module_marks(h, a, b, x);
    let s1 = "{-# OverloadedStrings #-}\nmodule "@ + h;
    let s2 = s1 + " where\nimport qualified "@;
    let s3 = s2 + a;
    let s4 = s3 + " as "@;
    let s5 = s4 + b;
    let s6 = s5 + "\n"@;
    let s7 = s6 + x;
    assert(s == s7 + " = 1\n"@);
    assert(s.subrange(0, ph) =~= "{-# OverloadedStrings #-}\nmodule "@);
    assert(s.subrange(ph, ph + h.len()) =~= h);
    assert(s.subrange(ph + h.len(), pa) =~= " where\nimport qualified "@);
    assert(s.subrange(pa, pa + a.len()) =~= a);
    assert(s.subrange(pa + a.len(), pb) =~= " as "@);
    assert(s.subrange(pb, pb + b.len()) =~= b);
    assert(s.subrange(px, px + x.len()) =~= x);
    assert(s.subrange(px + x.len(), n) =~= " = 1\n"@);
}

#[verifier::rlimit(60)]
proof fn lemma_small_module_pragma(h: Seq<char>, a: Seq<char>, b: Seq<char>, x: Seq<char>)
    requires
        is_module_name_text(h),
    ensures
        layout_end(small_module(h, a, b, x), 0) == 0,
        pragmas_rule(small_module(h, a, b, x), 0) == Ok::<(Seq<Extension>, int), Failure>(
            (seq![Extension::OverloadedStrings], 26),
        ),
{
    reveal_strlit("{-# OverloadedStrings #-}\nmodule ");
    reveal_strlit("{-#");
    reveal_strlit("#-}");
    reveal_strlit("LANGUAGE");
    reveal_strlit("OverloadedStrings");
    lemma_small_module_pieces(h, a, b, x);
    let s = small_module(h, a, b, x);
    let p = s.subrange(0, 33);
    assert(forall|j: int| 0 <= j < 33 ==> s[j] == p[j]);
    assert(s[33] == h[0]) by {
        assert(s.subrange(33, 33 + h.len() as int)[0] == s[33]);
    }
    lemma_run_end_at(s, 0, 0, CharClass::Layout);
    assert(s.subrange(0, 3) =~= "{-#"@);
    lemma_one_space(s, 3);
    assert(s.subrange(4, 12)[0] != "LANGUAGE"@[0]);
    lemma_run_end_at(s, 5, 21, CharClass::ModuleTail);
    lemma_one_space(s, 21);
    assert(s.subrange(4, 21) =~= "OverloadedStrings"@);
    assert(s.subrange(22, 25) =~= "#-}"@);
    lemma_one_space(s, 25);
    assert(extension_rule(s, 4) == Ok::<(Extension, int), Failure>(
        (Extension::OverloadedStrings, 22),
    ));
    assert(extension_list_rule(s, 4) == Ok::<(Seq<Extension>, int), Failure>(
        (seq![Extension::OverloadedStrings], 26),
    ));
    assert(pragma_rule(s, 0) == Ok::<(Seq<Extension>, int), Failure>(
        (seq![Extension::OverloadedStrings], 26),
    ));
    assert(!matches_at(s, 26, "{-#"@)) by {
        assert(s.subrange(26, 29)[0] != "{-#"@[0]);
    }
    assert(pragmas_rule(s, 26) == Ok::<(Seq<Extension>, int), Failure>((seq![], 26)));
    assert(seq![Extension::OverloadedStrings] + seq![] =~= seq![Extension::OverloadedStrings]);
}

proof fn lemma_small_module_header(h: Seq<char>, a: Seq<char>, b: Seq<char>, x: Seq<char>)
    requires
        is_module_name_text(h),
    ensures
        header_rule(small_module(h, a, b, x), 26) == Ok::<(Seq<char>, int), Failure>(
            (h, (40 + h.len()) as int),
        ),
{
    reveal_strlit("{-# OverloadedStrings #-}\nmodule ");
    reveal_strlit(" where\nimport qualified ");
    reveal_strlit("module");
    reveal_strlit("where");
    lemma_small_module_pieces(h, a, b, x);
    let s = small_module(h, a, b, x);
    let hl = h.len() as int;
    let p = s.subrange(0, 33);
    assert(forall|j: int| 0 <= j < 33 ==> s[j] == p[j]);
    let q = s.subrange(33, 33 + hl);
    assert(forall|j: int| 33 <= j < 33 + hl ==> s[j] == q[j - 33]);
    let r = s.subrange(33 + hl, 57 + hl);
    assert(forall|j: int| 33 + hl <= j < 57 + hl ==> s[j] == r[j - (33 + hl)]);
    assert(s.subrange(26, 32) =~= "module"@);
    lemma_one_space(s, 32);
    lemma_run_end_at(s, 34, 33 + hl, CharClass::ModuleTail);
    lemma_one_space(s, 33 + hl);
    assert(module_name_rule(s, 33) == Ok::<(Seq<char>, int), Failure>((h, 34 + hl)));
    assert(s.subrange(34 + hl, 39 + hl) =~= "where"@);
    lemma_one_space(s, 39 + hl);
}

#[verifier::rlimit(100)]
proof fn lemma_small_module_import(h: Seq<char>, a: Seq<char>, b: Seq<char>, x: Seq<char>)
    requires
        is_module_name_text(a),
        is_module_name_text(b),
        is_identifier_text(x),
    ensures
        import_rule(small_module(h, a, b, x), (40 + h.len()) as int) == Some(
            Ok::<(ImportView, int), Failure>(
                (
                    ImportView { qualified: true, module: a, alias: Some(b) },
                    small_module_marks(h, a, b, x).3,
                ),
            ),
        ),
{
    reveal_strlit(" where\nimport qualified ");
    reveal_strlit(" as ");
    reveal_strlit("import");
    reveal_strlit("qualified");
    reveal_strlit("as");
    lemma_small_module_pieces(h, a, b, x);
    let s = small_module(h, a, b, x);
    let (ph, pa, pb, px, n) = small_module_marks(h, a, b, x);
    let hl = h.len() as int;
    let al = a.len() as int;
    let bl = b.len() as int;
    let r = s.subrange(ph + hl, pa);
    assert(forall|j: int| ph + hl <= j < pa ==> s[j] == r[j - (ph + hl)]);
    let ra = s.subrange(pa, pa + al);
    assert(forall|j: int| pa <= j < pa + al ==> s[j] == ra[j - pa]);
    let r2 = s.subrange(pa + al, pb);
    assert(forall|j: int| pa + al <= j < pb ==> s[j] == r2[j - (pa + al)]);
    let rb = s.subrange(pb, pb + bl);
    assert(forall|j: int| pb <= j < pb + bl ==> s[j] == rb[j - pb]);
    assert(s[px] == x[0]) by {
        assert(s.subrange(px, px + x.len())[0] == s[px]);
    }
    let pi = ph + hl + 7;
    assert(s.subrange(pi, pi + 6) =~= "import"@);
    lemma_one_space(s, pi + 6);
    assert(s.subrange(pi + 7, pi + 16) =~= "qualified"@);
    lemma_one_space(s, pi + 16);
    lemma_run_end_at(s, pa + 1, pa + al, CharClass::ModuleTail);
    lemma_one_space(s, pa + al);
    assert(module_name_rule(s, pa) == Ok::<(Seq<char>, int), Failure>((a, pa + al + 1)));
    assert(s.subrange(pa + al + 1, pa + al + 3) =~= "as"@);
    lemma_one_space(s, pa + al + 3);
    lemma_run_end_at(s, pb + 1, pb + bl, CharClass::ModuleTail);
    lemma_one_space(s, pb + bl);
    assert(module_name_rule(s, pb) == Ok::<(Seq<char>, int), Failure>((b, px)));
}

#[verifier::rlimit(100)]
proof fn lemma_small_module_binding(h: Seq<char>, a: Seq<char>, b: Seq<char>, x: Seq<char>)
    requires
        is_identifier_text(x),
        x != "data"@,
        x != "type"@,
        x != "newtype"@,
        x != "import"@,
    ensures
        ({
            let s = small_module(h, a, b, x);
            let (ph, pa, pb, px, n) = small_module_marks(h, a, b, x);
            &&& import_rule(s, px) is None
            &&& declaration_rule(s, px) == Some(
                Ok::<(Declaration, int), Failure>((Declaration::Value, n)),
            )
            &&& declaration_rule(s, n) is None
        }),
{
    reveal_strlit(" = 1\n");
    reveal_strlit("import");
    reveal_strlit("data");
    reveal_strlit("type");
    reveal_strlit("newtype");
    lemma_small_module_pieces(h, a, b, x);
    let s = small_module(h, a, b, x);
    let (ph, pa, pb, px, n) = small_module_marks(h, a, b, x);
    let xl = x.len() as int;
    let rx = s.subrange(px, px + xl);
    assert(forall|j: int| px <= j < px + xl ==> s[j] == rx[j - px]);
    let t = s.subrange(px + xl, n);
    assert(s[px + xl] == ' ' && s[px + xl + 1] == '=' && s[px + xl + 2] == ' ') by {
        assert(t[0] == s[px + xl] && t[1] == s[px + xl + 1] && t[2] == s[px + xl + 2]);
    }
    assert(s[n - 2] == '1' && s[n - 1] == '\n') by {
        assert(t[3] == s[n - 2] && t[4] == s[n - 1]);
    }
    assert(forall|j: int| 0 <= j < 6 ==> in_class(CharClass::IdentTail, #[trigger] "import"@[j]));
    assert(forall|j: int| 0 <= j < 4 ==> in_class(CharClass::IdentTail, #[trigger] "data"@[j]));
    assert(forall|j: int| 0 <= j < 4 ==> in_class(CharClass::IdentTail, #[trigger] "type"@[j]));
    assert(forall|j: int| 0 <= j < 7 ==> in_class(CharClass::IdentTail, #[trigger] "newtype"@[j]));
    assert(forall|j: int| 0 <= j < xl ==> in_class(CharClass::IdentTail, #[trigger] x[j]));
    lemma_not_keyword(s, px, x, "import"@);
    lemma_not_keyword(s, px, x, "data"@);
    lemma_not_keyword(s, px, x, "type"@);
    lemma_not_keyword(s, px, x, "newtype"@);
    lemma_run_end_at(s, px + 1, px + xl, CharClass::IdentTail);
    lemma_one_space(s, px + xl);
    assert(identifier_rule(s, px) == Ok::<(Seq<char>, int), Failure>((x, px + xl + 1)));
    assert(binding_at(s, px + xl + 1));
    assert(body_end(s, n) == n);
    assert(body_end(s, n - 1) == n);
    assert(body_end(s, n - 2) == n);
    assert(body_end(s, n - 3) == n);
    assert(!keyword_at(s, n, "data"@));
    assert(!keyword_at(s, n, "type"@));
    assert(!keyword_at(s, n, "newtype"@));
}

/// A module source of one pragma, a header, one qualified import with an
/// alias and one value binding, one to a line, parses into a module with one
/// extension, the header's name, that one import and one value declaration,
/// each as written.
pub proof fn lemma_small_module(h: Seq<char>, a: Seq<char>, b: Seq<char>, x: Seq<char>)
    requires
        is_module_name_text(h),
        is_module_name_text(a),
        is_module_name_text(b),
        is_identifier_text(x),
        x != "data"@,
        x != "type"@,
        x != "newtype"@,
        x != "import"@,
    ensures
        module_rule(small_module(h, a, b, x)) == Ok::<ModuleView, Failure>(
            ModuleView {
                extensions: seq![Extension::OverloadedStrings],
                name: h,
                imports: seq![ImportView { qualified: true, module: a, alias: Some(b) }],
                declarations: seq![Declaration::Value],
            },
        ),
{
    let s = small_module(h, a, b, x);
    let (ph, pa, pb, px, n) = small_module_marks(h, a, b, x);
    lemma_small_module_pieces(h, a, b, x);
    lemma_small_module_pragma(h, a, b, x);
    lemma_small_module_header(h, a, b, x);
    lemma_small_module_import(h, a, b, x);
    lemma_small_module_binding(h, a, b, x);
    let iv = ImportView { qualified: true, module: a, alias: Some(b) };
    assert(imports_rule(s, px) == Ok::<(Seq<ImportView>, int), Failure>((seq![], px)));
    assert(seq![iv] + seq![] =~= seq![iv]);
    assert(imports_rule(s, (40 + h.len()) as int) == Ok::<(Seq<ImportView>, int), Failure>(
        (seq![iv], px),
    ));
    assert(declarations_rule(s, n) == Ok::<(Seq<Declaration>, int), Failure>((seq![], n)));
    assert(seq![Declaration::Value] + seq![] =~= seq![Declaration::Value]);
    assert(declarations_rule(s, px) == Ok::<(Seq<Declaration>, int), Failure>(
        (seq![Declaration::Value], n),
    ));
}

} // verus!
