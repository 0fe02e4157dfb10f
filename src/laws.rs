//! Laws of the primitive rules, stated over the rules' models.

use vstd::prelude::*;

use crate::error::{failure, ErrorKind, Failure};
use crate::lexer::{
    in_class, is_digit, is_lower_or_underscore, is_upper, layout_end, lemma_run_end_bounds,
    lemma_run_end_full, run_end, CharClass,
};
use crate::parser::{identifier_rule, module_name_rule};

verus! {

/// The outcome `m` with every position in it moved back by `d`.
pub open spec fn shifted(m: Result<(Seq<char>, int), Failure>, d: int) -> Result<
    (Seq<char>, int),
    Failure,
> {
    match m {
        Ok((v, e)) => Ok((v, e - d)),
        Err(f) => Err(Failure { position: f.position - d, kind: f.kind, found: f.found }),
    }
}

/// A run read in a suffix of the text ends where it ends in the whole text.
pub proof fn lemma_run_end_suffix(s: Seq<char>, q: int, i: int, k: CharClass)
    requires
        0 <= q <= i <= s.len(),
    ensures
        run_end(s.subrange(q, s.len() as int), i - q, k) == run_end(s, i, k) - q,
    decreases s.len() - i,
{
    let t = s.subrange(q, s.len() as int);
    if i < s.len() {
        assert(t[i - q] == s[i]);
        lemma_run_end_suffix(s, q, i + 1, k);
    }
}

/// Every string of the form `[a-z_][a-zA-Z0-9'_]*` parses as one identifier,
/// the whole string, with nothing left over.
pub proof fn lemma_identifier_whole(t: Seq<char>)
    requires
        t.len() > 0,
        is_lower_or_underscore(t[0]),
        forall|j: int| 1 <= j < t.len() ==> in_class(CharClass::IdentTail, #[trigger] t[j]),
    ensures
        identifier_rule(t, 0) == Ok::<(Seq<char>, int), Failure>((t, t.len() as int)),
{
    lemma_run_end_full(t, 1, CharClass::IdentTail);
    assert(layout_end(t, t.len() as int) == t.len());
    assert(t.subrange(0, t.len() as int) =~= t);
}

/// A string that starts with an uppercase letter, a digit or a prime is no
/// identifier: the rule fails at its first character, consuming nothing.
pub proof fn lemma_identifier_rejects(t: Seq<char>)
    requires
        t.len() > 0,
        is_upper(t[0]) || is_digit(t[0]) || t[0] == '\'',
    ensures
        identifier_rule(t, 0) == Err::<(Seq<char>, int), Failure>(
            failure(0, ErrorKind::ExpectedIdentifier),
        ),
{
}

/// After a successful identifier parse, parsing the remainder with the same
/// rule never reads a consumed character: the first parse consumed at least
/// its value, which is the text it read, and the rule on the remainder gives
/// what it gives on the whole text where the first parse stopped.
pub proof fn lemma_identifier_reparse(t: Seq<char>)
    requires
        identifier_rule(t, 0) is Ok,
    ensures
        ({
            let (v, q) = identifier_rule(t, 0)->Ok_0;
            &&& 0 < v.len() <= q <= t.len()
            &&& v == t.subrange(0, v.len() as int)
            &&& identifier_rule(t.subrange(q, t.len() as int), 0) == shifted(
                identifier_rule(t, q),
                q,
            )
        }),
{
    let e = run_end(t, 1, CharClass::IdentTail);
    lemma_run_end_bounds(t, 1, CharClass::IdentTail);
    lemma_run_end_bounds(t, e, CharClass::Layout);
    let q = layout_end(t, e);
    let r = t.subrange(q, t.len() as int);
    if q < t.len() {
        assert(r[0] == t[q]);
        lemma_run_end_suffix(t, q, q + 1, CharClass::IdentTail);
        let e2 = run_end(t, q + 1, CharClass::IdentTail);
        lemma_run_end_bounds(t, q + 1, CharClass::IdentTail);
        lemma_run_end_suffix(t, q, e2, CharClass::Layout);
        assert(r.subrange(0, e2 - q) =~= t.subrange(q, e2));
    }
}

/// After a successful module-name parse, parsing the remainder with the same
/// rule never reads a consumed character, as for identifiers.
pub proof fn lemma_module_name_reparse(t: Seq<char>)
    requires
        module_name_rule(t, 0) is Ok,
    ensures
        ({
            let (v, q) = module_name_rule(t, 0)->Ok_0;
            &&& 0 < v.len() <= q <= t.len()
            &&& v == t.subrange(0, v.len() as int)
            &&& module_name_rule(t.subrange(q, t.len() as int), 0) == shifted(
                module_name_rule(t, q),
                q,
            )
        }),
{
    let e = run_end(t, 1, CharClass::ModuleTail);
    lemma_run_end_bounds(t, 1, CharClass::ModuleTail);
    lemma_run_end_bounds(t, e, CharClass::Layout);
    let q = layout_end(t, e);
    let r = t.subrange(q, t.len() as int);
    if q < t.len() {
        assert(r[0] == t[q]);
        lemma_run_end_suffix(t, q, q + 1, CharClass::ModuleTail);
        let e2 = run_end(t, q + 1, CharClass::ModuleTail);
        lemma_run_end_bounds(t, q + 1, CharClass::ModuleTail);
        if e2 < t.len() {
            assert(r[e2 - q] == t[e2]);
        }
        lemma_run_end_suffix(t, q, e2, CharClass::Layout);
        assert(r.subrange(0, e2 - q) =~= t.subrange(q, e2));
    }
}

} // verus!
