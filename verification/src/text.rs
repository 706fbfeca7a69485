//! Comparisons of strings, and what they mean over sequences of characters.
//!
//! The executable comparisons are those of the standard library. Their
//! meaning is fixed here by two small definitions, containment and the
//! lexicographic order, together with the facts about that order which
//! sorting relies on.

use vstd::prelude::*;

verus! {

/// Whether `needle` occurs in `haystack` as a run of consecutive characters.
/// The empty sequence occurs in every sequence.
pub open spec fn is_substring(haystack: Seq<char>, needle: Seq<char>) -> bool {
    exists|i: int|
        0 <= i <= haystack.len() - needle.len() && #[trigger] haystack.subrange(
            i,
            i + needle.len(),
        ) == needle
}

/// The strict lexicographic order on strings, character by character, each
/// character taken by its code point. A proper prefix comes before the
/// string it is a prefix of.
pub open spec fn lex_lt(a: Seq<char>, b: Seq<char>) -> bool
    decreases a.len(),
{
    if b.len() == 0 {
        false
    } else if a.len() == 0 {
        true
    } else if a[0] != b[0] {
        (a[0] as int) < (b[0] as int)
    } else {
        lex_lt(a.drop_first(), b.drop_first())
    }
}

/// Every sequence contains itself.
pub proof fn lemma_substring_reflexive(s: Seq<char>)
    ensures
        is_substring(s, s),
{
    let start: int = 0;
    assert(s.subrange(start, start + s.len()) == s);
}

/// No string comes before itself.
pub proof fn lemma_lex_lt_irreflexive(a: Seq<char>)
    ensures
        !lex_lt(a, a),
    decreases a.len(),
{
    if a.len() > 0 {
        lemma_lex_lt_irreflexive(a.drop_first());
    }
}

/// The order is transitive.
pub proof fn lemma_lex_lt_transitive(a: Seq<char>, b: Seq<char>, c: Seq<char>)
    requires
        lex_lt(a, b),
        lex_lt(b, c),
    ensures
        lex_lt(a, c),
    decreases a.len(),
{
    if a.len() > 0 && a[0] == b[0] && b[0] == c[0] {
        lemma_lex_lt_transitive(a.drop_first(), b.drop_first(), c.drop_first());
    }
}

/// Of two different strings one comes before the other.
pub proof fn lemma_lex_lt_connected(a: Seq<char>, b: Seq<char>)
    requires
        !lex_lt(a, b),
        !lex_lt(b, a),
    ensures
        a == b,
    decreases a.len(),
{
    if a.len() > 0 && b.len() > 0 {
        lemma_lex_lt_connected(a.drop_first(), b.drop_first());
        assert(a =~= seq![a[0]] + a.drop_first());
        assert(b =~= seq![b[0]] + b.drop_first());
    }
}

/// `str::contains` of the standard library, with a string as the pattern:
/// whether `needle` matches a sub-slice of `haystack`.
#[verifier::external_body]
pub(crate) fn str_contains(haystack: &str, needle: &str) -> (found: bool)
    ensures
        found == is_substring(haystack@, needle@),
{
    haystack.contains(needle)
}

/// `<` of the standard library on string slices, which orders strings
/// lexicographically by their bytes and so by their code points.
#[verifier::external_body]
pub(crate) fn str_lt(a: &str, b: &str) -> (less: bool)
    ensures
        less == lex_lt(a@, b@),
{
    a.lt(b)
}

/// `==` of the standard library on string slices: the same characters in
/// the same order.
#[verifier::external_body]
pub(crate) fn str_eq(a: &str, b: &str) -> (same: bool)
    ensures
        same == (a@ == b@),
{
    a.eq(b)
}

} // verus!
