//! Character and string primitives of the standard library that the palette
//! relies on, together with the mathematical order on strings.

use vstd::prelude::*;

verus! {

/// Whether a character has the Unicode `Uppercase` property.
pub uninterp spec fn char_is_uppercase(c: char) -> bool;

/// The lowercase mapping of a character, as a sequence of characters.
pub uninterp spec fn char_lowercase(c: char) -> Seq<char>;

/// `char::is_uppercase`: trusted to be a function of the character alone,
/// named [`char_is_uppercase`].
pub assume_specification[ char::is_uppercase ](c: char) -> (upper: bool)
    ensures
        upper == char_is_uppercase(c),
;

/// `char::to_lowercase`, collected into a vector: trusted to yield the
/// characters named by [`char_lowercase`], in order.
#[verifier::external_body]
pub(crate) fn lowercase_chars(c: char) -> (lower: Vec<char>)
    ensures
        lower@ == char_lowercase(c),
{
    c.to_lowercase().collect()
}

/// `String::push`: trusted to append exactly the given character.
pub assume_specification[ String::push ](s: &mut String, c: char)
    ensures
        final(s)@ == old(s)@.push(c),
;

/// `str::ends_with` for a single character: trusted to report whether the
/// string is non-empty and its last character is `c`.
#[verifier::external_body]
pub(crate) fn ends_with_char(s: &str, c: char) -> (ends: bool)
    ensures
        ends == (s@.len() > 0 && s@.last() == c),
{
    s.ends_with(c)
}

/// The lexicographic order on strings, character by character, where
/// characters are ordered by code point and a proper prefix precedes its
/// extensions.
pub open spec fn lex_lt(a: Seq<char>, b: Seq<char>) -> bool
    decreases a.len(),
{
    if b.len() == 0 {
        false
    } else if a.len() == 0 {
        true
    } else if a[0] != b[0] {
        (a[0] as int) < (b[0] as int)
    } else {
        lex_lt(a.drop_first(), b.drop_first())
    }
}

/// The `<` of `str`: trusted to be [`lex_lt`]. The standard library orders
/// strings lexicographically by their bytes, and in UTF-8 that is the order
/// by code point.
#[verifier::external_body]
pub(crate) fn str_less(a: &str, b: &str) -> (less: bool)
    ensures
        less == lex_lt(a@, b@),
{
    a < b
}

/// No string precedes itself.
pub proof fn lemma_lex_lt_irreflexive(a: Seq<char>)
    ensures
        !lex_lt(a, a),
    decreases a.len(),
{
    if a.len() > 0 {
        lemma_lex_lt_irreflexive(a.drop_first());
    }
}

/// The order is transitive.
pub proof fn lemma_lex_lt_transitive(a: Seq<char>, b: Seq<char>, c: Seq<char>)
    requires
        lex_lt(a, b),
        lex_lt(b, c),
    ensures
        lex_lt(a, c),
    decreases a.len(),
{
    if a.len() > 0 && a[0] == b[0] && b[0] == c[0] {
        lemma_lex_lt_transitive(a.drop_first(), b.drop_first(), c.drop_first());
    }
}

/// Any two different strings are ordered one way or the other.
pub proof fn lemma_lex_lt_total(a: Seq<char>, b: Seq<char>)
    ensures
        a == b || lex_lt(a, b) || lex_lt(b, a),
    decreases a.len(),
{
    if a.len() == 0 || b.len() == 0 {
        if a.len() == 0 && b.len() == 0 {
            assert(a =~= b);
        }
    } else if a[0] == b[0] {
        lemma_lex_lt_total(a.drop_first(), b.drop_first());
        if a.drop_first() == b.drop_first() {
            assert(a =~= seq![a[0]] + a.drop_first());
            assert(b =~= seq![b[0]] + b.drop_first());
        }
    }
}

/// Two strings are never each before the other.
pub proof fn lemma_lex_lt_asymmetric(a: Seq<char>, b: Seq<char>)
    requires
        lex_lt(a, b),
    ensures
        !lex_lt(b, a),
{
    if lex_lt(b, a) {
        lemma_lex_lt_transitive(a, b, a);
        lemma_lex_lt_irreflexive(a);
    }
}

} // verus!
