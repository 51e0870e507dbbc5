//! Display names: how a raw, namespaced action name such as
//! `editor::GoToDefinition` becomes the text shown in the palette, and which
//! namespace an action name belongs to.

use crate::text::{char_is_uppercase, char_lowercase, ends_with_char, lowercase_chars};
use vstd::prelude::*;

verus! {

/// The display text after one more character `c` of the raw name has been
/// read, where `out` is the display text so far, `upper` says whether `c` is
/// an uppercase letter and `lower` is its lowercase form.
///
/// A colon directly after a colon becomes a space, so that `::` reads `: `;
/// an underscore becomes a space; an uppercase letter becomes its lowercase
/// form, separated from what precedes it by exactly one space; every other
/// character is kept.
pub open spec fn humanize_char(out: Seq<char>, c: char, upper: bool, lower: Seq<char>) -> Seq<
    char,
> {
    if c == ':' {
        if out.len() > 0 && out.last() == ':' {
            out.push(' ')
        } else {
            out.push(':')
        }
    } else if c == '_' {
        out.push(' ')
    } else if upper {
        if out.len() > 0 && out.last() == ' ' {
            out + lower
        } else {
            out.push(' ') + lower
        }
    } else {
        out.push(c)
    }
}

/// The display text of a raw action name: [`humanize_char`] applied to its
/// characters from left to right.
pub open spec fn humanized(name: Seq<char>) -> Seq<char>
    decreases name.len(),
{
    if name.len() == 0 {
        Seq::empty()
    } else {
        let c = name.last();
        humanize_char(humanized(name.drop_last()), c, char_is_uppercase(c), char_lowercase(c))
    }
}

/// Appends to `result` what the character `c` contributes to a display name.
/// `upper` and `lower` are the character's case data; `lower` is read only
/// when `upper` holds.
pub fn push_humanized(result: &mut String, c: char, upper: bool, lower: &Vec<char>)
    ensures
        final(result)@ == humanize_char(old(result)@, c, upper, lower@),
{
    if c == ':' {
        if ends_with_char(result.as_str(), ':') {
            result.push(' ');
        } else {
            result.push(':');
        }
    } else if c == '_' {
        result.push(' ');
    } else if upper {
        if !ends_with_char(result.as_str(), ' ') {
            result.push(' ');
        }
        let ghost start = result@;
        let mut i: usize = 0;
        while i < lower.len()
            invariant
                i <= lower.len(),
                result@ == start + lower@.take(i as int),
            decreases lower.len() - i,
        {
            result.push(lower[i]);
            i = i + 1;
        }
        assert(lower@.take(lower.len() as int) == lower@);
    } else {
        result.push(c);
    }
}

/// Turns a raw, namespaced action name into the text shown in the palette.
pub fn humanize_action_name(name: &str) -> (result: String)
    ensures
        result@ == humanized(name@),
{
    let mut result = String::new();
    let chars = name.chars();
    for c in it: chars
        invariant
            it.seq() == name@,
            result@ == humanized(name@.take(it.index())),
    {
        let upper = c.is_uppercase();
        let lower = if upper {
            lowercase_chars(c)
        } else {
            Vec::new()
        };
        proof {
            let k = it.index();
            assert(name@.take(k + 1).drop_last() == name@.take(k));
            assert(name@.take(k + 1).last() == c);
        }
        push_humanized(&mut result, c, upper, &lower);
    }
    assert(name@.take(name@.len() as int) == name@);
    result
}

} // verus!
