//! What the standard library knows of characters by Unicode's tables. The
//! functions here are believed, not proved: each hands on one function of
//! the standard library under a name for its result.

use vstd::prelude::*;

verus! {

/// Whether `char::is_whitespace` holds of `c`: Unicode's property
/// `White_Space`.
pub uninterp spec fn is_whitespace(c: char) -> bool;

/// Whether `char::is_uppercase` holds of `c`: Unicode's property
/// `Uppercase`.
pub uninterp spec fn is_uppercase(c: char) -> bool;

/// What `char::to_uppercase` gives for `c`: the characters of its uppercase
/// form.
pub uninterp spec fn uppercase_of(c: char) -> Seq<char>;

/// What `str::to_lowercase` gives for the string `s`.
pub uninterp spec fn lowercase_of(s: Seq<char>) -> Seq<char>;

/// What `str::to_uppercase` gives for the string `s`.
pub uninterp spec fn uppercase_text_of(s: Seq<char>) -> Seq<char>;

/// `char::is_whitespace`. The result is a function of `c` alone, fixed by
/// Unicode's tables; nothing more is claimed of it.
#[verifier::external_body]
pub(crate) fn char_is_whitespace(c: char) -> (r: bool)
    ensures
        r == is_whitespace(c),
{
    c.is_whitespace()
}

/// `char::is_uppercase`. The result is a function of `c` alone, fixed by
/// Unicode's tables; nothing more is claimed of it.
#[verifier::external_body]
pub(crate) fn char_is_uppercase(c: char) -> (r: bool)
    ensures
        r == is_uppercase(c),
{
    c.is_uppercase()
}

/// `char::to_uppercase`, its characters collected. The standard library
/// documents that the uppercase form has one character or more; which, is
/// fixed by Unicode's tables.
#[verifier::external_body]
pub(crate) fn char_to_uppercase(c: char) -> (r: Vec<char>)
    ensures
        r@ == uppercase_of(c),
        r@.len() >= 1,
{
    c.to_uppercase().collect()
}

/// `str::to_lowercase`. The result is a function of the characters of `s`
/// alone, fixed by Unicode's tables; nothing more is claimed of it.
#[verifier::external_body]
pub(crate) fn str_to_lowercase(s: &str) -> (r: String)
    ensures
        r@ == lowercase_of(s@),
{
    s.to_lowercase()
}

/// `str::to_uppercase`. The result is a function of the characters of `s`
/// alone, fixed by Unicode's tables; nothing more is claimed of it.
#[verifier::external_body]
pub(crate) fn str_to_uppercase(s: &str) -> (r: String)
    ensures
        r@ == uppercase_text_of(s@),
{
    s.to_uppercase()
}

/// `String::push`: the character `c` is added at the end of `s`.
pub assume_specification[ String::push ](s: &mut String, c: char)
    ensures
        final(s)@ == old(s)@.push(c),
;

} // verus!
