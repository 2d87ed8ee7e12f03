//! The Unicode character tables of the standard library.
//!
//! Which code points are white space, which are letters or numbers, and what the
//! lower-case form of a text is, is decided by tables that ship with the standard
//! library. Nothing here restates those tables: each of the three questions gets a
//! name, and the standard function that answers it is taken to return what the
//! name stands for. Everything else in the crate is proved relative to these names.
use vstd::prelude::*;

verus! {

/// Whether `c` is Unicode white space (`White_Space`).
pub uninterp spec fn is_unicode_whitespace(c: char) -> bool;

/// Whether `c` is a Unicode letter or number (`Alphabetic`, or one of the general
/// categories `Nd`, `Nl`, `No`).
pub uninterp spec fn is_unicode_alphanumeric(c: char) -> bool;

/// The lower-case equivalent of `text` in the terms of Unicode (`Lowercase`). It
/// may have more characters than `text`.
pub uninterp spec fn unicode_lowercase(text: Seq<char>) -> Seq<char>;

/// `char::is_whitespace` answers by the character alone: it returns what
/// [`is_unicode_whitespace`] names. Not proved.
pub assume_specification[ char::is_whitespace ](c: char) -> (b: bool)
    ensures
        b == is_unicode_whitespace(c),
;

/// `char::is_alphanumeric` answers by the character alone: it returns what
/// [`is_unicode_alphanumeric`] names. Not proved.
pub assume_specification[ char::is_alphanumeric ](c: char) -> (b: bool)
    ensures
        b == is_unicode_alphanumeric(c),
;

/// `str::to_lowercase` builds a new string whose characters depend on those of `s`
/// alone: they are what [`unicode_lowercase`] names. Not proved.
pub assume_specification[ str::to_lowercase ](s: &str) -> (lowered: String)
    ensures
        lowered@ == unicode_lowercase(s@),
;

/// The characters of `text`, in order.
pub fn to_chars(text: &str) -> (chars: Vec<char>)
    ensures
        chars@ == text@,
{
    let mut chars: Vec<char> = Vec::new();
    for c in it: text.chars()
        invariant
            chars@ == it.seq().take(it.index() as int),
    {
        chars.push(c);
    }
    chars
}

} // verus!
