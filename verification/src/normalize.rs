//! Bringing a text into the plain form that suits its language.
use vstd::prelude::*;
use vstd::string::*;

use crate::language::{lemma_code_names_language, Language};
use crate::text::{lemma_trim_idempotent, trim, trim_bounds, CharClass};
use crate::unicode::{to_chars, unicode_lowercase};

verus! {

/// Whether `code` selects trimming: it is the code of a language without case.
/// Every other string, a language code or not, selects lower case.
pub open spec fn selects_trimming(code: Seq<char>) -> bool {
    Language::spec_from_code(code) matches Some(language) && !language.has_case()
}

/// The normal form of `text` for the language that `code` names: for a language
/// without case, `text` without the white space at its ends and otherwise as it
/// is; for every other code, `text` in lower case and otherwise as it is, white
/// space included.
pub open spec fn normalized(text: Seq<char>, code: Seq<char>) -> Seq<char> {
    if selects_trimming(code) {
        trim(text, CharClass::Whitespace)
    } else {
        unicode_lowercase(text)
    }
}

/// The codes that select trimming are `hi` and `th`, and no other string.
pub proof fn lemma_trimming_codes(code: Seq<char>)
    ensures
        selects_trimming(code) <==> code == "hi"@ || code == "th"@,
{
    lemma_code_names_language(Language::Hi);
    lemma_code_names_language(Language::Th);
}

/// Normalising a normal form changes nothing, for every code that selects
/// trimming, and for every other code on a text whose lower-case form is its own
/// lower-case form. (Whether every lower-case form is, rests with the Unicode
/// tables, of which this crate knows the names only.)
pub proof fn lemma_normalized_idempotent(text: Seq<char>, code: Seq<char>)
    requires
        selects_trimming(code) || unicode_lowercase(unicode_lowercase(text)) == unicode_lowercase(
            text,
        ),
    ensures
        normalized(normalized(text, code), code) == normalized(text, code),
{
    if selects_trimming(code) {
        lemma_trim_idempotent(text, CharClass::Whitespace);
    }
}

/// A text has one normal form for each code: two strings that both are the normal
/// form of `text` for `code` are the same string.
pub proof fn lemma_normal_form_is_settled(
    text: Seq<char>,
    code: Seq<char>,
    first: Seq<char>,
    second: Seq<char>,
)
    requires
        first == normalized(text, code),
        second == normalized(text, code),
    ensures
        first == second,
{
}

/// The normal form of `text` for the language that `language` is the code of:
/// trimmed of white space for `hi` and `th`, in lower case for every other string.
pub fn normalize_text(text: &str, language: &str) -> (normal: String)
    ensures
        normal@ == normalized(text@, language@),
{
    let trimming = match Language::from_code(language) {
        Some(named) => !named.has_case(),
        None => false,
    };
    if trimming {
        let chars = to_chars(text);
        let (from, to) = trim_bounds(chars.as_slice(), CharClass::Whitespace);
        String::from_str(text.substring_char(from, to))
    } else {
        text.to_lowercase()
    }
}

} // verus!
