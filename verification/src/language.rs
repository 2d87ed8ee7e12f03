//! The eight languages, their two-letter codes and the order that settles ties.
use vstd::prelude::*;

use crate::text::spells;
use crate::unicode::to_chars;

verus! {

/// A language that the detector can name.
#[derive(Clone, Copy, Debug, PartialEq, Eq, Hash, Structural)]
pub enum Language {
    /// English, `en`.
    En,
    /// German, `de`.
    De,
    /// French, `fr`.
    Fr,
    /// Italian, `it`.
    It,
    /// Portuguese, `pt`.
    Pt,
    /// Hindi, `hi`.
    Hi,
    /// Spanish, `es`.
    Es,
    /// Thai, `th`.
    Th,
}

/// How many languages there are.
pub const LANGUAGES: usize = 8;

/// The languages in order of precedence: of two languages with the same score the
/// one that stands earlier here wins.
pub const PRECEDENCE: [Language; 8] = [
    Language::En,
    Language::De,
    Language::Fr,
    Language::It,
    Language::Pt,
    Language::Hi,
    Language::Es,
    Language::Th,
];

impl Language {
    /// The place of the language in [`PRECEDENCE`], counted from 0.
    pub open spec fn spec_rank(self) -> int {
        match self {
            Language::En => 0,
            Language::De => 1,
            Language::Fr => 2,
            Language::It => 3,
            Language::Pt => 4,
            Language::Hi => 5,
            Language::Es => 6,
            Language::Th => 7,
        }
    }

    /// The place of the language in [`PRECEDENCE`], counted from 0.
    pub fn rank(self) -> (rank: usize)
        ensures
            rank == self.spec_rank(),
            rank < LANGUAGES,
            PRECEDENCE@[rank as int] == self,
    {
        match self {
            Language::En => 0,
            Language::De => 1,
            Language::Fr => 2,
            Language::It => 3,
            Language::Pt => 4,
            Language::Hi => 5,
            Language::Es => 6,
            Language::Th => 7,
        }
    }

    /// The two-letter code of the language.
    pub open spec fn spec_code(self) -> Seq<char> {
        match self {
            Language::En => "en"@,
            Language::De => "de"@,
            Language::Fr => "fr"@,
            Language::It => "it"@,
            Language::Pt => "pt"@,
            Language::Hi => "hi"@,
            Language::Es => "es"@,
            Language::Th => "th"@,
        }
    }

    /// The two-letter code of the language.
    pub fn code(self) -> (code: &'static str)
        ensures
            code@ == self.spec_code(),
    {
        match self {
            Language::En => "en",
            Language::De => "de",
            Language::Fr => "fr",
            Language::It => "it",
            Language::Pt => "pt",
            Language::Hi => "hi",
            Language::Es => "es",
            Language::Th => "th",
        }
    }

    /// Whether the script of the language tells upper case from lower case.
    /// Devanagari and Thai do not.
    pub open spec fn spec_has_case(self) -> bool {
        match self {
            Language::Hi | Language::Th => false,
            _ => true,
        }
    }

    /// Whether the script of the language tells upper case from lower case.
    #[verifier::when_used_as_spec(spec_has_case)]
    pub fn has_case(self) -> (cased: bool)
        ensures
            cased == self.spec_has_case(),
    {
        match self {
            Language::Hi | Language::Th => false,
            _ => true,
        }
    }

    /// The language that `code` is the code of, if it is one of the eight codes.
    /// Codes are compared as they are: `EN` is no code.
    pub open spec fn spec_from_code(code: Seq<char>) -> Option<Language> {
        if code == "en"@ {
            Some(Language::En)
        } else if code == "de"@ {
            Some(Language::De)
        } else if code == "fr"@ {
            Some(Language::Fr)
        } else if code == "it"@ {
            Some(Language::It)
        } else if code == "pt"@ {
            Some(Language::Pt)
        } else if code == "hi"@ {
            Some(Language::Hi)
        } else if code == "es"@ {
            Some(Language::Es)
        } else if code == "th"@ {
            Some(Language::Th)
        } else {
            None
        }
    }

    /// The language that `code` is the code of, if it is one of the eight codes.
    pub fn from_code(code: &str) -> (language: Option<Language>)
        ensures
            language == Language::spec_from_code(code@),
    {
        let chars = to_chars(code);
        let chars = chars.as_slice();
        if spells(chars, "en") {
            Some(Language::En)
        } else if spells(chars, "de") {
            Some(Language::De)
        } else if spells(chars, "fr") {
            Some(Language::Fr)
        } else if spells(chars, "it") {
            Some(Language::It)
        } else if spells(chars, "pt") {
            Some(Language::Pt)
        } else if spells(chars, "hi") {
            Some(Language::Hi)
        } else if spells(chars, "es") {
            Some(Language::Es)
        } else if spells(chars, "th") {
            Some(Language::Th)
        } else {
            None
        }
    }
}

/// Whether `code` is one of the eight language codes.
pub open spec fn is_language_code(code: Seq<char>) -> bool {
    code == "en"@ || code == "de"@ || code == "fr"@ || code == "it"@ || code == "pt"@ || code
        == "hi"@ || code == "es"@ || code == "th"@
}

/// Every language has one of the eight codes, and the code names the language
/// again: no two languages share a code.
pub proof fn lemma_code_names_language(language: Language)
    ensures
        is_language_code(language.spec_code()),
        Language::spec_from_code(language.spec_code()) == Some(language),
{
    reveal_strlit("en");
    reveal_strlit("de");
    reveal_strlit("fr");
    reveal_strlit("it");
    reveal_strlit("pt");
    reveal_strlit("hi");
    reveal_strlit("es");
    reveal_strlit("th");
    assert("en"@[0] == 'e' && "en"@[1] == 'n');
    assert("de"@[0] == 'd' && "fr"@[0] == 'f' && "it"@[0] == 'i');
    assert("pt"@[0] == 'p' && "hi"@[0] == 'h' && "th"@[0] == 't');
}

/// The order of precedence holds each language once, at the place of its rank.
pub proof fn lemma_precedence_holds_each(language: Language, n: int)
    requires
        0 <= n < LANGUAGES,
    ensures
        0 <= language.spec_rank() < LANGUAGES,
        PRECEDENCE@.len() == LANGUAGES,
        PRECEDENCE@[language.spec_rank()] == language,
        PRECEDENCE@[n].spec_rank() == n,
        language.spec_rank() == n <==> language == PRECEDENCE@[n],
{
}

} // verus!
