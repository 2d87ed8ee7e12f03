//! What speaks for each language: its common words, the letters and scripts that
//! mark it, and how much each kind of evidence counts.
use vstd::prelude::*;

use crate::language::Language;
use crate::text::spells;

verus! {

/// Common English words.
pub const ENGLISH_WORDS: [&'static str; 20] = [
    "the", "be", "to", "of", "and",
    "a", "in", "that", "have", "i",
    "it", "for", "not", "on", "with",
    "he", "as", "you", "do", "at",
];

/// Common German words.
pub const GERMAN_WORDS: [&'static str; 20] = [
    "der", "die", "und", "in", "den",
    "von", "zu", "das", "mit", "sich",
    "des", "auf", "für", "ist", "im",
    "dem", "nicht", "ein", "eine", "als",
];

/// Common French words.
pub const FRENCH_WORDS: [&'static str; 20] = [
    "le", "de", "et", "à", "un",
    "il", "être", "et", "en", "avoir",
    "que", "pour", "dans", "ce", "son",
    "une", "sur", "avec", "ne", "se",
];

/// Common Italian words.
pub const ITALIAN_WORDS: [&'static str; 20] = [
    "il", "di", "e", "la", "a",
    "un", "per", "è", "in", "una",
    "sono", "che", "si", "con", "non",
    "le", "da", "al", "i", "come",
];

/// Common Portuguese words.
pub const PORTUGUESE_WORDS: [&'static str; 20] = [
    "o", "de", "e", "do", "da",
    "em", "um", "para", "é", "com",
    "não", "uma", "os", "no", "se",
    "na", "por", "mais", "as", "como",
];

/// Common Hindi words.
pub const HINDI_WORDS: [&'static str; 20] = [
    "है", "और", "के", "में", "को",
    "से", "का", "की", "यह", "वह",
    "हो", "नहीं", "तो", "भी", "या",
    "पर", "इस", "उस", "जो", "कि",
];

/// Common Spanish words.
pub const SPANISH_WORDS: [&'static str; 20] = [
    "el", "la", "de", "que", "y",
    "a", "en", "un", "ser", "se",
    "no", "haber", "por", "con", "su",
    "para", "como", "estar", "tener", "le",
];

/// Common Thai words.
pub const THAI_WORDS: [&'static str; 20] = [
    "ที่", "เป็น", "และ", "ใน", "ของ",
    "จะ", "ได้", "ไม่", "มี", "ก็",
    "แล้ว", "กับ", "ให้", "ไป", "มา",
    "นี้", "นั้น", "เขา", "เธอ", "เรา",
];

/// German letters: the umlauts and the sharp s.
pub const GERMAN_LETTERS: [char; 4] = ['ä', 'ö', 'ü', 'ß'];

/// Accented letters of French.
pub const FRENCH_LETTERS: [char; 14] = [
    'à', 'â', 'é', 'è', 'ê', 'ë', 'î', 'ï', 'ô', 'ù', 'û', 'ü', 'ÿ', 'ç',
];

/// Accented letters of Italian.
pub const ITALIAN_LETTERS: [char; 6] = ['à', 'è', 'é', 'ì', 'ò', 'ù'];

/// Accented letters of Portuguese.
pub const PORTUGUESE_LETTERS: [char; 13] = [
    'á', 'à', 'â', 'ã', 'é', 'ê', 'í', 'ó', 'ô', 'õ', 'ú', 'ü', 'ç',
];

/// Accented letters of Spanish.
pub const SPANISH_LETTERS: [char; 7] = ['á', 'é', 'í', 'ó', 'ú', 'ñ', 'ü'];

/// How many common words each language has.
pub const WORDS_PER_LANGUAGE: usize = 20;

/// The first code point of the Devanagari block.
pub const DEVANAGARI_FIRST: char = '\u{0900}';

/// The last code point of the Devanagari block.
pub const DEVANAGARI_LAST: char = '\u{097F}';

/// The first code point of the Thai block.
pub const THAI_FIRST: char = '\u{0E00}';

/// The last code point of the Thai block.
pub const THAI_LAST: char = '\u{0E7F}';

/// Whether `c` is one of `letters`.
pub fn is_among(c: char, letters: &[char]) -> (found: bool)
    ensures
        found == letters@.contains(c),
{
    let mut i: usize = 0;
    while i < letters.len()
        invariant
            i <= letters@.len(),
            forall|j: int| 0 <= j < i ==> letters@[j] != c,
        decreases letters.len() - i,
    {
        if letters[i] == c {
            return true;
        }
        i = i + 1;
    }
    false
}

impl Language {
    /// The common words of the language, in lower case.
    pub open spec fn common_words(self) -> Seq<&'static str> {
        match self {
            Language::En => ENGLISH_WORDS@,
            Language::De => GERMAN_WORDS@,
            Language::Fr => FRENCH_WORDS@,
            Language::It => ITALIAN_WORDS@,
            Language::Pt => PORTUGUESE_WORDS@,
            Language::Hi => HINDI_WORDS@,
            Language::Es => SPANISH_WORDS@,
            Language::Th => THAI_WORDS@,
        }
    }

    /// The common words of the language, in lower case.
    pub fn word_list(self) -> (list: [&'static str; 20])
        ensures
            list@ == self.common_words(),
    {
        match self {
            Language::En => ENGLISH_WORDS,
            Language::De => GERMAN_WORDS,
            Language::Fr => FRENCH_WORDS,
            Language::It => ITALIAN_WORDS,
            Language::Pt => PORTUGUESE_WORDS,
            Language::Hi => HINDI_WORDS,
            Language::Es => SPANISH_WORDS,
            Language::Th => THAI_WORDS,
        }
    }

    /// Whether `word` is, letter for letter, one of the common words of the language.
    pub open spec fn spec_knows(self, word: Seq<char>) -> bool {
        exists|i: int|
            0 <= i < self.common_words().len() && (#[trigger] self.common_words()[i])@ == word
    }

    /// Whether `word` is, letter for letter, one of the common words of the language.
    pub fn knows(self, word: &[char]) -> (known: bool)
        ensures
            known == self.spec_knows(word@),
    {
        let list = self.word_list();
        let mut i: usize = 0;
        while i < WORDS_PER_LANGUAGE
            invariant
                i <= WORDS_PER_LANGUAGE,
                list@ == self.common_words(),
                list@.len() == WORDS_PER_LANGUAGE,
                forall|j: int| 0 <= j < i ==> (#[trigger] self.common_words()[j])@ != word@,
            decreases WORDS_PER_LANGUAGE - i,
        {
            if spells(word, list[i]) {
                return true;
            }
            i = i + 1;
        }
        false
    }

    /// How much one common word counts for the language. Words in a script of their
    /// own are rarely met by chance and count more.
    pub open spec fn spec_word_weight(self) -> nat {
        match self {
            Language::Hi | Language::Th => 3,
            _ => 2,
        }
    }

    /// How much one common word counts for the language.
    pub fn word_weight(self) -> (weight: u32)
        ensures
            weight == self.spec_word_weight(),
    {
        match self {
            Language::Hi | Language::Th => 3,
            _ => 2,
        }
    }

    /// Whether `c` marks the language: a character of its script, or one of its
    /// accented letters. A letter may mark several languages; no character marks
    /// English.
    pub open spec fn spec_marks(self, c: char) -> bool {
        match self {
            Language::En => false,
            Language::De => GERMAN_LETTERS@.contains(c),
            Language::Fr => FRENCH_LETTERS@.contains(c),
            Language::It => ITALIAN_LETTERS@.contains(c),
            Language::Pt => PORTUGUESE_LETTERS@.contains(c),
            Language::Hi => DEVANAGARI_FIRST <= c <= DEVANAGARI_LAST,
            Language::Es => SPANISH_LETTERS@.contains(c),
            Language::Th => THAI_FIRST <= c <= THAI_LAST,
        }
    }

    /// Whether `c` marks the language.
    pub fn marks(self, c: char) -> (marked: bool)
        ensures
            marked == self.spec_marks(c),
    {
        match self {
            Language::En => false,
            Language::De => is_among(c, GERMAN_LETTERS.as_slice()),
            Language::Fr => is_among(c, FRENCH_LETTERS.as_slice()),
            Language::It => is_among(c, ITALIAN_LETTERS.as_slice()),
            Language::Pt => is_among(c, PORTUGUESE_LETTERS.as_slice()),
            Language::Hi => DEVANAGARI_FIRST <= c && c <= DEVANAGARI_LAST,
            Language::Es => is_among(c, SPANISH_LETTERS.as_slice()),
            Language::Th => THAI_FIRST <= c && c <= THAI_LAST,
        }
    }

    /// How much the presence of a marking character counts for the language, however
    /// often such characters occur.
    pub open spec fn spec_mark_bonus(self) -> nat {
        match self {
            Language::En => 0,
            Language::De => 5,
            Language::Hi | Language::Th => 10,
            _ => 3,
        }
    }

    /// How much the presence of a marking character counts for the language.
    pub fn mark_bonus(self) -> (bonus: u32)
        ensures
            bonus == self.spec_mark_bonus(),
    {
        match self {
            Language::En => 0,
            Language::De => 5,
            Language::Hi | Language::Th => 10,
            _ => 3,
        }
    }
}

} // verus!
