//! Naming the language of a text from its common words and its characters.
use vstd::prelude::*;
use vstd::string::*;

use crate::language::{
    is_language_code, lemma_precedence_holds_each, Language, LANGUAGES, PRECEDENCE,
};
use crate::score::{leader, lemma_leader_is_first_maximum, score_in, ScoreTable};
use crate::text::{
    holds_only, is_blank, leading, leading_pieces, lemma_filter_push, texts, trim, trimmed, words,
    CharClass,
};
use crate::unicode::{to_chars, unicode_lowercase};

verus! {

/// How many words of a text are looked at. Words after these never change the
/// result.
pub const WORD_LIMIT: usize = 50;

/// How many of `tokens` are common words of `language`. A word that occurs twice
/// counts twice.
pub open spec fn hits(language: Language, tokens: Seq<Seq<char>>) -> nat {
    tokens.filter(|token: Seq<char>| language.spec_knows(token)).len()
}

/// Whether some character of `text` marks `language`.
pub open spec fn has_mark(language: Language, text: Seq<char>) -> bool {
    exists|i: int| 0 <= i < text.len() && language.spec_marks(#[trigger] text[i])
}

/// What `word` is worth to `language`: its word weight if it is one of its common
/// words.
pub open spec fn word_credit(language: Language, word: Seq<char>) -> nat {
    if language.spec_knows(word) {
        language.spec_word_weight()
    } else {
        0
    }
}

/// What the characters of `text` are worth to `language`: its bonus if one of them
/// marks it.
pub open spec fn mark_credit(language: Language, text: Seq<char>) -> nat {
    if has_mark(language, text) {
        language.spec_mark_bonus()
    } else {
        0
    }
}

/// The points of `language`: its word weight for each of `tokens` that is one of its
/// common words, and its bonus once if `text` holds a character that marks it.
pub open spec fn score(language: Language, tokens: Seq<Seq<char>>, text: Seq<char>) -> nat {
    language.spec_word_weight() * hits(language, tokens) + mark_credit(language, text)
}

/// The score table of `tokens` and `text`: each language that has points, with its
/// points.
pub open spec fn scores(tokens: Seq<Seq<char>>, text: Seq<char>) -> Map<Language, nat> {
    Map::new(
        |language: Language| score(language, tokens, text) > 0,
        |language: Language| score(language, tokens, text),
    )
}

/// The language that the evidence speaks for, where `tokens` are the words of a text
/// in lower case, stripped of punctuation, and `text` is the text as it was written.
///
/// Without any word the answer is English. Otherwise the first [`WORD_LIMIT`] words
/// and all the characters are scored, and the winner of the table is the answer:
/// of several languages with the most points the earliest in order of precedence,
/// and English where no language has a point.
pub open spec fn spec_classify(tokens: Seq<Seq<char>>, text: Seq<char>) -> Language {
    if tokens.len() == 0 {
        Language::En
    } else {
        leader(scores(leading(tokens, WORD_LIMIT as nat), text))
    }
}

/// Each of `tokens` without the characters at its ends that are neither letters nor
/// numbers. A token of punctuation alone becomes empty and stays in its place.
pub open spec fn stripped(tokens: Seq<Seq<char>>) -> Seq<Seq<char>> {
    tokens.map_values(|token: Seq<char>| trim(token, CharClass::NonAlphanumeric))
}

/// The language of `text`, given its lower-case form `lowered`: English for a blank
/// text, and otherwise what the stripped words of `lowered` and the characters of
/// `text` speak for.
pub open spec fn detected_from(text: Seq<char>, lowered: Seq<char>) -> Language {
    if is_blank(text) {
        Language::En
    } else {
        spec_classify(stripped(words(lowered)), text)
    }
}

/// The language of `text`.
pub open spec fn detected_language(text: Seq<char>) -> Language {
    detected_from(text, unicode_lowercase(text))
}

/// One more token adds a hit where it is a common word, and none where it is not.
pub proof fn lemma_hits_push(language: Language, tokens: Seq<Seq<char>>, token: Seq<char>)
    ensures
        hits(language, tokens.push(token)) == hits(language, tokens) + if language.spec_knows(
            token,
        ) {
            1nat
        } else {
            0nat
        },
        hits(language, Seq::<Seq<char>>::empty()) == 0,
{
    lemma_filter_push(tokens, token, |token: Seq<char>| language.spec_knows(token));
}

/// Words after the first [`WORD_LIMIT`] never change the answer.
pub proof fn lemma_late_words_do_not_count(
    tokens: Seq<Seq<char>>,
    later: Seq<Seq<char>>,
    text: Seq<char>,
)
    requires
        tokens.len() >= WORD_LIMIT,
    ensures
        spec_classify(tokens + later, text) == spec_classify(tokens, text),
{
    assert(leading(tokens + later, WORD_LIMIT as nat) =~= leading(tokens, WORD_LIMIT as nat));
}

/// A text in Devanagari is detected as Hindi unless something speaks as loudly for
/// another language: where the text is not blank and has a word, holds a
/// Devanagari code point, and no other language reaches the ten points that the
/// script alone is worth, the answer is Hindi.
pub proof fn lemma_devanagari_means_hindi(text: Seq<char>, lowered: Seq<char>)
    requires
        !is_blank(text),
        words(lowered).len() > 0,
        has_mark(Language::Hi, text),
        forall|other: Language|
            other != Language::Hi ==> #[trigger] score(
                other,
                leading(stripped(words(lowered)), WORD_LIMIT as nat),
                text,
            ) < 10,
    ensures
        detected_from(text, lowered) == Language::Hi,
{
    let table = scores(leading(stripped(words(lowered)), WORD_LIMIT as nat), text);
    lemma_leader_is_first_maximum(table);
    assert(score_in(table, Language::Hi) >= 10);
}

/// A text has one detected language and one code: two codes that both answer to
/// the contract of [`detect_language`] for `text` are the same, and one of the
/// eight.
pub proof fn lemma_detection_is_settled(text: Seq<char>, first: Seq<char>, second: Seq<char>)
    requires
        first == detected_language(text).spec_code(),
        second == detected_language(text).spec_code(),
    ensures
        first == second,
        is_language_code(first),
{
}

/// Whether some character of `text` marks `language`.
pub fn holds_mark(language: Language, text: &[char]) -> (found: bool)
    ensures
        found == has_mark(language, text@),
{
    let mut i: usize = 0;
    while i < text.len()
        invariant
            i <= text@.len(),
            forall|j: int| 0 <= j < i ==> !language.spec_marks(#[trigger] text@[j]),
        decreases text.len() - i,
    {
        if language.marks(text[i]) {
            return true;
        }
        i = i + 1;
    }
    false
}

/// Gives each language what `word` is worth to it.
fn credit_word(table: &mut ScoreTable, word: &[char])
    requires
        forall|language: Language| #[trigger] score_in(old(table)@, language) + 3 <= u32::MAX,
    ensures
        forall|language: Language| #[trigger]
            score_in(final(table)@, language) == score_in(old(table)@, language) + word_credit(
                language,
                word@,
            ),
{
    let mut n: usize = 0;
    while n < LANGUAGES
        invariant
            n <= LANGUAGES,
            forall|language: Language| #[trigger] score_in(old(table)@, language) + 3 <= u32::MAX,
            forall|language: Language| #[trigger]
                score_in(table@, language) == score_in(old(table)@, language) + if n
                    > language.spec_rank() {
                    word_credit(language, word@)
                } else {
                    0
                },
        decreases LANGUAGES - n,
    {
        let language = PRECEDENCE[n];
        let ghost before = table@;
        if language.knows(word) {
            table.add(language, language.word_weight());
        }
        proof {
            assert forall|other: Language| #[trigger]
                score_in(table@, other) == score_in(old(table)@, other) + if other.spec_rank() < n
                    + 1 {
                    word_credit(other, word@)
                } else {
                    0
                } by {
                lemma_precedence_holds_each(other, n as int);
                if other != language {
                    assert(score_in(table@, other) == score_in(before, other));
                }
            }
        }
        n = n + 1;
    }
}

/// Gives each language what the characters of `text` are worth to it.
fn credit_marks(table: &mut ScoreTable, text: &[char])
    requires
        forall|language: Language| #[trigger] score_in(old(table)@, language) + 10 <= u32::MAX,
    ensures
        forall|language: Language| #[trigger]
            score_in(final(table)@, language) == score_in(old(table)@, language) + mark_credit(
                language,
                text@,
            ),
{
    let mut n: usize = 0;
    while n < LANGUAGES
        invariant
            n <= LANGUAGES,
            forall|language: Language| #[trigger] score_in(old(table)@, language) + 10 <= u32::MAX,
            forall|language: Language| #[trigger]
                score_in(table@, language) == score_in(old(table)@, language) + if n
                    > language.spec_rank() {
                    mark_credit(language, text@)
                } else {
                    0
                },
        decreases LANGUAGES - n,
    {
        let language = PRECEDENCE[n];
        let ghost before = table@;
        if holds_mark(language, text) {
            table.add(language, language.mark_bonus());
        }
        proof {
            assert forall|other: Language| #[trigger]
                score_in(table@, other) == score_in(old(table)@, other) + if other.spec_rank() < n
                    + 1 {
                    mark_credit(other, text@)
                } else {
                    0
                } by {
                lemma_precedence_holds_each(other, n as int);
                if other != language {
                    assert(score_in(table@, other) == score_in(before, other));
                }
            }
        }
        n = n + 1;
    }
}

/// The score table of the first [`WORD_LIMIT`] of `tokens` and of `text`.
pub fn tally(tokens: &[&[char]], text: &[char]) -> (table: ScoreTable)
    ensures
        table@ == scores(leading(texts(tokens@), WORD_LIMIT as nat), text@),
{
    let ghost all = texts(tokens@);
    let considered = if tokens.len() < WORD_LIMIT {
        tokens.len()
    } else {
        WORD_LIMIT
    };
    let mut table = ScoreTable::new();
    let mut k: usize = 0;
    while k < considered
        invariant
            k <= considered <= tokens@.len(),
            considered <= WORD_LIMIT,
            all == texts(tokens@),
            forall|language: Language| #[trigger]
                score_in(table@, language) == language.spec_word_weight() * hits(
                    language,
                    all.take(k as int),
                ),
            forall|language: Language| #[trigger] score_in(table@, language) <= 3 * k,
        decreases considered - k,
    {
        let ghost before = table@;
        credit_word(&mut table, tokens[k]);
        proof {
            assert(all.take(k + 1) =~= all.take(k as int).push(tokens@[k as int]@));
            assert forall|language: Language|
                {
                    &&& #[trigger] score_in(table@, language) == language.spec_word_weight() * hits(
                        language,
                        all.take(k + 1),
                    )
                    &&& score_in(table@, language) <= 3 * (k + 1)
                } by {
                lemma_hits_push(language, all.take(k as int), tokens@[k as int]@);
                let weight = language.spec_word_weight() as int;
                let known = hits(language, all.take(k as int)) as int;
                assert(weight * (known + 1) == weight * known + weight) by (nonlinear_arith);
                assert(score_in(before, language) <= 3 * k);
            }
        }
        k = k + 1;
    }
    credit_marks(&mut table, text);
    proof {
        let first = leading(all, WORD_LIMIT as nat);
        assert(all.take(considered as int) =~= first);
        table.lemma_held_means_scored();
        assert forall|language: Language|
            score_in(table@, language) == #[trigger] score(language, first, text@) by {}
    }
    table
}

/// The language that the evidence speaks for, where `tokens` are the words of a text
/// in lower case, stripped of punctuation, and `text` is the text as it was written.
pub fn classify(tokens: &[&[char]], text: &[char]) -> (language: Language)
    ensures
        language == spec_classify(texts(tokens@), text@),
{
    if tokens.len() == 0 {
        Language::En
    } else {
        tally(tokens, text).best()
    }
}

/// Each of `tokens` without the characters at its ends that are neither letters nor
/// numbers.
pub fn strip_punctuation<'a>(tokens: &[&'a [char]]) -> (bare: Vec<&'a [char]>)
    ensures
        texts(bare@) == stripped(texts(tokens@)),
{
    let mut bare: Vec<&'a [char]> = Vec::new();
    let mut k: usize = 0;
    while k < tokens.len()
        invariant
            k <= tokens@.len(),
            bare@.len() == k,
            forall|j: int|
                0 <= j < k ==> (#[trigger] bare@[j])@ == trim(
                    tokens@[j]@,
                    CharClass::NonAlphanumeric,
                ),
        decreases tokens.len() - k,
    {
        bare.push(trimmed(tokens[k], CharClass::NonAlphanumeric));
        k = k + 1;
    }
    bare
}

/// The language of `text`, given its lower-case form `lowered`.
pub fn detect_from_lowercase(text: &[char], lowered: &[char]) -> (language: Language)
    ensures
        language == detected_from(text@, lowered@),
{
    if holds_only(text, CharClass::Whitespace) {
        return Language::En;
    }
    let first_words = leading_pieces(lowered, CharClass::Whitespace, WORD_LIMIT);
    let tokens = strip_punctuation(first_words.as_slice());
    proof {
        let all = stripped(words(lowered@));
        let first = stripped(leading(words(lowered@), WORD_LIMIT as nat));
        assert(leading(first, WORD_LIMIT as nat) =~= leading(all, WORD_LIMIT as nat));
    }
    classify(tokens.as_slice(), text)
}

/// The code of the language that `text` is most likely written in: `en`, `de`, `fr`,
/// `it`, `pt`, `hi`, `es` or `th`.
pub fn detect_language(text: &str) -> (code: String)
    ensures
        code@ == detected_language(text@).spec_code(),
        is_language_code(code@),
{
    let chars = to_chars(text);
    let language = if holds_only(chars.as_slice(), CharClass::Whitespace) {
        Language::En
    } else {
        let lowered = to_chars(text.to_lowercase().as_str());
        detect_from_lowercase(chars.as_slice(), lowered.as_slice())
    };
    String::from_str(language.code())
}

} // verus!
