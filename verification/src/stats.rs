//! Counting the characters, words and sentences of a text.
use vstd::prelude::*;

use crate::text::{
    count_outside, lemma_filled_pieces_are_substantial, lemma_pieces_hold_what_is_outside,
    measure_pieces, outside, sentences, total_length, words, CharClass,
};
use crate::unicode::to_chars;

verus! {

/// A ratio of two counts, kept as the two counts.
#[derive(Clone, Copy, Debug, PartialEq, Eq, Structural)]
pub struct Ratio {
    /// What is divided.
    pub numerator: usize,
    /// What it is divided by; never 0.
    pub denominator: usize,
}

impl Ratio {
    /// A ratio is well formed when it does not divide by 0.
    pub open spec fn wf(self) -> bool {
        self.denominator > 0
    }

    /// Whether the ratio is `total / count`, or 0 (written `0 / 1`) where `count` is 0.
    pub open spec fn is_mean(self, total: nat, count: nat) -> bool {
        if count == 0 {
            self.numerator == 0 && self.denominator == 1
        } else {
            self.numerator == total && self.denominator == count
        }
    }

    /// The mean of `count` items that add up to `total`: 0 where there is no item.
    pub fn mean(total: usize, count: usize) -> (ratio: Ratio)
        ensures
            ratio.wf(),
            ratio.is_mean(total as nat, count as nat),
    {
        if count == 0 {
            Ratio { numerator: 0, denominator: 1 }
        } else {
            Ratio { numerator: total, denominator: count }
        }
    }
}

/// What there is to count in a text.
#[derive(Clone, Copy, Debug, PartialEq, Eq, Structural)]
pub struct TextStats {
    /// The number of words: runs of characters between white space.
    pub word_count: usize,
    /// The number of characters.
    pub character_count: usize,
    /// The number of characters that are not white space.
    pub character_count_no_spaces: usize,
    /// The number of sentences: pieces between `.`, `!` and `?` that are not blank.
    pub sentence_count: usize,
    /// The mean number of characters in a word; 0 where there is no word.
    pub average_word_length: Ratio,
}

impl TextStats {
    /// Whether these are the statistics of `text`.
    pub open spec fn describes(self, text: Seq<char>) -> bool {
        &&& self.word_count == words(text).len()
        &&& self.character_count == text.len()
        &&& self.character_count_no_spaces == outside(text, CharClass::Whitespace).len()
        &&& self.sentence_count == sentences(text).len()
        &&& self.average_word_length.wf()
        &&& self.average_word_length.is_mean(total_length(words(text)), words(text).len())
    }
}

/// The statistics of `text`. Where `text` has no word, the mean word length is 0.
pub fn get_text_stats(text: &str) -> (stats: TextStats)
    ensures
        stats.describes(text@),
        stats.word_count == 0 ==> stats.average_word_length.numerator == 0,
{
    let chars = to_chars(text);
    let chars = chars.as_slice();
    let (word_count, letters) = measure_pieces(chars, CharClass::Whitespace, CharClass::Whitespace);
    let (sentence_count, _) = measure_pieces(chars, CharClass::SentenceEnd, CharClass::Whitespace);
    proof {
        lemma_filled_pieces_are_substantial(chars@, CharClass::Whitespace);
    }
    TextStats {
        word_count,
        character_count: chars.len(),
        character_count_no_spaces: count_outside(chars, CharClass::Whitespace),
        sentence_count,
        average_word_length: Ratio::mean(letters, word_count),
    }
}

/// The mean word length is the number of characters that are not white space over
/// the number of words: the words hold every such character, and nothing else.
pub proof fn lemma_mean_is_visible_over_words(text: Seq<char>, stats: TextStats)
    requires
        stats.describes(text),
    ensures
        stats.average_word_length.is_mean(
            stats.character_count_no_spaces as nat,
            stats.word_count as nat,
        ),
{
    lemma_pieces_hold_what_is_outside(text, CharClass::Whitespace);
}

/// A text has one set of statistics: two records that both describe it are equal.
pub proof fn lemma_stats_are_settled(text: Seq<char>, first: TextStats, second: TextStats)
    requires
        first.describes(text),
        second.describes(text),
    ensures
        first == second,
{
}

} // verus!
