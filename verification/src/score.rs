//! The score table of one detection, and the rule that names its winner.
use vstd::prelude::*;

use crate::language::{Language, LANGUAGES, PRECEDENCE};

verus! {

/// The points that the languages have gathered in one detection.
///
/// The table is a map from languages to points. A language enters it with its first
/// points, so every language in the table has at least one point.
#[derive(Clone, Copy, Debug)]
pub struct ScoreTable {
    points: [u32; 8],
}

impl View for ScoreTable {
    type V = Map<Language, nat>;

    closed spec fn view(&self) -> Map<Language, nat> {
        Map::new(
            |language: Language| self.points@[language.spec_rank()] > 0,
            |language: Language| self.points@[language.spec_rank()] as nat,
        )
    }
}

/// The points of `language` in `table`: none where the table does not hold it.
pub open spec fn score_in(table: Map<Language, nat>, language: Language) -> nat {
    if table.dom().contains(language) {
        table[language]
    } else {
        0
    }
}

/// The winner among the first `n` languages in order of precedence: the one with
/// the most points, and of several with the most points the earliest.
pub open spec fn leader_among(table: Map<Language, nat>, n: int) -> Language
    decreases n,
{
    if n <= 1 {
        PRECEDENCE@[0]
    } else {
        let held = leader_among(table, n - 1);
        let next = PRECEDENCE@[n - 1];
        if score_in(table, next) > score_in(table, held) {
            next
        } else {
            held
        }
    }
}

/// The winner of `table`: the language with the most points, and of several with the
/// most points the earliest in order of precedence. In an empty table that is
/// English.
pub open spec fn leader(table: Map<Language, nat>) -> Language {
    leader_among(table, LANGUAGES as int)
}

/// Whether `language` has the most points in `table` and precedes every other
/// language that has as many.
pub open spec fn is_first_maximum(table: Map<Language, nat>, language: Language) -> bool {
    forall|other: Language|
        {
            &&& #[trigger] score_in(table, other) <= score_in(table, language)
            &&& score_in(table, other) == score_in(table, language) ==> language.spec_rank()
                <= other.spec_rank()
        }
}

/// Among the first `n` languages the winner has the most points and precedes every
/// other that has as many.
proof fn lemma_leader_among_is_first_maximum(table: Map<Language, nat>, n: int)
    requires
        1 <= n <= LANGUAGES,
    ensures
        leader_among(table, n).spec_rank() < n,
        forall|other: Language|
            other.spec_rank() < n ==> {
                &&& #[trigger] score_in(table, other) <= score_in(table, leader_among(table, n))
                &&& score_in(table, other) == score_in(table, leader_among(table, n))
                    ==> leader_among(table, n).spec_rank() <= other.spec_rank()
            },
    decreases n,
{
    if n > 1 {
        lemma_leader_among_is_first_maximum(table, n - 1);
    }
}

/// The winner of a table has the most points and precedes every other language that
/// has as many, and it is the only language of which that holds.
pub proof fn lemma_leader_is_first_maximum(table: Map<Language, nat>)
    ensures
        is_first_maximum(table, leader(table)),
        forall|language: Language| #[trigger]
            is_first_maximum(table, language) ==> language == leader(table),
{
    lemma_leader_among_is_first_maximum(table, LANGUAGES as int);
}

impl ScoreTable {
    /// Every language that the table holds has at least one point.
    pub proof fn lemma_held_means_scored(self)
        ensures
            forall|language: Language| #[trigger]
                self@.dom().contains(language) ==> self@[language] >= 1,
    {
    }

    /// The empty table.
    pub fn new() -> (table: ScoreTable)
        ensures
            table@ == Map::<Language, nat>::empty(),
    {
        ScoreTable { points: [0, 0, 0, 0, 0, 0, 0, 0] }
    }

    /// The points of `language`: 0 where the table does not hold it.
    pub fn score(&self, language: Language) -> (points: u32)
        ensures
            points == score_in(self@, language),
    {
        self.points[language.rank()]
    }

    /// Gives `language` `points` more points.
    pub fn add(&mut self, language: Language, points: u32)
        requires
            points >= 1,
            score_in(old(self)@, language) + points <= u32::MAX,
        ensures
            final(self)@ == old(self)@.insert(
                language,
                score_in(old(self)@, language) + points as nat,
            ),
    {
        let rank = language.rank();
        self.points[rank] = self.points[rank] + points;
    }

    /// The winner: the language with the most points, and of several with the most
    /// points the earliest in order of precedence.
    pub fn best(&self) -> (winner: Language)
        ensures
            winner == leader(self@),
    {
        let mut winner = PRECEDENCE[0];
        let mut n: usize = 1;
        while n < LANGUAGES
            invariant
                1 <= n <= LANGUAGES,
                winner == leader_among(self@, n as int),
            decreases LANGUAGES - n,
        {
            let next = PRECEDENCE[n];
            if self.score(next) > self.score(winner) {
                winner = next;
            }
            n = n + 1;
        }
        winner
    }
}

} // verus!
