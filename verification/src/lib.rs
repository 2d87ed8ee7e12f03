//! Heuristic language identification, text statistics and language-aware
//! normalisation for short texts in eight languages.
//!
//! The three entry points are [`detect_language`], [`get_text_stats`] and
//! [`normalize_text`]. Each is a function of its arguments alone; its contract
//! names the mathematical function that it computes.
//!
//! The modules build on one another: `unicode` names what the character tables of
//! the standard library decide; `text` splits, trims and counts by classes of
//! characters; `language`, `lexicon` and `score` hold the languages, what speaks
//! for each, and the table that adds it up; `detect`, `stats` and `normalize`
//! hold the entry points.
pub mod unicode;

pub mod text;

pub mod language;

pub mod lexicon;

pub mod score;

pub mod detect;

pub mod stats;

pub mod normalize;

pub use detect::detect_language;
pub use language::Language;
pub use normalize::normalize_text;
pub use score::ScoreTable;
pub use stats::{get_text_stats, Ratio, TextStats};
