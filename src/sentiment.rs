pub mod analyzer;
pub mod dictionary;
pub mod rules;
pub mod text;
pub mod tokenizer;

use vstd::prelude::*;

verus! {

/// The verdict on one passage of text.
///
/// `score` and `confidence` are in millionths: `score` lies in
/// `[-1_000_000, 1_000_000]` and `confidence` is its absolute value.
#[derive(Debug, Clone)]
pub struct SentimentResult {
    pub score: i64,
    pub label: String,
    pub confidence: i64,
    pub word_count: usize,
    pub positive_words: Vec<String>,
    pub negative_words: Vec<String>,
    pub language: String,
}

} // verus!
