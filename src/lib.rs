//! Lexicon-based sentiment analysis of English, Chinese and mixed text,
//! with a few text utilities beside it.
//!
//! Scores are fixed-point integers: lexicon polarities and intensifier
//! multipliers are in tenths, per-token and overall scores in millionths.
pub mod sentiment;
pub mod text_tools;

pub use sentiment::analyzer::SentimentAnalyzer;
pub use sentiment::dictionary::SentimentDictionary;
pub use sentiment::rules::RuleProcessor;
pub use sentiment::tokenizer::{Language, MultiLanguageTokenizer, TokenizedText};
pub use sentiment::SentimentResult;
