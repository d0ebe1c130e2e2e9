use text_processor_rust::{
    Language, MultiLanguageTokenizer, RuleProcessor, SentimentAnalyzer, SentimentDictionary,
};

fn words(ws: &[&str]) -> Vec<String> {
    ws.iter().map(|w| w.to_string()).collect()
}

#[test]
fn english_example_is_positive() {
    let r = SentimentAnalyzer::new().analyze("I love this, it is great!");
    assert_eq!(r.language, "en");
    assert_eq!(r.label, "positive");
    assert_eq!(r.word_count, 5);
    assert_eq!(r.positive_words, vec!["love".to_string(), "great".to_string()]);
    assert!(r.negative_words.is_empty());
    assert_eq!(r.score, 300_000);
    assert_eq!(r.confidence, 300_000);
}

#[test]
fn chinese_example_is_negative() {
    let r = SentimentAnalyzer::new().analyze("我不喜欢这个，很糟糕");
    assert_eq!(r.language, "zh");
    assert_eq!(r.label, "negative");
    assert!(r.score < 0);
    assert_eq!(r.confidence, -r.score);
}

#[test]
fn empty_text_is_neutral() {
    let r = SentimentAnalyzer::new().analyze("");
    assert_eq!(r.word_count, 0);
    assert_eq!(r.label, "neutral");
    assert_eq!(r.score, 0);
    assert_eq!(r.confidence, 0);
    assert!(r.positive_words.is_empty());
    assert!(r.negative_words.is_empty());
}

#[test]
fn whitespace_text_is_neutral() {
    let r = SentimentAnalyzer::new().analyze("   \n\t  ");
    assert_eq!(r.word_count, 0);
    assert_eq!(r.label, "neutral");
    assert_eq!(r.score, 0);
    assert_eq!(r.confidence, 0);
    assert!(r.positive_words.is_empty());
    assert!(r.negative_words.is_empty());
}

#[test]
fn english_negative_text() {
    let r = SentimentAnalyzer::new().analyze("this is terrible");
    assert_eq!(r.language, "en");
    assert_eq!(r.label, "negative");
    assert_eq!(r.score, -333_333);
    assert_eq!(r.confidence, 333_333);
    assert_eq!(r.negative_words, vec!["terrible".to_string()]);
}

#[test]
fn repeated_analysis_is_identical() {
    let a = SentimentAnalyzer::new();
    let text = "我很喜欢 this movie, it is not bad 但是有点无聊";
    let r1 = a.analyze(text);
    let r2 = a.analyze(text);
    assert_eq!(r1.score, r2.score);
    assert_eq!(r1.label, r2.label);
    assert_eq!(r1.confidence, r2.confidence);
    assert_eq!(r1.word_count, r2.word_count);
    assert_eq!(r1.positive_words, r2.positive_words);
    assert_eq!(r1.negative_words, r2.negative_words);
    assert_eq!(r1.language, r2.language);
}

#[test]
fn word_lists_keep_token_order() {
    let ws = words(&["bad", "good", "xx", "hate", "great", "good"]);
    let scores = vec![-500_000, 500_000, 0, -800_000, 800_000, 500_000];
    let r = SentimentAnalyzer::summarize(&ws, &scores, Language::English);
    assert_eq!(r.positive_words, words(&["good", "great", "good"]));
    assert_eq!(r.negative_words, words(&["bad", "hate"]));
}

#[test]
fn double_negation_cancels() {
    let p = RuleProcessor::new();
    let ws = words(&["not", "never", "good"]);
    assert_eq!(p.process_context(&ws, 2, &Language::English), 500_000);
    let single = words(&["not", "good"]);
    assert_eq!(p.process_context(&single, 1, &Language::English), -400_000);
}

#[test]
fn idiom_bu_cuo_is_positive() {
    let p = RuleProcessor::new();
    let ws = words(&["不", "错"]);
    assert_eq!(p.process_context(&ws, 1, &Language::Chinese), 400_000);
    assert_eq!(p.process_context(&ws, 1, &Language::Mixed), 400_000);
}

#[test]
fn idioms_ignore_other_negators() {
    let p = RuleProcessor::new();
    let ws = words(&["不", "不", "错"]);
    assert_eq!(p.process_context(&ws, 2, &Language::Chinese), 400_000);
    let ws = words(&["没有", "不", "好"]);
    assert_eq!(p.process_context(&ws, 2, &Language::Chinese), -500_000);
    let ws = words(&["很", "不", "错"]);
    assert_eq!(p.process_context(&ws, 2, &Language::Chinese), 520_000);
}

#[test]
fn idiom_bu_hao_is_negative() {
    let p = RuleProcessor::new();
    let ws = words(&["不", "好"]);
    assert_eq!(p.process_context(&ws, 1, &Language::Chinese), -500_000);
    let ws = words(&["没", "用"]);
    assert_eq!(p.process_context(&ws, 1, &Language::Chinese), -600_000);
}

#[test]
fn chinese_negation_damps() {
    let p = RuleProcessor::new();
    let ws = words(&["不", "喜欢"]);
    assert_eq!(p.process_context(&ws, 1, &Language::Chinese), -540_000);
}

#[test]
fn hen_raises_known_words_twice() {
    let p = RuleProcessor::new();
    let ws = words(&["很", "好"]);
    assert_eq!(p.process_context(&ws, 1, &Language::Chinese), 845_000);
    assert_eq!(p.process_context(&ws, 1, &Language::English), 650_000);
}

#[test]
fn intensifiers_compound() {
    let p = RuleProcessor::new();
    let ws = words(&["very", "really", "good"]);
    assert_eq!(p.process_context(&ws, 2, &Language::English), 975_000);
    let ws = words(&["very", "xx", "yy", "zz", "good"]);
    assert_eq!(p.process_context(&ws, 4, &Language::English), 500_000);
}

#[test]
fn language_scaling() {
    let ws = words(&["aa", "bb"]);
    let scores = vec![100_000, 100_000];
    let zh = SentimentAnalyzer::summarize(&ws, &scores, Language::Chinese);
    let en = SentimentAnalyzer::summarize(&ws, &scores, Language::English);
    let mixed = SentimentAnalyzer::summarize(&ws, &scores, Language::Mixed);
    assert_eq!(zh.score, 120_000);
    assert_eq!(en.score, 100_000);
    assert_eq!(mixed.score, 110_000);
    assert_eq!(zh.label, "positive");
    assert_eq!(en.label, "neutral");
    assert_eq!(mixed.label, "positive");
    assert_eq!(zh.language, "zh");
    assert_eq!(en.language, "en");
    assert_eq!(mixed.language, "mixed");
}

#[test]
fn score_is_clamped() {
    let ws = words(&["aa"]);
    let scores = vec![10_000_000];
    let r = SentimentAnalyzer::summarize(&ws, &scores, Language::Chinese);
    assert_eq!(r.score, 1_000_000);
    let r = SentimentAnalyzer::summarize(&ws, &vec![-10_000_000], Language::English);
    assert_eq!(r.score, -1_000_000);
    assert_eq!(r.confidence, 1_000_000);
    assert_eq!(r.label, "negative");
}

#[test]
fn lexicon_lookups() {
    let d = SentimentDictionary::new();
    assert_eq!(d.get_word_sentiment("GOOD"), Some(5));
    assert_eq!(d.get_word_sentiment("terrible"), Some(-10));
    assert_eq!(d.get_word_sentiment("糟糕"), Some(-8));
    assert_eq!(d.get_word_sentiment("table"), None);
    assert_eq!(d.get_intensifier("Very"), Some(15));
    assert_eq!(d.get_intensifier("非常"), Some(16));
    assert_eq!(d.get_intensifier("good"), None);
    assert!(d.is_negator("NOT"));
    assert!(d.is_negator("不"));
    assert!(!d.is_negator("good"));
    assert_eq!(d.get_word_sentiment_folded("Good", "good"), Some(5));
    assert_eq!(d.get_intensifier_folded("x", "very"), Some(15));
    assert!(d.is_negator_folded("x", "never"));
}

#[test]
fn detects_languages() {
    let t = MultiLanguageTokenizer::new();
    assert_eq!(t.detect_language("hello world"), Language::English);
    assert_eq!(t.detect_language("你好世界"), Language::Chinese);
    assert_eq!(t.detect_language("hello 你好"), Language::Mixed);
    assert_eq!(t.detect_language(""), Language::Mixed);
}

#[test]
fn english_tokens_are_lowercased_and_filtered() {
    let t = MultiLanguageTokenizer::new();
    let r = t.tokenize("I am OK, Really");
    assert_eq!(r.language, Language::English);
    assert_eq!(r.words, words(&["am", "ok", "really"]));
}

#[test]
fn single_non_ideograph_tokens_are_dropped() {
    let t = MultiLanguageTokenizer::new();
    let r = t.tokenize("é ok x");
    assert_eq!(r.language, Language::English);
    assert_eq!(r.words, words(&["ok"]));
    let r = t.tokenize("我不喜欢这个，很糟糕");
    assert_eq!(r.language, Language::Chinese);
    assert!(!r.words.contains(&"，".to_string()));
    assert!(r.words.contains(&"不".to_string()));
    assert!(r.words.contains(&"很".to_string()));
}

#[test]
fn chinese_tokens_are_segmented_and_trimmed() {
    let t = MultiLanguageTokenizer::new();
    let r = t.tokenize("我喜欢  你好世界");
    assert_eq!(r.language, Language::Chinese);
    assert!(r.words.contains(&"喜欢".to_string()));
    assert!(r.words.iter().all(|w| w.trim() == w && !w.is_empty()));
}

#[test]
fn mixed_tokens_follow_chunks() {
    let t = MultiLanguageTokenizer::new();
    let r = t.tokenize("Hello 你好世界 World");
    assert_eq!(r.language, Language::Mixed);
    assert_eq!(r.words.first().map(|w| w.as_str()), Some("hello"));
    assert_eq!(r.words.last().map(|w| w.as_str()), Some("world"));
    assert!(r.words.len() >= 3);
}
