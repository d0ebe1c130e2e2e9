//! The analyzer: tokenizes a text, scores every token in context, and
//! aggregates the scores into a verdict.
//!
//! The overall score is the mean token score scaled per language (1.2 for
//! Chinese, 1.0 for English, 1.1 for mixed text), clamped to one million
//! millionths either way and rounded toward zero. The label compares the
//! exact scaled mean against a per-language threshold.
use vstd::prelude::*;
use vstd::string::*;
use vstd::arithmetic::div_mod::{lemma_fundamental_div_mod, lemma_mod_pos_bound};
use crate::sentiment::rules::{token_score, RuleProcessor, MAX_TOKEN_SCORE};
use crate::sentiment::text::views;
use crate::sentiment::tokenizer::{detected_language, tokens_of, Language, MultiLanguageTokenizer, TokenizedText};
use crate::sentiment::SentimentResult;

verus! {

/// The bound of an overall score: 1.0 in millionths.
pub const SCORE_LIMIT: i64 = 1_000_000;

/// A token whose score is above this (0.1) is listed as positive, one whose
/// score is below its negation as negative.
pub const WORD_THRESHOLD: i64 = 100_000;

/// The score of every token of `ws`, in order.
pub open spec fn scores_of(ws: Seq<Seq<char>>, language: Language) -> Seq<int> {
    Seq::new(ws.len(), |i: int| token_score(ws, i, language))
}

/// Machine scores as integers.
pub open spec fn ints(sc: Seq<i64>) -> Seq<int> {
    sc.map_values(|v: i64| v as int)
}

pub open spec fn sum(sc: Seq<int>) -> int
    decreases sc.len(),
{
    if sc.len() == 0 {
        0
    } else {
        sum(sc.drop_last()) + sc.last()
    }
}

/// The scale factor of a language, in tenths.
pub open spec fn scale(language: Language) -> int {
    match language {
        Language::Chinese => 12,
        Language::English => 10,
        Language::Mixed => 11,
    }
}

/// The classification threshold of a language, in millionths.
pub open spec fn threshold(language: Language) -> int {
    match language {
        Language::Chinese => 80_000,
        Language::English => 100_000,
        Language::Mixed => 90_000,
    }
}

/// The sum of the token scores times the scale factor of the language.
pub open spec fn scaled_sum(total: int, language: Language) -> int {
    total * scale(language)
}

pub open spec fn clamp_limit(q: int) -> int {
    if q > SCORE_LIMIT {
        SCORE_LIMIT as int
    } else {
        q
    }
}

/// The overall score in millionths of `n` tokens whose scores add up to
/// `total`: `scaled_sum / (10 n)`, rounded toward zero and clamped; zero
/// when there are no tokens.
pub open spec fn normalized_score(total: int, n: int, language: Language) -> int {
    let num = scaled_sum(total, language);
    if n <= 0 {
        0
    } else if num >= 0 {
        clamp_limit(num / (10 * n))
    } else {
        -clamp_limit((-num) / (10 * n))
    }
}

/// The label for `n` tokens whose scores add up to `total`: positive when
/// the exact scaled mean exceeds the threshold, negative when it is below
/// its negation, else neutral.
pub open spec fn label_for(total: int, n: int, language: Language) -> Seq<char> {
    label_of_ratio(scaled_sum(total, language), 10 * n, language)
}

/// The label for the scaled mean `num / den`.
pub open spec fn label_of_ratio(num: int, den: int, language: Language) -> Seq<char> {
    let bar = threshold(language) * den;
    if num > bar {
        "positive"@
    } else if num < -bar {
        "negative"@
    } else {
        "neutral"@
    }
}

/// The tag of a language.
pub open spec fn language_tag(language: Language) -> Seq<char> {
    match language {
        Language::English => "en"@,
        Language::Chinese => "zh"@,
        Language::Mixed => "mixed"@,
    }
}

/// The tokens whose score is above `WORD_THRESHOLD`, in order.
pub open spec fn positives(ws: Seq<Seq<char>>, sc: Seq<int>) -> Seq<Seq<char>>
    decreases ws.len(),
{
    if ws.len() == 0 {
        Seq::empty()
    } else {
        let last = ws.len() - 1;
        positives(ws.drop_last(), sc) + if sc[last] > WORD_THRESHOLD {
            seq![ws[last]]
        } else {
            Seq::empty()
        }
    }
}

/// The tokens whose score is below `-WORD_THRESHOLD`, in order.
pub open spec fn negatives(ws: Seq<Seq<char>>, sc: Seq<int>) -> Seq<Seq<char>>
    decreases ws.len(),
{
    if ws.len() == 0 {
        Seq::empty()
    } else {
        let last = ws.len() - 1;
        negatives(ws.drop_last(), sc) + if sc[last] < -WORD_THRESHOLD {
            seq![ws[last]]
        } else {
            Seq::empty()
        }
    }
}

/// `r` is the verdict on the tokens `ws` of language `language` whose scores are `sc`.
pub open spec fn describes(r: SentimentResult, ws: Seq<Seq<char>>, sc: Seq<int>, language: Language) -> bool {
    &&& r.word_count == ws.len()
    &&& r.score == normalized_score(sum(sc), ws.len() as int, language)
    &&& r.confidence == if r.score >= 0 { r.score as int } else { -r.score }
    &&& r.label@ == label_for(sum(sc), ws.len() as int, language)
    &&& views(r.positive_words@) == positives(ws, sc)
    &&& views(r.negative_words@) == negatives(ws, sc)
    &&& r.language@ == language_tag(language)
}

/// The verdict on a text.
pub open spec fn analysis_of(r: SentimentResult, s: Seq<char>) -> bool {
    let language = detected_language(s);
    let ws = tokens_of(s, language);
    describes(r, ws, scores_of(ws, language), language)
}

/// For every text, the score lies in `[-1.0, 1.0]` and the confidence is
/// its absolute value.
pub proof fn lemma_score_in_range(r: SentimentResult, s: Seq<char>)
    requires
        analysis_of(r, s),
    ensures
        -SCORE_LIMIT <= r.score <= SCORE_LIMIT,
        r.confidence == if r.score >= 0 { r.score as int } else { -r.score },
{
}

/// Two verdicts on the same text agree in every field, however the token
/// scores were computed, as long as each is the score of its index.
pub proof fn lemma_deterministic(r1: SentimentResult, r2: SentimentResult, s: Seq<char>)
    requires
        analysis_of(r1, s),
        analysis_of(r2, s),
    ensures
        r1.score == r2.score,
        r1.confidence == r2.confidence,
        r1.label@ == r2.label@,
        r1.word_count == r2.word_count,
        views(r1.positive_words@) == views(r2.positive_words@),
        views(r1.negative_words@) == views(r2.negative_words@),
        r1.language@ == r2.language@,
{
}

/// `sel` lists the entries of `ws` at the strictly increasing indices `idx`.
pub open spec fn selected_in_order(sel: Seq<Seq<char>>, ws: Seq<Seq<char>>, idx: Seq<int>) -> bool {
    &&& idx.len() == sel.len()
    &&& forall|k: int| 0 <= k < idx.len() ==> 0 <= #[trigger] idx[k] < ws.len() && sel[k] == ws[idx[k]]
    &&& forall|k: int, l: int| 0 <= k < l < idx.len() ==> #[trigger] idx[k] < #[trigger] idx[l]
}

/// The positive and the negative words keep the order of the tokens: each
/// list picks tokens at strictly increasing indices, each with a score past
/// the word threshold.
pub proof fn lemma_word_lists_keep_order(ws: Seq<Seq<char>>, sc: Seq<int>)
    requires
        ws.len() <= sc.len(),
    ensures
        exists|idx: Seq<int>|
            selected_in_order(positives(ws, sc), ws, idx) && forall|k: int|
                0 <= k < idx.len() ==> sc[#[trigger] idx[k]] > WORD_THRESHOLD,
        exists|idx: Seq<int>|
            selected_in_order(negatives(ws, sc), ws, idx) && forall|k: int|
                0 <= k < idx.len() ==> sc[#[trigger] idx[k]] < -WORD_THRESHOLD,
    decreases ws.len(),
{
    if ws.len() > 0 {
        let pre = ws.drop_last();
        let last = ws.len() - 1;
        lemma_word_lists_keep_order(pre, sc);
        let pi = choose|idx: Seq<int>|
            selected_in_order(positives(pre, sc), pre, idx) && forall|k: int|
                0 <= k < idx.len() ==> sc[#[trigger] idx[k]] > WORD_THRESHOLD;
        let ni = choose|idx: Seq<int>|
            selected_in_order(negatives(pre, sc), pre, idx) && forall|k: int|
                0 <= k < idx.len() ==> sc[#[trigger] idx[k]] < -WORD_THRESHOLD;
        let pi2 = if sc[last] > WORD_THRESHOLD { pi.push(last) } else { pi };
        let ni2 = if sc[last] < -WORD_THRESHOLD { ni.push(last) } else { ni };
        assert(selected_in_order(positives(ws, sc), ws, pi2));
        assert(forall|k: int| 0 <= k < pi2.len() ==> sc[#[trigger] pi2[k]] > WORD_THRESHOLD);
        assert(selected_in_order(negatives(ws, sc), ws, ni2));
        assert(forall|k: int| 0 <= k < ni2.len() ==> sc[#[trigger] ni2[k]] < -WORD_THRESHOLD);
    } else {
        assert(selected_in_order(positives(ws, sc), ws, Seq::empty()));
        assert(selected_in_order(negatives(ws, sc), ws, Seq::empty()));
    }
}

proof fn lemma_floor_pair(a: int, d: int, s1: int, s2: int)
    requires
        a >= 0,
        d > 0,
        0 < s1 <= 12,
        0 < s2 <= 12,
    ensures
        -12 < s2 * ((s1 * a) / d) - s1 * ((s2 * a) / d) < 12,
{
    let x1 = s1 * a;
    let x2 = s2 * a;
    assert(x1 >= 0 && x2 >= 0) by (nonlinear_arith)
        requires
            x1 == s1 * a,
            x2 == s2 * a,
            a >= 0,
            s1 > 0,
            s2 > 0,
    ;
    lemma_fundamental_div_mod(x1, d);
    lemma_fundamental_div_mod(x2, d);
    lemma_mod_pos_bound(x1, d);
    lemma_mod_pos_bound(x2, d);
    let q1 = x1 / d;
    let q2 = x2 / d;
    let r1 = x1 % d;
    let r2 = x2 % d;
    let e = s2 * q1 - s1 * q2;
    assert(d * e == s1 * r2 - s2 * r1) by (nonlinear_arith)
        requires
            x1 == d * q1 + r1,
            x2 == d * q2 + r2,
            x1 == s1 * a,
            x2 == s2 * a,
            e == s2 * q1 - s1 * q2,
    ;
    assert(0 <= s1 * r2 < 12 * d) by (nonlinear_arith)
        requires
            0 <= r2 < d,
            0 < s1 <= 12,
    ;
    assert(0 <= s2 * r1 < 12 * d) by (nonlinear_arith)
        requires
            0 <= r1 < d,
            0 < s2 <= 12,
    ;
    assert(-12 < e < 12) by (nonlinear_arith)
        requires
            d * e == s1 * r2 - s2 * r1,
            0 <= s1 * r2 < 12 * d,
            0 <= s2 * r1 < 12 * d,
            d > 0,
    ;
}

proof fn lemma_below_limit(x: int, d: int)
    requires
        0 <= x <= SCORE_LIMIT * d,
        d > 0,
    ensures
        0 <= x / d <= SCORE_LIMIT,
{
    lemma_fundamental_div_mod(x, d);
    lemma_mod_pos_bound(x, d);
    let q = x / d;
    assert(0 <= q <= SCORE_LIMIT) by (nonlinear_arith)
        requires
            x == d * q + x % d,
            0 <= x % d < d,
            0 <= x <= SCORE_LIMIT * d,
            d > 0,
    ;
}

/// With the same token scores, the scaled sums of Chinese, English and mixed
/// text stand as 1.2 : 1.0 : 1.1. Where no clamping happens, the overall
/// scores of any two languages stand in the ratio of their scale factors up
/// to rounding: `scale(l2) * score(l1)` and `scale(l1) * score(l2)` differ
/// by less than twelve millionths.
pub proof fn lemma_language_scaling(total: int, n: int, l1: Language, l2: Language)
    requires
        n > 0,
        -10_000_000 * n <= 12 * total <= 10_000_000 * n,
    ensures
        scaled_sum(total, Language::Chinese) * 10 == scaled_sum(total, Language::English) * 12,
        scaled_sum(total, Language::Mixed) * 10 == scaled_sum(total, Language::English) * 11,
        -12 < scale(l2) * normalized_score(total, n, l1) - scale(l1) * normalized_score(total, n, l2) < 12,
{
    let s1 = scale(l1);
    let s2 = scale(l2);
    let d = 10 * n;
    let a = if total >= 0 { total } else { -total };
    assert(0 <= s1 * a <= SCORE_LIMIT * d && 0 <= s2 * a <= SCORE_LIMIT * d) by (nonlinear_arith)
        requires
            0 < s1 <= 12,
            0 < s2 <= 12,
            0 <= a,
            12 * a <= 10_000_000 * n,
            d == 10 * n,
    ;
    lemma_below_limit(s1 * a, d);
    lemma_below_limit(s2 * a, d);
    lemma_floor_pair(a, d, s1, s2);
    if total >= 0 {
        assert(scaled_sum(total, l1) == s1 * a);
        assert(scaled_sum(total, l2) == s2 * a);
    } else {
        assert(-scaled_sum(total, l1) == s1 * a);
        assert(-scaled_sum(total, l2) == s2 * a);
        if s1 * a == 0 {
            assert(a == 0);
        }
        if s2 * a == 0 {
            assert(a == 0);
        }
    }
}

/// Tokenizer and scorer, composed.
pub struct SentimentAnalyzer {
    rule_processor: RuleProcessor,
    tokenizer: MultiLanguageTokenizer,
}

impl SentimentAnalyzer {
    pub fn new() -> Self {
        SentimentAnalyzer { rule_processor: RuleProcessor::new(), tokenizer: MultiLanguageTokenizer::new() }
    }

    /// The verdict on `text`.
    pub fn analyze(&self, text: &str) -> (r: SentimentResult)
        ensures
            analysis_of(r, text@),
            -SCORE_LIMIT <= r.score <= SCORE_LIMIT,
    {
        let tokenized = self.tokenizer.tokenize(text);
        self.analyze_tokens(&tokenized)
    }

    /// The verdict on text already split into tokens.
    pub fn analyze_tokens(&self, tokenized: &TokenizedText) -> (r: SentimentResult)
        ensures
            describes(r, views(tokenized.words@), scores_of(views(tokenized.words@), tokenized.language), tokenized.language),
            -SCORE_LIMIT <= r.score <= SCORE_LIMIT,
    {
        let words = &tokenized.words;
        let language = tokenized.language;
        let ghost ws = views(words@);
        let mut scores: Vec<i64> = Vec::new();
        let mut i: usize = 0;
        while i < words.len()
            invariant
                0 <= i <= words@.len(),
                ws == views(words@),
                scores@.len() == i,
                forall|k: int| 0 <= k < i ==> scores@[k] == token_score(ws, k, language),
                forall|k: int| 0 <= k < i ==> -MAX_TOKEN_SCORE <= #[trigger] scores@[k] <= MAX_TOKEN_SCORE,
            decreases words@.len() - i,
        {
            let s = self.rule_processor.process_context(words.as_slice(), i, &language);
            scores.push(s);
            i = i + 1;
        }
        assert(ints(scores@) =~= scores_of(ws, language));
        Self::summarize(words, &scores, language)
    }

    /// The verdict on tokens `words` of language `language` whose scores, in
    /// millionths, are `scores`.
    pub fn summarize(words: &Vec<String>, scores: &Vec<i64>, language: Language) -> (r: SentimentResult)
        requires
            scores@.len() == words@.len(),
            forall|k: int| 0 <= k < scores@.len() ==> -MAX_TOKEN_SCORE <= #[trigger] scores@[k] <= MAX_TOKEN_SCORE,
        ensures
            describes(r, views(words@), ints(scores@), language),
            -SCORE_LIMIT <= r.score <= SCORE_LIMIT,
            r.word_count == 0 ==> r.score == 0 && r.confidence == 0 && r.positive_words@.len() == 0
                && r.negative_words@.len() == 0 && r.label@ == "neutral"@,
    {
        let ghost ws = views(words@);
        let ghost sc = ints(scores@);
        let n = words.len();
        let mut total: i128 = 0;
        let mut positive_words: Vec<String> = Vec::new();
        let mut negative_words: Vec<String> = Vec::new();
        let mut i: usize = 0;
        while i < n
            invariant
                0 <= i <= n,
                n == words@.len(),
                scores@.len() == n,
                ws == views(words@),
                sc == ints(scores@),
                forall|k: int| 0 <= k < scores@.len() ==> -MAX_TOKEN_SCORE <= #[trigger] scores@[k] <= MAX_TOKEN_SCORE,
                total == sum(sc.take(i as int)),
                -(i as int) * MAX_TOKEN_SCORE <= total <= (i as int) * MAX_TOKEN_SCORE,
                views(positive_words@) == positives(ws.take(i as int), sc),
                views(negative_words@) == negatives(ws.take(i as int), sc),
            decreases n - i,
        {
            let s = scores[i];
            proof {
                assert(sc.take(i + 1).drop_last() =~= sc.take(i as int));
                assert(ws.take(i + 1).drop_last() =~= ws.take(i as int));
                assert(ws.take(i + 1)[i as int] == words@[i as int]@);
            }
            total = total + s as i128;
            if s > WORD_THRESHOLD {
                proof {
                    assert(views(positive_words@.push(words[i as int])) =~= views(positive_words@) + seq![words@[i as int]@]);
                }
                positive_words.push(words[i].clone());
            } else {
                proof {
                    assert(views(positive_words@) =~= views(positive_words@) + Seq::<Seq<char>>::empty());
                }
            }
            if s < -WORD_THRESHOLD {
                proof {
                    assert(views(negative_words@.push(words[i as int])) =~= views(negative_words@) + seq![words@[i as int]@]);
                }
                negative_words.push(words[i].clone());
            } else {
                proof {
                    assert(views(negative_words@) =~= views(negative_words@) + Seq::<Seq<char>>::empty());
                }
            }
            i = i + 1;
        }
        proof {
            assert(sc.take(n as int) =~= sc);
            assert(ws.take(n as int) =~= ws);
        }
        let scale: i128 = match language {
            Language::Chinese => 12,
            Language::English => 10,
            Language::Mixed => 11,
        };
        let num: i128 = total * scale;
        let den: i128 = 10 * (n as i128);
        assert(num == scaled_sum(sum(sc), language));
        let score: i64 = if n == 0 {
            0
        } else {
            let magnitude: u128 = if num >= 0 { num as u128 } else { (-num) as u128 };
            let q: u128 = magnitude / (den as u128);
            let clamped: i64 = if q > SCORE_LIMIT as u128 { SCORE_LIMIT } else { q as i64 };
            if num >= 0 { clamped } else { -clamped }
        };
        let confidence: i64 = if score >= 0 { score } else { -score };
        let label = Self::classify_sentiment(num, den, language);
        proof {
            if n == 0 {
                assert(positive_words@.len() == views(positive_words@).len());
                assert(negative_words@.len() == views(negative_words@).len());
                assert(sum(sc) == 0);
            }
        }
        SentimentResult {
            score,
            label,
            confidence,
            word_count: n,
            positive_words,
            negative_words,
            language: Self::language_to_string(language),
        }
    }

    /// "positive" when `num > threshold × den`, "negative" when
    /// `num < -threshold × den`, else "neutral".
    fn classify_sentiment(num: i128, den: i128, language: Language) -> (r: String)
        requires
            0 <= den <= 10 * usize::MAX,
        ensures
            r@ == label_of_ratio(num as int, den as int, language),
    {
        let bar: i128 = match language {
            Language::Chinese => 80_000 * den,
            Language::English => 100_000 * den,
            Language::Mixed => 90_000 * den,
        };
        if num > bar {
            String::from_str("positive")
        } else if num < -bar {
            String::from_str("negative")
        } else {
            String::from_str("neutral")
        }
    }

    fn language_to_string(language: Language) -> (r: String)
        ensures
            r@ == language_tag(language),
    {
        match language {
            Language::English => String::from_str("en"),
            Language::Chinese => String::from_str("zh"),
            Language::Mixed => String::from_str("mixed"),
        }
    }
}

} // verus!
