//! The contextual scorer: one score per token from its lexicon polarity, the
//! negators and intensifiers in a window before it, and, for Chinese and
//! mixed text, a few fixed bigram idioms.
//!
//! A token score is in millionths. It is the product of the (possibly
//! overridden) polarity in hundredths, the intensifier product padded to
//! thousandths, and the negation factor in tenths, which is 1.0 when a
//! bigram idiom fixed the score.
use vstd::prelude::*;
use crate::sentiment::dictionary::{intensifier_of, negator_of, polarity_of, SentimentDictionary};
use crate::sentiment::text::{same_text, views};
use crate::sentiment::tokenizer::Language;

verus! {

/// The largest magnitude of a token score: 1.0 × 1.3 × 2.0³ × 1.0.
pub const MAX_TOKEN_SCORE: i64 = 10_400_000;

/// How many tokens before a token can negate or intensify it.
pub open spec fn window(language: Language) -> int {
    match language {
        Language::Chinese => 2,
        _ => 3,
    }
}

/// The first index of the window before index `i`.
pub open spec fn window_start(i: int, language: Language) -> int {
    if i >= window(language) {
        i - window(language)
    } else {
        0
    }
}

/// The polarity of a word in tenths, zero when the lexicon does not know it.
pub open spec fn polarity_or_zero(w: Seq<char>) -> int {
    match polarity_of(w) {
        Some(v) => v as int,
        None => 0,
    }
}

/// The bigrams whose score is fixed: "不好", "不错" and "没用".
pub open spec fn is_idiom(prev: Seq<char>, cur: Seq<char>) -> bool {
    (prev == "不"@ && (cur == "好"@ || cur == "错"@)) || (prev == "没"@ && cur == "用"@)
}

/// Whether the token at `i` closes a fixed bigram (Chinese and mixed text only).
pub open spec fn idiom_applies(ws: Seq<Seq<char>>, i: int, language: Language) -> bool {
    language != Language::English && i > 0 && is_idiom(ws[i - 1], ws[i])
}

/// The score of the token at `i` before intensifiers and negation, in
/// hundredths: its polarity, replaced by the fixed score of a bigram idiom,
/// or raised by 1.3 after "很" when the token has a polarity.
pub open spec fn pattern_score(ws: Seq<Seq<char>>, i: int, language: Language) -> int {
    let base = polarity_or_zero(ws[i]);
    if language != Language::English && i > 0 {
        let prev = ws[i - 1];
        let cur = ws[i];
        if prev == "不"@ && cur == "好"@ {
            -50
        } else if prev == "不"@ && cur == "错"@ {
            40
        } else if prev == "没"@ && cur == "用"@ {
            -60
        } else if prev == "很"@ && polarity_of(cur).is_some() {
            base * 13
        } else {
            base * 10
        }
    } else {
        base * 10
    }
}

/// The multiplier of a word in tenths, 1.0 when it is no intensifier.
pub open spec fn multiplier_of(w: Seq<char>) -> int {
    match intensifier_of(w) {
        Some(m) => m as int,
        None => 10,
    }
}

/// The product of the multipliers of `ws[lo..hi]`, in units of `10^-(hi - lo)`.
pub open spec fn intensifier_product(ws: Seq<Seq<char>>, lo: int, hi: int) -> int
    decreases hi - lo,
{
    if hi <= lo {
        1
    } else {
        intensifier_product(ws, lo, hi - 1) * multiplier_of(ws[hi - 1])
    }
}

/// The number of negators in `ws[lo..hi]`.
pub open spec fn negations(ws: Seq<Seq<char>>, lo: int, hi: int) -> nat
    decreases hi - lo,
{
    if hi <= lo {
        0
    } else {
        negations(ws, lo, hi - 1) + if negator_of(ws[hi - 1]) { 1nat } else { 0nat }
    }
}

/// The negation factor of the token at `i`, in tenths. A bigram idiom
/// supersedes negation: its fixed score is never negated.
pub open spec fn negation_of(ws: Seq<Seq<char>>, i: int, language: Language) -> int {
    if idiom_applies(ws, i, language) {
        10
    } else {
        negation_factor(negations(ws, window_start(i, language), i), language)
    }
}

/// The factor for a count of negators, in tenths: an odd count inverts and
/// damps (-0.9 for Chinese, -0.8 otherwise), an even count leaves the score.
pub open spec fn negation_factor(count: nat, language: Language) -> int {
    if count % 2 == 1 {
        if language == Language::Chinese {
            -9
        } else {
            -8
        }
    } else {
        10
    }
}

/// The factor that brings a product of `len` multipliers to thousandths.
pub open spec fn pad(len: int) -> int {
    if len <= 0 {
        1000
    } else if len == 1 {
        100
    } else if len == 2 {
        10
    } else {
        1
    }
}

/// The intensifier product over the window before `i`, in thousandths.
pub open spec fn intensity(ws: Seq<Seq<char>>, i: int, language: Language) -> int {
    let lo = window_start(i, language);
    intensifier_product(ws, lo, i) * pad(i - lo)
}

/// The score of the token at `i`, in millionths.
pub open spec fn token_score(ws: Seq<Seq<char>>, i: int, language: Language) -> int {
    pattern_score(ws, i, language) * intensity(ws, i, language) * negation_of(ws, i, language)
}

pub open spec fn pow20(k: int) -> int
    decreases k,
{
    if k <= 0 {
        1
    } else {
        20 * pow20(k - 1)
    }
}

proof fn lemma_multiplier_bounds(w: Seq<char>)
    ensures
        1 <= multiplier_of(w) <= 20,
{
    crate::sentiment::dictionary::lemma_lexicon_bounds(w, crate::sentiment::text::lower_of(w));
}

proof fn lemma_product_bounds(ws: Seq<Seq<char>>, lo: int, hi: int)
    requires
        lo <= hi,
    ensures
        1 <= intensifier_product(ws, lo, hi) <= pow20(hi - lo),
    decreases hi - lo,
{
    if hi > lo {
        lemma_product_bounds(ws, lo, hi - 1);
        lemma_multiplier_bounds(ws[hi - 1]);
        let p = intensifier_product(ws, lo, hi - 1);
        let m = multiplier_of(ws[hi - 1]);
        assert(pow20(hi - lo) == 20 * pow20(hi - 1 - lo));
        assert(1 <= p * m <= pow20(hi - 1 - lo) * 20) by (nonlinear_arith)
            requires
                1 <= p <= pow20(hi - 1 - lo),
                1 <= m <= 20,
        ;
    }
}

/// Every token score lies within `MAX_TOKEN_SCORE` of zero.
pub proof fn lemma_token_score_bounds(ws: Seq<Seq<char>>, i: int, language: Language)
    requires
        0 <= i < ws.len(),
    ensures
        -MAX_TOKEN_SCORE <= token_score(ws, i, language) <= MAX_TOKEN_SCORE,
{
    let lo = window_start(i, language);
    lemma_product_bounds(ws, lo, i);
    crate::sentiment::dictionary::lemma_lexicon_bounds(ws[i], crate::sentiment::text::lower_of(ws[i]));
    let k = i - lo;
    let p = intensifier_product(ws, lo, i);
    assert(0 <= k <= 3);
    assert(pow20(1) == 20 && pow20(2) == 400 && pow20(3) == 8000) by {
        reveal_with_fuel(pow20, 4);
    }
    let t = intensity(ws, i, language);
    assert(1 <= t <= 8000);
    let a = pattern_score(ws, i, language);
    assert(-130 <= a <= 130);
    let f = negation_of(ws, i, language);
    assert(-10 <= f <= 10);
    assert(-10_400_000 <= a * t * f <= 10_400_000) by (nonlinear_arith)
        requires
            -130 <= a <= 130,
            1 <= t <= 8000,
            -10 <= f <= 10,
    ;
}

proof fn lemma_plain_window(ws: Seq<Seq<char>>, i: int, language: Language)
    requires
        0 <= i < ws.len(),
        forall|j: int| window_start(i, language) <= j < i ==> (#[trigger] intensifier_of(ws[j])).is_none(),
    ensures
        intensity(ws, i, language) == 1000,
{
    let lo = window_start(i, language);
    assert(0 <= i - lo <= 3);
    if i - lo >= 1 {
        assert(intensifier_of(ws[lo]).is_none());
    }
    if i - lo >= 2 {
        assert(intensifier_of(ws[lo + 1]).is_none());
    }
    if i - lo >= 3 {
        assert(intensifier_of(ws[lo + 2]).is_none());
    }
    reveal_with_fuel(intensifier_product, 4);
}

/// Double negation cancels: in English text, a token preceded within its
/// window by exactly two negators and no intensifier scores its plain
/// lexicon polarity (tenths scaled to millionths), not its negation.
pub proof fn lemma_double_negation_cancels(ws: Seq<Seq<char>>, i: int)
    requires
        0 <= i < ws.len(),
        negations(ws, window_start(i, Language::English), i) == 2,
        forall|j: int|
            window_start(i, Language::English) <= j < i ==> (#[trigger] intensifier_of(ws[j])).is_none(),
    ensures
        token_score(ws, i, Language::English) == polarity_or_zero(ws[i]) * 100_000,
{
    lemma_plain_window(ws, i, Language::English);
    assert(!idiom_applies(ws, i, Language::English));
    assert(negation_of(ws, i, Language::English) == 10);
}

/// The idiom "不错" scores positive although "不" is a negator: the bigram
/// fixes the score at 0.4, scaled only by the intensifiers in the window,
/// and no negator in the window negates it; with no intensifier it is
/// exactly 0.4.
pub proof fn lemma_idiom_overrides_negation(ws: Seq<Seq<char>>, i: int, language: Language)
    requires
        language != Language::English,
        1 <= i < ws.len(),
        ws[i - 1] == "不"@,
        ws[i] == "错"@,
    ensures
        token_score(ws, i, language) == 400 * intensity(ws, i, language),
        token_score(ws, i, language) > 0,
        (forall|j: int| window_start(i, language) <= j < i ==> (#[trigger] intensifier_of(ws[j])).is_none())
            ==> token_score(ws, i, language) == 400_000,
{
    let lo = window_start(i, language);
    lemma_product_bounds(ws, lo, i);
    reveal_strlit("错");
    reveal_strlit("好");
    assert("错"@ != "好"@) by {
        assert("错"@[0] != "好"@[0]);
    }
    assert(pattern_score(ws, i, language) == 40);
    assert(idiom_applies(ws, i, language));
    if forall|j: int| window_start(i, language) <= j < i ==> (#[trigger] intensifier_of(ws[j])).is_none() {
        lemma_plain_window(ws, i, language);
    }
    assert(pad(i - lo) >= 1);
    let t = intensity(ws, i, language);
    assert(t >= 1) by (nonlinear_arith)
        requires
            t == intensifier_product(ws, lo, i) * pad(i - lo),
            intensifier_product(ws, lo, i) >= 1,
            pad(i - lo) >= 1,
    ;
    assert(negation_of(ws, i, language) == 10);
    assert(40 * t * 10 == 400 * t);
}

/// The scorer, holding the lexicon.
pub struct RuleProcessor {
    dictionary: SentimentDictionary,
}

impl RuleProcessor {
    pub fn new() -> Self {
        RuleProcessor { dictionary: SentimentDictionary::new() }
    }

    /// The score of `words[index]` in millionths, in the context of the
    /// tokens before it.
    pub fn process_context(&self, words: &[String], index: usize, language: &Language) -> (r: i64)
        requires
            index < words@.len(),
        ensures
            r == token_score(views(words@), index as int, *language),
            -MAX_TOKEN_SCORE <= r <= MAX_TOKEN_SCORE,
    {
        let ghost ws = views(words@);
        let lang = *language;
        let (sentiment, idiom) = self.handle_chinese_patterns(words, index, lang);
        let intensity = self.window_intensity(words, index, lang);
        let start: usize = if lang == Language::Chinese {
            if index >= 2 { index - 2 } else { 0 }
        } else {
            if index >= 3 { index - 3 } else { 0 }
        };
        let factor: i64 = if idiom {
            10
        } else {
            let count = self.count_negators(words, start, index);
            if count % 2 == 1 {
                if lang == Language::Chinese { -9 } else { -8 }
            } else {
                10
            }
        };
        assert(factor == negation_of(ws, index as int, lang));
        assert(-10 <= factor <= 10);
        proof {
            assert(-10_400_000 <= sentiment * intensity * factor <= 10_400_000) by (nonlinear_arith)
                requires
                    -130 <= sentiment <= 130,
                    1 <= intensity <= 8000,
                    -10 <= factor <= 10,
            ;
        }
        sentiment * intensity * factor
    }

    /// The polarity of `words[index]` in hundredths, with the bigram idioms
    /// and the "很" rule applied for Chinese and mixed text; and whether an
    /// idiom fixed the score.
    fn handle_chinese_patterns(&self, words: &[String], index: usize, lang: Language) -> (r: (i64, bool))
        requires
            index < words@.len(),
        ensures
            r.0 == pattern_score(views(words@), index as int, lang),
            r.1 == idiom_applies(views(words@), index as int, lang),
            -130 <= r.0 <= 130,
    {
        let ghost ws = views(words@);
        let current = words[index].as_str();
        let polarity = self.dictionary.get_word_sentiment(current);
        let base: i64 = match polarity {
            Some(v) => v,
            None => 0,
        };
        proof {
            crate::sentiment::dictionary::lemma_lexicon_bounds(ws[index as int], crate::sentiment::text::lower_of(ws[index as int]));
        }
        if lang != Language::English && index > 0 {
            let prev = words[index - 1].as_str();
            if same_text(prev, "不") && same_text(current, "好") {
                (-50, true)
            } else if same_text(prev, "不") && same_text(current, "错") {
                (40, true)
            } else if same_text(prev, "没") && same_text(current, "用") {
                (-60, true)
            } else if same_text(prev, "很") && polarity.is_some() {
                (base * 13, false)
            } else {
                (base * 10, false)
            }
        } else {
            (base * 10, false)
        }
    }

    /// The product of the multipliers in the window before `index`, in thousandths.
    fn window_intensity(&self, words: &[String], index: usize, lang: Language) -> (r: i64)
        requires
            index < words@.len(),
        ensures
            r == intensity(views(words@), index as int, lang),
            1 <= r <= 8000,
    {
        let ghost ws = views(words@);
        let start: usize = if lang == Language::Chinese {
            if index >= 2 { index - 2 } else { 0 }
        } else {
            if index >= 3 { index - 3 } else { 0 }
        };
        assert(pow20(0) == 1 && pow20(1) == 20 && pow20(2) == 400 && pow20(3) == 8000) by {
            reveal_with_fuel(pow20, 4);
        }
        let mut multiplier: i64 = 1;
        let mut j: usize = start;
        while j < index
            invariant
                start <= j <= index,
                index < words@.len(),
                start == window_start(index as int, lang),
                ws == views(words@),
                multiplier == intensifier_product(ws, start as int, j as int),
                1 <= multiplier <= pow20(j - start),
                j - start <= 3,
                pow20(0) == 1 && pow20(1) == 20 && pow20(2) == 400 && pow20(3) == 8000,
            decreases index - j,
        {
            let m = match self.dictionary.get_intensifier(words[j].as_str()) {
                Some(m) => m,
                None => 10,
            };
            proof {
                lemma_multiplier_bounds(ws[j as int]);
                lemma_product_bounds(ws, start as int, j + 1);
            }
            multiplier = multiplier * m;
            j = j + 1;
        }
        let len = index - start;
        let padding: i64 = if len == 0 {
            1000
        } else if len == 1 {
            100
        } else if len == 2 {
            10
        } else {
            1
        };
        multiplier * padding
    }

    /// The number of negators among `words[lo..hi]`.
    fn count_negators(&self, words: &[String], lo: usize, hi: usize) -> (r: usize)
        requires
            lo <= hi <= words@.len(),
        ensures
            r == negations(views(words@), lo as int, hi as int),
    {
        let ghost ws = views(words@);
        let mut count: usize = 0;
        let mut k: usize = lo;
        while k < hi
            invariant
                lo <= k <= hi,
                hi <= words@.len(),
                ws == views(words@),
                count == negations(ws, lo as int, k as int),
                count <= k - lo,
            decreases hi - k,
        {
            if self.dictionary.is_negator(words[k].as_str()) {
                count = count + 1;
            }
            k = k + 1;
        }
        count
    }
}

} // verus!
