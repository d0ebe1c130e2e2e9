//! The sentiment lexicon: polarity scores, intensifier multipliers and
//! negators, each partitioned into a Chinese and an English table.
//!
//! Polarities and multipliers are in tenths (`0.5` is `5`, `1.3` is `13`).
//! Chinese entries are matched exactly; English entries are matched against
//! the lower-cased word, after the Chinese tables.
use vstd::prelude::*;
use crate::sentiment::text::{lower_of, lowercase, same_text};

verus! {

/// Polarity of a word given its lower-cased form: Chinese positive, Chinese
/// negative, English positive, English negative; the first hit wins.
pub open spec fn polarity_folded(w: Seq<char>, folded: Seq<char>) -> Option<i64> {
    if zh_positive(w).is_some() {
        zh_positive(w)
    } else if zh_negative(w).is_some() {
        zh_negative(w)
    } else if en_positive(folded).is_some() {
        en_positive(folded)
    } else {
        en_negative(folded)
    }
}

/// Polarity of a word, in tenths, if the lexicon knows it.
pub open spec fn polarity_of(w: Seq<char>) -> Option<i64> {
    polarity_folded(w, lower_of(w))
}

/// Intensifier multiplier of a word given its lower-cased form: the Chinese
/// table first, then the English one.
pub open spec fn intensifier_folded(w: Seq<char>, folded: Seq<char>) -> Option<i64> {
    if zh_intensifier(w).is_some() {
        zh_intensifier(w)
    } else {
        en_intensifier(folded)
    }
}

/// Intensifier multiplier of a word, in tenths, if it is an intensifier.
pub open spec fn intensifier_of(w: Seq<char>) -> Option<i64> {
    intensifier_folded(w, lower_of(w))
}

/// Whether a word, given its lower-cased form, is a negator.
pub open spec fn negator_folded(w: Seq<char>, folded: Seq<char>) -> bool {
    zh_negator(w) || en_negator(folded)
}

/// Whether a word is a negator.
pub open spec fn negator_of(w: Seq<char>) -> bool {
    negator_folded(w, lower_of(w))
}

/// Polarities lie in `[-1.0, 1.0]` and multipliers in `[0.1, 2.0]`.
pub proof fn lemma_lexicon_bounds(w: Seq<char>, folded: Seq<char>)
    ensures
        polarity_folded(w, folded) matches Some(v) ==> -10 <= v <= 10,
        intensifier_folded(w, folded) matches Some(m) ==> 1 <= m <= 20,
{
}

/// The lexicon. Its tables are fixed; the value itself holds nothing.
pub struct SentimentDictionary;

impl SentimentDictionary {
    pub fn new() -> Self {
        SentimentDictionary
    }

    /// Polarity of `word`, in tenths.
    pub fn get_word_sentiment(&self, word: &str) -> (r: Option<i64>)
        ensures
            r == polarity_of(word@),
    {
        let folded = lowercase(word);
        self.get_word_sentiment_folded(word, folded.as_str())
    }

    /// Polarity of `word`, in tenths, where `folded` is its lower-cased form.
    pub fn get_word_sentiment_folded(&self, word: &str, folded: &str) -> (r: Option<i64>)
        ensures
            r == polarity_folded(word@, folded@),
    {
        let zp = zh_positive_lookup(word);
        if zp.is_some() {
            return zp;
        }
        let zn = zh_negative_lookup(word);
        if zn.is_some() {
            return zn;
        }
        let ep = en_positive_lookup(folded);
        if ep.is_some() {
            return ep;
        }
        en_negative_lookup(folded)
    }

    /// Intensifier multiplier of `word`, in tenths.
    pub fn get_intensifier(&self, word: &str) -> (r: Option<i64>)
        ensures
            r == intensifier_of(word@),
    {
        let folded = lowercase(word);
        self.get_intensifier_folded(word, folded.as_str())
    }

    /// Intensifier multiplier of `word`, in tenths, where `folded` is its
    /// lower-cased form.
    pub fn get_intensifier_folded(&self, word: &str, folded: &str) -> (r: Option<i64>)
        ensures
            r == intensifier_folded(word@, folded@),
    {
        let z = zh_intensifier_lookup(word);
        if z.is_some() {
            return z;
        }
        en_intensifier_lookup(folded)
    }

    /// Whether `word` is a negator.
    pub fn is_negator(&self, word: &str) -> (r: bool)
        ensures
            r == negator_of(word@),
    {
        let folded = lowercase(word);
        self.is_negator_folded(word, folded.as_str())
    }

    /// Whether `word` is a negator, where `folded` is its lower-cased form.
    pub fn is_negator_folded(&self, word: &str, folded: &str) -> (r: bool)
        ensures
            r == negator_folded(word@, folded@),
    {
        zh_negator_lookup(word) || en_negator_lookup(folded)
    }
}

/// Chinese positive words, in tenths.
pub open spec fn zh_positive(w: Seq<char>) -> Option<i64> {
    if w == "好"@ {
        Some(5i64)
    } else if w == "很好"@ {
        Some(7i64)
    } else if w == "棒"@ {
        Some(6i64)
    } else if w == "不错"@ {
        Some(5i64)
    } else if w == "喜欢"@ {
        Some(6i64)
    } else if w == "爱"@ {
        Some(8i64)
    } else if w == "满意"@ {
        Some(6i64)
    } else if w == "开心"@ {
        Some(7i64)
    } else if w == "高兴"@ {
        Some(7i64)
    } else if w == "优秀"@ {
        Some(8i64)
    } else if w == "完美"@ {
        Some(9i64)
    } else if w == "赞"@ {
        Some(6i64)
    } else if w == "给力"@ {
        Some(7i64)
    } else if w == "超棒"@ {
        Some(8i64)
    } else if w == "惊喜"@ {
        Some(7i64)
    } else if w == "优质"@ {
        Some(7i64)
    } else if w == "精彩"@ {
        Some(8i64)
    } else if w == "杰出"@ {
        Some(8i64)
    } else if w == "卓越"@ {
        Some(9i64)
    } else if w == "出色"@ {
        Some(8i64)
    } else {
        None
    }
}

fn zh_positive_lookup(w: &str) -> (r: Option<i64>)
    ensures
        r == zh_positive(w@),
{
    if same_text(w, "好") {
        Some(5i64)
    } else if same_text(w, "很好") {
        Some(7i64)
    } else if same_text(w, "棒") {
        Some(6i64)
    } else if same_text(w, "不错") {
        Some(5i64)
    } else if same_text(w, "喜欢") {
        Some(6i64)
    } else if same_text(w, "爱") {
        Some(8i64)
    } else if same_text(w, "满意") {
        Some(6i64)
    } else if same_text(w, "开心") {
        Some(7i64)
    } else if same_text(w, "高兴") {
        Some(7i64)
    } else if same_text(w, "优秀") {
        Some(8i64)
    } else if same_text(w, "完美") {
        Some(9i64)
    } else if same_text(w, "赞") {
        Some(6i64)
    } else if same_text(w, "给力") {
        Some(7i64)
    } else if same_text(w, "超棒") {
        Some(8i64)
    } else if same_text(w, "惊喜") {
        Some(7i64)
    } else if same_text(w, "优质") {
        Some(7i64)
    } else if same_text(w, "精彩") {
        Some(8i64)
    } else if same_text(w, "杰出") {
        Some(8i64)
    } else if same_text(w, "卓越") {
        Some(9i64)
    } else if same_text(w, "出色") {
        Some(8i64)
    } else {
        None
    }
}

/// Chinese negative words, in tenths.
pub open spec fn zh_negative(w: Seq<char>) -> Option<i64> {
    if w == "坏"@ {
        Some(-5i64)
    } else if w == "差"@ {
        Some(-5i64)
    } else if w == "糟糕"@ {
        Some(-8i64)
    } else if w == "讨厌"@ {
        Some(-7i64)
    } else if w == "恨"@ {
        Some(-8i64)
    } else if w == "失望"@ {
        Some(-6i64)
    } else if w == "难过"@ {
        Some(-6i64)
    } else if w == "生气"@ {
        Some(-7i64)
    } else if w == "愤怒"@ {
        Some(-8i64)
    } else if w == "垃圾"@ {
        Some(-9i64)
    } else if w == "烂"@ {
        Some(-8i64)
    } else if w == "无聊"@ {
        Some(-4i64)
    } else if w == "恶心"@ {
        Some(-8i64)
    } else if w == "可怕"@ {
        Some(-7i64)
    } else if w == "糟"@ {
        Some(-6i64)
    } else if w == "臭"@ {
        Some(-6i64)
    } else if w == "破"@ {
        Some(-5i64)
    } else if w == "烦"@ {
        Some(-5i64)
    } else if w == "恼火"@ {
        Some(-6i64)
    } else if w == "郁闷"@ {
        Some(-5i64)
    } else {
        None
    }
}

fn zh_negative_lookup(w: &str) -> (r: Option<i64>)
    ensures
        r == zh_negative(w@),
{
    if same_text(w, "坏") {
        Some(-5i64)
    } else if same_text(w, "差") {
        Some(-5i64)
    } else if same_text(w, "糟糕") {
        Some(-8i64)
    } else if same_text(w, "讨厌") {
        Some(-7i64)
    } else if same_text(w, "恨") {
        Some(-8i64)
    } else if same_text(w, "失望") {
        Some(-6i64)
    } else if same_text(w, "难过") {
        Some(-6i64)
    } else if same_text(w, "生气") {
        Some(-7i64)
    } else if same_text(w, "愤怒") {
        Some(-8i64)
    } else if same_text(w, "垃圾") {
        Some(-9i64)
    } else if same_text(w, "烂") {
        Some(-8i64)
    } else if same_text(w, "无聊") {
        Some(-4i64)
    } else if same_text(w, "恶心") {
        Some(-8i64)
    } else if same_text(w, "可怕") {
        Some(-7i64)
    } else if same_text(w, "糟") {
        Some(-6i64)
    } else if same_text(w, "臭") {
        Some(-6i64)
    } else if same_text(w, "破") {
        Some(-5i64)
    } else if same_text(w, "烦") {
        Some(-5i64)
    } else if same_text(w, "恼火") {
        Some(-6i64)
    } else if same_text(w, "郁闷") {
        Some(-5i64)
    } else {
        None
    }
}

/// English positive words (lower case), in tenths.
pub open spec fn en_positive(w: Seq<char>) -> Option<i64> {
    if w == "good"@ {
        Some(5i64)
    } else if w == "great"@ {
        Some(8i64)
    } else if w == "excellent"@ {
        Some(10i64)
    } else if w == "amazing"@ {
        Some(9i64)
    } else if w == "wonderful"@ {
        Some(8i64)
    } else if w == "fantastic"@ {
        Some(9i64)
    } else if w == "love"@ {
        Some(7i64)
    } else if w == "like"@ {
        Some(3i64)
    } else if w == "happy"@ {
        Some(6i64)
    } else if w == "satisfied"@ {
        Some(5i64)
    } else if w == "awesome"@ {
        Some(8i64)
    } else if w == "perfect"@ {
        Some(9i64)
    } else if w == "outstanding"@ {
        Some(9i64)
    } else if w == "brilliant"@ {
        Some(8i64)
    } else if w == "superb"@ {
        Some(8i64)
    } else {
        None
    }
}

fn en_positive_lookup(w: &str) -> (r: Option<i64>)
    ensures
        r == en_positive(w@),
{
    if same_text(w, "good") {
        Some(5i64)
    } else if same_text(w, "great") {
        Some(8i64)
    } else if same_text(w, "excellent") {
        Some(10i64)
    } else if same_text(w, "amazing") {
        Some(9i64)
    } else if same_text(w, "wonderful") {
        Some(8i64)
    } else if same_text(w, "fantastic") {
        Some(9i64)
    } else if same_text(w, "love") {
        Some(7i64)
    } else if same_text(w, "like") {
        Some(3i64)
    } else if same_text(w, "happy") {
        Some(6i64)
    } else if same_text(w, "satisfied") {
        Some(5i64)
    } else if same_text(w, "awesome") {
        Some(8i64)
    } else if same_text(w, "perfect") {
        Some(9i64)
    } else if same_text(w, "outstanding") {
        Some(9i64)
    } else if same_text(w, "brilliant") {
        Some(8i64)
    } else if same_text(w, "superb") {
        Some(8i64)
    } else {
        None
    }
}

/// English negative words (lower case), in tenths.
pub open spec fn en_negative(w: Seq<char>) -> Option<i64> {
    if w == "bad"@ {
        Some(-5i64)
    } else if w == "terrible"@ {
        Some(-10i64)
    } else if w == "awful"@ {
        Some(-9i64)
    } else if w == "hate"@ {
        Some(-8i64)
    } else if w == "dislike"@ {
        Some(-4i64)
    } else if w == "sad"@ {
        Some(-6i64)
    } else if w == "angry"@ {
        Some(-7i64)
    } else if w == "disappointed"@ {
        Some(-6i64)
    } else if w == "horrible"@ {
        Some(-9i64)
    } else if w == "disgusting"@ {
        Some(-8i64)
    } else if w == "annoying"@ {
        Some(-5i64)
    } else if w == "boring"@ {
        Some(-4i64)
    } else {
        None
    }
}

fn en_negative_lookup(w: &str) -> (r: Option<i64>)
    ensures
        r == en_negative(w@),
{
    if same_text(w, "bad") {
        Some(-5i64)
    } else if same_text(w, "terrible") {
        Some(-10i64)
    } else if same_text(w, "awful") {
        Some(-9i64)
    } else if same_text(w, "hate") {
        Some(-8i64)
    } else if same_text(w, "dislike") {
        Some(-4i64)
    } else if same_text(w, "sad") {
        Some(-6i64)
    } else if same_text(w, "angry") {
        Some(-7i64)
    } else if same_text(w, "disappointed") {
        Some(-6i64)
    } else if same_text(w, "horrible") {
        Some(-9i64)
    } else if same_text(w, "disgusting") {
        Some(-8i64)
    } else if same_text(w, "annoying") {
        Some(-5i64)
    } else if same_text(w, "boring") {
        Some(-4i64)
    } else {
        None
    }
}

/// Chinese intensifiers: multipliers in tenths.
pub open spec fn zh_intensifier(w: Seq<char>) -> Option<i64> {
    if w == "很"@ {
        Some(13i64)
    } else if w == "非常"@ {
        Some(16i64)
    } else if w == "极其"@ {
        Some(18i64)
    } else if w == "超级"@ {
        Some(15i64)
    } else if w == "特别"@ {
        Some(14i64)
    } else if w == "相当"@ {
        Some(12i64)
    } else if w == "比较"@ {
        Some(8i64)
    } else if w == "有点"@ {
        Some(7i64)
    } else if w == "稍微"@ {
        Some(6i64)
    } else if w == "十分"@ {
        Some(15i64)
    } else if w == "格外"@ {
        Some(14i64)
    } else if w == "异常"@ {
        Some(16i64)
    } else if w == "超"@ {
        Some(14i64)
    } else if w == "巨"@ {
        Some(15i64)
    } else if w == "贼"@ {
        Some(13i64)
    } else {
        None
    }
}

fn zh_intensifier_lookup(w: &str) -> (r: Option<i64>)
    ensures
        r == zh_intensifier(w@),
{
    if same_text(w, "很") {
        Some(13i64)
    } else if same_text(w, "非常") {
        Some(16i64)
    } else if same_text(w, "极其") {
        Some(18i64)
    } else if same_text(w, "超级") {
        Some(15i64)
    } else if same_text(w, "特别") {
        Some(14i64)
    } else if same_text(w, "相当") {
        Some(12i64)
    } else if same_text(w, "比较") {
        Some(8i64)
    } else if same_text(w, "有点") {
        Some(7i64)
    } else if same_text(w, "稍微") {
        Some(6i64)
    } else if same_text(w, "十分") {
        Some(15i64)
    } else if same_text(w, "格外") {
        Some(14i64)
    } else if same_text(w, "异常") {
        Some(16i64)
    } else if same_text(w, "超") {
        Some(14i64)
    } else if same_text(w, "巨") {
        Some(15i64)
    } else if same_text(w, "贼") {
        Some(13i64)
    } else {
        None
    }
}

/// English intensifiers (lower case): multipliers in tenths.
pub open spec fn en_intensifier(w: Seq<char>) -> Option<i64> {
    if w == "very"@ {
        Some(15i64)
    } else if w == "extremely"@ {
        Some(20i64)
    } else if w == "really"@ {
        Some(13i64)
    } else if w == "quite"@ {
        Some(12i64)
    } else if w == "somewhat"@ {
        Some(8i64)
    } else if w == "slightly"@ {
        Some(7i64)
    } else if w == "absolutely"@ {
        Some(18i64)
    } else if w == "totally"@ {
        Some(16i64)
    } else if w == "incredibly"@ {
        Some(17i64)
    } else if w == "super"@ {
        Some(14i64)
    } else {
        None
    }
}

fn en_intensifier_lookup(w: &str) -> (r: Option<i64>)
    ensures
        r == en_intensifier(w@),
{
    if same_text(w, "very") {
        Some(15i64)
    } else if same_text(w, "extremely") {
        Some(20i64)
    } else if same_text(w, "really") {
        Some(13i64)
    } else if same_text(w, "quite") {
        Some(12i64)
    } else if same_text(w, "somewhat") {
        Some(8i64)
    } else if same_text(w, "slightly") {
        Some(7i64)
    } else if same_text(w, "absolutely") {
        Some(18i64)
    } else if same_text(w, "totally") {
        Some(16i64)
    } else if same_text(w, "incredibly") {
        Some(17i64)
    } else if same_text(w, "super") {
        Some(14i64)
    } else {
        None
    }
}

/// Chinese negators.
pub open spec fn zh_negator(w: Seq<char>) -> bool {
    w == "不"@
    || w == "没"@
    || w == "没有"@
    || w == "不是"@
    || w == "非"@
    || w == "无"@
    || w == "未"@
    || w == "勿"@
    || w == "别"@
    || w == "莫"@
    || w == "毋"@
    || w == "不用"@
    || w == "不要"@
    || w == "不能"@
    || w == "不会"@
    || w == "不可"@
    || w == "不得"@
    || w == "不必"@
    || w == "不该"@
    || w == "不应"@
    || w == "不许"@
}

fn zh_negator_lookup(w: &str) -> (r: bool)
    ensures
        r == zh_negator(w@),
{
    same_text(w, "不")
        || same_text(w, "没")
        || same_text(w, "没有")
        || same_text(w, "不是")
        || same_text(w, "非")
        || same_text(w, "无")
        || same_text(w, "未")
        || same_text(w, "勿")
        || same_text(w, "别")
        || same_text(w, "莫")
        || same_text(w, "毋")
        || same_text(w, "不用")
        || same_text(w, "不要")
        || same_text(w, "不能")
        || same_text(w, "不会")
        || same_text(w, "不可")
        || same_text(w, "不得")
        || same_text(w, "不必")
        || same_text(w, "不该")
        || same_text(w, "不应")
        || same_text(w, "不许")
}

/// English negators (lower case).
pub open spec fn en_negator(w: Seq<char>) -> bool {
    w == "not"@
    || w == "no"@
    || w == "never"@
    || w == "none"@
    || w == "nobody"@
    || w == "nothing"@
    || w == "neither"@
    || w == "nowhere"@
    || w == "isn't"@
    || w == "wasn't"@
    || w == "shouldn't"@
    || w == "wouldn't"@
    || w == "couldn't"@
    || w == "won't"@
    || w == "can't"@
    || w == "don't"@
    || w == "doesn't"@
    || w == "didn't"@
    || w == "haven't"@
    || w == "hasn't"@
    || w == "hadn't"@
}

fn en_negator_lookup(w: &str) -> (r: bool)
    ensures
        r == en_negator(w@),
{
    same_text(w, "not")
        || same_text(w, "no")
        || same_text(w, "never")
        || same_text(w, "none")
        || same_text(w, "nobody")
        || same_text(w, "nothing")
        || same_text(w, "neither")
        || same_text(w, "nowhere")
        || same_text(w, "isn't")
        || same_text(w, "wasn't")
        || same_text(w, "shouldn't")
        || same_text(w, "wouldn't")
        || same_text(w, "couldn't")
        || same_text(w, "won't")
        || same_text(w, "can't")
        || same_text(w, "don't")
        || same_text(w, "doesn't")
        || same_text(w, "didn't")
        || same_text(w, "haven't")
        || same_text(w, "hasn't")
        || same_text(w, "hadn't")
}

} // verus!
