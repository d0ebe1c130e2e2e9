//! Language detection and tokenization.
//!
//! The detected language selects the strategy: Unicode word boundaries for
//! English, dictionary segmentation for Chinese, and for mixed text a choice
//! per whitespace-separated chunk. Tokens are lower-cased, and tokens of a
//! single character are dropped unless that character is an ideograph.
use vstd::prelude::*;
use jieba_rs::Jieba;
use unicode_segmentation::UnicodeSegmentation;
use crate::sentiment::text::{chars_of, lower_of, lowercase, trim_text, trimmed, views};

verus! {

#[verifier::external_type_specification]
#[verifier::external_body]
pub struct ExJieba(jieba_rs::Jieba);

/// Relies on `jieba_rs::Jieba::new`, which loads the embedded default dictionary.
pub assume_specification[ jieba_rs::Jieba::new ]() -> jieba_rs::Jieba;

/// The words that `jieba_rs::Jieba::cut` (default dictionary, no HMM) splits a text into.
pub uninterp spec fn jieba_cut(s: Seq<char>) -> Seq<Seq<char>>;

/// Relies on `jieba_rs::Jieba::cut` without HMM: on a segmenter built with the
/// default dictionary the pieces depend on the text alone.
#[verifier::external_body]
fn segment(segmenter: &Jieba, text: &str) -> (r: Vec<String>)
    ensures
        views(r@) == jieba_cut(text@),
{
    segmenter.cut(text, false).into_iter().map(|w| w.to_string()).collect()
}

/// The words of a text on UAX#29 word boundaries, as `unicode_words` gives them.
pub uninterp spec fn unicode_words_of(s: Seq<char>) -> Seq<Seq<char>>;

/// Relies on `UnicodeSegmentation::unicode_words`: the words depend on the text alone.
#[verifier::external_body]
fn split_words(text: &str) -> (r: Vec<String>)
    ensures
        views(r@) == unicode_words_of(text@),
{
    text.unicode_words().map(|w| w.to_string()).collect()
}

/// The chunks of a text between runs of whitespace, as `split_whitespace` gives them.
pub uninterp spec fn whitespace_chunks(s: Seq<char>) -> Seq<Seq<char>>;

/// Relies on `str::split_whitespace`: the chunks depend on the text alone.
#[verifier::external_body]
fn split_chunks(text: &str) -> (r: Vec<String>)
    ensures
        views(r@) == whitespace_chunks(text@),
{
    text.split_whitespace().map(|w| w.to_string()).collect()
}

/// The three language classes of a text.
#[derive(Debug, Clone, Copy, PartialEq, Eq, Structural)]
pub enum Language {
    English,
    Chinese,
    Mixed,
}

/// The tokens of a text, in order, with the language detected for it.
#[derive(Debug, Clone)]
pub struct TokenizedText {
    pub words: Vec<String>,
    pub language: Language,
}

/// A CJK unified ideograph (U+4E00 to U+9FFF) when `han`, else an ASCII letter.
pub open spec fn in_class(c: char, han: bool) -> bool {
    if han {
        0x4e00 <= (c as u32) <= 0x9fff
    } else {
        (0x41 <= (c as u32) <= 0x5a) || (0x61 <= (c as u32) <= 0x7a)
    }
}

/// The number of maximal runs of characters of one class in `s`.
pub open spec fn runs(s: Seq<char>, han: bool) -> nat
    decreases s.len(),
{
    if s.len() == 0 {
        0
    } else {
        let starts = in_class(s.last(), han) && (s.len() == 1 || !in_class(s[s.len() - 2], han));
        runs(s.drop_last(), han) + if starts { 1nat } else { 0nat }
    }
}

/// The language for given counts of ideograph runs and Latin letter runs.
pub open spec fn language_of_counts(han: nat, latin: nat) -> Language {
    if han > 2 * latin {
        Language::Chinese
    } else if latin > 2 * han {
        Language::English
    } else {
        Language::Mixed
    }
}

/// The language detected for a text.
pub open spec fn detected_language(s: Seq<char>) -> Language {
    language_of_counts(runs(s, true), runs(s, false))
}

/// Whether `s` holds a CJK unified ideograph.
pub open spec fn has_han(s: Seq<char>) -> bool {
    exists|k: int| 0 <= k < s.len() && in_class(#[trigger] s[k], true)
}

/// A token is kept when it has two characters or more, or is a single
/// ideograph.
pub open spec fn keep_token(t: Seq<char>) -> bool {
    t.len() >= 2 || (t.len() == 1 && in_class(t[0], true))
}

/// `t` as a one-token list when it is kept, else the empty list.
pub open spec fn kept(t: Seq<char>) -> Seq<Seq<char>> {
    if keep_token(t) {
        seq![t]
    } else {
        Seq::empty()
    }
}

/// Lower-case each word and keep those that `keep_token` admits.
pub open spec fn english_tokens(words: Seq<Seq<char>>) -> Seq<Seq<char>>
    decreases words.len(),
{
    if words.len() == 0 {
        Seq::empty()
    } else {
        english_tokens(words.drop_last()) + kept(lower_of(words.last()))
    }
}

/// Trim and lower-case each word and keep those that `keep_token` admits.
pub open spec fn chinese_tokens(words: Seq<Seq<char>>) -> Seq<Seq<char>>
    decreases words.len(),
{
    if words.len() == 0 {
        Seq::empty()
    } else {
        chinese_tokens(words.drop_last()) + kept(lower_of(trimmed(words.last())))
    }
}

/// The tokens of a chunk: segmented when it holds an ideograph, else split on
/// word boundaries.
pub open spec fn chunk_tokens(c: Seq<char>) -> Seq<Seq<char>> {
    if has_han(c) {
        chinese_tokens(jieba_cut(c))
    } else {
        english_tokens(unicode_words_of(c))
    }
}

/// The tokens of each chunk, concatenated in order.
pub open spec fn mixed_tokens(chunks: Seq<Seq<char>>) -> Seq<Seq<char>>
    decreases chunks.len(),
{
    if chunks.len() == 0 {
        Seq::empty()
    } else {
        mixed_tokens(chunks.drop_last()) + chunk_tokens(chunks.last())
    }
}

/// The tokens of a text under the strategy of a language.
pub open spec fn tokens_of(s: Seq<char>, language: Language) -> Seq<Seq<char>> {
    match language {
        Language::Chinese => chinese_tokens(jieba_cut(s)),
        Language::English => english_tokens(unicode_words_of(s)),
        Language::Mixed => mixed_tokens(whitespace_chunks(s)),
    }
}

fn in_class_exec(c: char, han: bool) -> (r: bool)
    ensures
        r == in_class(c, han),
{
    let u = c as u32;
    if han {
        0x4e00 <= u && u <= 0x9fff
    } else {
        (0x41 <= u && u <= 0x5a) || (0x61 <= u && u <= 0x7a)
    }
}

/// Counts the maximal runs of one class of characters.
fn count_runs(cs: &Vec<char>, han: bool) -> (r: usize)
    ensures
        r == runs(cs@, han),
{
    let mut count: usize = 0;
    let mut i: usize = 0;
    while i < cs.len()
        invariant
            0 <= i <= cs.len(),
            count == runs(cs@.take(i as int), han),
            count <= i,
        decreases cs.len() - i,
    {
        let cur = in_class_exec(cs[i], han);
        let starts = cur && (i == 0 || !in_class_exec(cs[i - 1], han));
        proof {
            assert(cs@.take(i + 1).drop_last() =~= cs@.take(i as int));
        }
        if starts {
            count = count + 1;
        }
        i = i + 1;
    }
    assert(cs@.take(cs.len() as int) =~= cs@);
    count
}

fn has_han_exec(cs: &Vec<char>) -> (r: bool)
    ensures
        r == has_han(cs@),
{
    let mut i: usize = 0;
    while i < cs.len()
        invariant
            0 <= i <= cs.len(),
            forall|k: int| 0 <= k < i ==> !in_class(#[trigger] cs@[k], true),
        decreases cs.len() - i,
    {
        if in_class_exec(cs[i], true) {
            return true;
        }
        i = i + 1;
    }
    false
}

fn keep_token_exec(t: &String) -> (r: bool)
    ensures
        r == keep_token(t@),
{
    let cs = chars_of(t.as_str());
    cs.len() >= 2 || (cs.len() == 1 && in_class_exec(cs[0], true))
}

/// The tokenizer, holding the Chinese segmenter.
///
/// The segmenter is always built with the default dictionary.
pub struct MultiLanguageTokenizer {
    segmenter: Jieba,
}

impl MultiLanguageTokenizer {
    pub fn new() -> Self {
        MultiLanguageTokenizer { segmenter: Jieba::new() }
    }

    /// Detects the language of `text` and splits it into tokens.
    pub fn tokenize(&self, text: &str) -> (r: TokenizedText)
        ensures
            r.language == detected_language(text@),
            views(r.words@) == tokens_of(text@, r.language),
    {
        let language = self.detect_language(text);
        let words = match language {
            Language::Chinese => self.tokenize_chinese(text),
            Language::English => self.tokenize_english(text),
            Language::Mixed => self.tokenize_mixed(text),
        };
        TokenizedText { words, language }
    }

    /// Chinese when ideograph runs outnumber Latin letter runs more than
    /// twice over, English in the opposite case, else Mixed.
    pub fn detect_language(&self, text: &str) -> (r: Language)
        ensures
            r == detected_language(text@),
    {
        let cs = chars_of(text);
        let han = count_runs(&cs, true);
        let latin = count_runs(&cs, false);
        if han as u128 > 2 * (latin as u128) {
            Language::Chinese
        } else if latin as u128 > 2 * (han as u128) {
            Language::English
        } else {
            Language::Mixed
        }
    }

    fn tokenize_chinese(&self, text: &str) -> (r: Vec<String>)
        ensures
            views(r@) == chinese_tokens(jieba_cut(text@)),
    {
        let pieces = segment(&self.segmenter, text);
        let mut out: Vec<String> = Vec::new();
        let mut i: usize = 0;
        while i < pieces.len()
            invariant
                0 <= i <= pieces.len(),
                views(pieces@) == jieba_cut(text@),
                views(out@) == chinese_tokens(views(pieces@).take(i as int)),
            decreases pieces.len() - i,
        {
            let t = lowercase(trim_text(pieces[i].as_str()));
            proof {
                let ws = views(pieces@);
                assert(ws.take(i + 1).drop_last() =~= ws.take(i as int));
                assert(ws.take(i + 1).last() == pieces@[i as int]@);
            }
            if keep_token_exec(&t) {
                proof {
                    assert(views(out@.push(t)) =~= views(out@) + seq![t@]);
                }
                out.push(t);
            } else {
                proof {
                    assert(views(out@) =~= views(out@) + Seq::<Seq<char>>::empty());
                }
            }
            i = i + 1;
        }
        assert(views(pieces@).take(pieces.len() as int) =~= views(pieces@));
        out
    }

    fn tokenize_english(&self, text: &str) -> (r: Vec<String>)
        ensures
            views(r@) == english_tokens(unicode_words_of(text@)),
    {
        let pieces = split_words(text);
        let mut out: Vec<String> = Vec::new();
        let mut i: usize = 0;
        while i < pieces.len()
            invariant
                0 <= i <= pieces.len(),
                views(pieces@) == unicode_words_of(text@),
                views(out@) == english_tokens(views(pieces@).take(i as int)),
            decreases pieces.len() - i,
        {
            let t = lowercase(pieces[i].as_str());
            proof {
                let ws = views(pieces@);
                assert(ws.take(i + 1).drop_last() =~= ws.take(i as int));
                assert(ws.take(i + 1).last() == pieces@[i as int]@);
            }
            if keep_token_exec(&t) {
                proof {
                    assert(views(out@.push(t)) =~= views(out@) + seq![t@]);
                }
                out.push(t);
            } else {
                proof {
                    assert(views(out@) =~= views(out@) + Seq::<Seq<char>>::empty());
                }
            }
            i = i + 1;
        }
        assert(views(pieces@).take(pieces.len() as int) =~= views(pieces@));
        out
    }

    fn tokenize_mixed(&self, text: &str) -> (r: Vec<String>)
        ensures
            views(r@) == mixed_tokens(whitespace_chunks(text@)),
    {
        let chunks = split_chunks(text);
        let mut out: Vec<String> = Vec::new();
        let mut i: usize = 0;
        while i < chunks.len()
            invariant
                0 <= i <= chunks.len(),
                views(chunks@) == whitespace_chunks(text@),
                views(out@) == mixed_tokens(views(chunks@).take(i as int)),
            decreases chunks.len() - i,
        {
            let chunk = chunks[i].as_str();
            let cs = chars_of(chunk);
            let mut part = if has_han_exec(&cs) {
                self.tokenize_chinese(chunk)
            } else {
                self.tokenize_english(chunk)
            };
            proof {
                let ws = views(chunks@);
                assert(ws.take(i + 1).drop_last() =~= ws.take(i as int));
                assert(ws.take(i + 1).last() == chunks@[i as int]@);
            }
            let ghost before = out@;
            let ghost added = part@;
            out.append(&mut part);
            proof {
                assert(out@ == before + added);
                assert(views(before + added) =~= views(before) + views(added));
            }
            i = i + 1;
        }
        assert(views(chunks@).take(chunks.len() as int) =~= views(chunks@));
        out
    }
}

} // verus!
