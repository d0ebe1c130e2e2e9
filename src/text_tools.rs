//! Text utilities beside the sentiment pipeline: word frequencies, email
//! extraction and text cleanup.
use vstd::prelude::*;
use crate::sentiment::text::{chars_of, is_whitespace, lower_of, lowercase, same_text, trim_text, trimmed, views, whitespace};

verus! {

/// Words: runs of word characters and apostrophes.
pub const WORD_PATTERN: &'static str = "[\\w']+";

/// Email-shaped substrings.
pub const EMAIL_PATTERN: &'static str = "\\b[A-Za-z0-9._%+-]+@[A-Za-z0-9.-]+\\.[A-Z|a-z]{2,}\\b";

/// What the `regex` crate finds for a pattern in a text: the matched
/// substrings in order, or nothing when the pattern does not compile.
pub uninterp spec fn regex_find_all(pattern: Seq<char>, text: Seq<char>) -> Option<Seq<Seq<char>>>;

/// Relies on `regex::Regex::new` and `Regex::find_iter`: the pattern
/// compiles or not, and the successive non-overlapping matches, depend on
/// the pattern and the text alone.
#[verifier::external_body]
fn find_all(pattern: &str, text: &str) -> (r: Option<Vec<String>>)
    ensures
        regex_find_all(pattern@, text@) == match r {
            Some(v) => Some(views(v@)),
            None => None::<Seq<Seq<char>>>,
        },
{
    regex::Regex::new(pattern).ok().map(|re| re.find_iter(text).map(|m| m.as_str().to_string()).collect())
}

/// The matches of a pattern, none when it does not compile.
pub open spec fn matches_or_none(pattern: Seq<char>, text: Seq<char>) -> Seq<Seq<char>> {
    match regex_find_all(pattern, text) {
        Some(ms) => ms,
        None => Seq::empty(),
    }
}

/// How many entries of `ws` equal `w`.
pub open spec fn occurrences(ws: Seq<Seq<char>>, w: Seq<char>) -> nat
    decreases ws.len(),
{
    if ws.len() == 0 {
        0
    } else {
        occurrences(ws.drop_last(), w) + if ws.last() == w { 1nat } else { 0nat }
    }
}

/// `r` counts the words of `ws`: each entry is a distinct word of `ws` with
/// its number of occurrences, and every word of `ws` has an entry.
pub open spec fn is_tally(r: Seq<(String, usize)>, ws: Seq<Seq<char>>) -> bool {
    &&& forall|k: int| 0 <= k < r.len() ==> (#[trigger] r[k]).1 == occurrences(ws, r[k].0@) && r[k].1 >= 1
    &&& forall|k: int, l: int| 0 <= k < l < r.len() ==> (#[trigger] r[k]).0@ != (#[trigger] r[l]).0@
    &&& forall|j: int| 0 <= j < ws.len() ==> exists|k: int| 0 <= k < r.len() && (#[trigger] r[k]).0@ == #[trigger] ws[j]
}

/// Each word of `words` with its number of occurrences, in order of first occurrence.
pub fn tally(words: &Vec<String>) -> (r: Vec<(String, usize)>)
    ensures
        is_tally(r@, views(words@)),
{
    let ghost ws = views(words@);
    let mut r: Vec<(String, usize)> = Vec::new();
    let mut i: usize = 0;
    while i < words.len()
        invariant
            0 <= i <= words@.len(),
            ws == views(words@),
            r@.len() <= i,
            is_tally(r@, ws.take(i as int)),
        decreases words@.len() - i,
    {
        let ghost pre = ws.take(i as int);
        let ghost cur = ws.take(i + 1);
        assert(cur.drop_last() =~= pre);
        assert(cur.last() == words@[i as int]@);
        let w = words[i].as_str();
        let mut j: usize = 0;
        while j < r.len()
            invariant
                0 <= j <= r@.len(),
                w@ == ws[i as int],
                forall|m: int| 0 <= m < j ==> (#[trigger] r@[m]).0@ != w@,
            ensures
                0 <= j <= r@.len(),
                j < r@.len() ==> r@[j as int].0@ == w@,
                forall|m: int| 0 <= m < j ==> (#[trigger] r@[m]).0@ != w@,
            decreases r@.len() - j,
        {
            if same_text(r[j].0.as_str(), w) {
                break;
            }
            j = j + 1;
        }
        let ghost old_r = r@;
        if j < r.len() {
            assert(r@[j as int].0@ == w@);
            let key = r[j].0.clone();
            let n = r[j].1;
            proof {
                lemma_occurrences_bound(pre, w@);
            }
            r.set(j, (key, n + 1));
            assert forall|k: int| 0 <= k < r@.len() implies (#[trigger] r@[k]).1 == occurrences(cur, r@[k].0@) && r@[k].1 >= 1 by {
                if k != j {
                    assert(r@[k] == old_r[k]);
                    assert(old_r[k].0@ != old_r[j as int].0@);
                }
            }
            assert forall|k: int, l: int| 0 <= k < l < r@.len() implies (#[trigger] r@[k]).0@ != (#[trigger] r@[l]).0@ by {
                assert(old_r[k].0@ != old_r[l].0@);
            }
            assert forall|jj: int| 0 <= jj < cur.len() implies exists|k: int| 0 <= k < r@.len() && (#[trigger] r@[k]).0@ == #[trigger] cur[jj] by {
                if jj < i {
                    assert(cur[jj] == pre[jj]);
                    let k = choose|k: int| 0 <= k < old_r.len() && (#[trigger] old_r[k]).0@ == pre[jj];
                    assert(r@[k].0@ == cur[jj]);
                } else {
                    assert(r@[j as int].0@ == cur[jj]);
                }
            }
        } else {
            let key = words[i].clone();
            r.push((key, 1));
            assert forall|k: int| 0 <= k < r@.len() implies (#[trigger] r@[k]).1 == occurrences(cur, r@[k].0@) && r@[k].1 >= 1 by {
                if k < old_r.len() {
                    assert(r@[k] == old_r[k]);
                } else {
                    assert(occurrences(pre, w@) == 0) by {
                        lemma_absent(pre, w@, old_r);
                    }
                }
            }
            assert forall|k: int, l: int| 0 <= k < l < r@.len() implies (#[trigger] r@[k]).0@ != (#[trigger] r@[l]).0@ by {
                if l < old_r.len() {
                    assert(old_r[k].0@ != old_r[l].0@);
                }
            }
            assert forall|jj: int| 0 <= jj < cur.len() implies exists|k: int| 0 <= k < r@.len() && (#[trigger] r@[k]).0@ == #[trigger] cur[jj] by {
                if jj < i {
                    assert(cur[jj] == pre[jj]);
                    let k = choose|k: int| 0 <= k < old_r.len() && (#[trigger] old_r[k]).0@ == pre[jj];
                    assert(r@[k].0@ == cur[jj]);
                } else {
                    assert(r@[old_r.len() as int].0@ == cur[jj]);
                }
            }
        }
        i = i + 1;
    }
    assert(ws.take(words@.len() as int) =~= ws);
    r
}

proof fn lemma_occurrences_bound(ws: Seq<Seq<char>>, w: Seq<char>)
    ensures
        occurrences(ws, w) <= ws.len(),
    decreases ws.len(),
{
    if ws.len() > 0 {
        lemma_occurrences_bound(ws.drop_last(), w);
    }
}

/// A word that no entry of a tally holds does not occur.
proof fn lemma_absent(ws: Seq<Seq<char>>, w: Seq<char>, r: Seq<(String, usize)>)
    requires
        is_tally(r, ws),
        forall|m: int| 0 <= m < r.len() ==> (#[trigger] r[m]).0@ != w,
    ensures
        occurrences(ws, w) == 0,
{
    assert forall|j: int| 0 <= j < ws.len() implies ws[j] != w by {
        let k = choose|k: int| 0 <= k < r.len() && (#[trigger] r[k]).0@ == ws[j];
    }
    lemma_absent_prefix(ws, w);
}

/// When no entry of `ws` equals `w`, `w` occurs nowhere.
proof fn lemma_absent_prefix(ws: Seq<Seq<char>>, w: Seq<char>)
    requires
        forall|j: int| 0 <= j < ws.len() ==> ws[j] != w,
    ensures
        occurrences(ws, w) == 0,
    decreases ws.len(),
{
    if ws.len() > 0 {
        lemma_absent_prefix(ws.drop_last(), w);
    }
}


/// Each match lower-cased.
pub open spec fn lowered(ms: Seq<Seq<char>>) -> Seq<Seq<char>> {
    ms.map_values(|m: Seq<char>| lower_of(m))
}

/// The frequency of each lower-cased word of `text`.
pub fn count_words(text: &str) -> (r: Vec<(String, usize)>)
    ensures
        is_tally(r@, lowered(matches_or_none(WORD_PATTERN@, text@))),
{
    let ms = match find_all(WORD_PATTERN, text) {
        Some(v) => v,
        None => Vec::new(),
    };
    let ghost target = lowered(views(ms@));
    let mut words: Vec<String> = Vec::new();
    let mut i: usize = 0;
    while i < ms.len()
        invariant
            0 <= i <= ms@.len(),
            views(words@) =~= target.take(i as int),
            target == lowered(views(ms@)),
        decreases ms@.len() - i,
    {
        let w = lowercase(ms[i].as_str());
        let ghost before = words@;
        words.push(w);
        proof {
            assert(views(words@) =~= views(before).push(w@));
            assert(target.take(i + 1) =~= target.take(i as int).push(target[i as int]));
            assert(target[i as int] == lower_of(ms@[i as int]@));
        }
        i = i + 1;
    }
    assert(target.take(ms@.len() as int) =~= target);
    tally(&words)
}

/// The email-shaped substrings of `text`, in order.
pub fn extract_emails(text: &str) -> (r: Vec<String>)
    ensures
        views(r@) == matches_or_none(EMAIL_PATTERN@, text@),
{
    match find_all(EMAIL_PATTERN, text) {
        Some(v) => v,
        None => Vec::new(),
    }
}

/// The lines of a text, as `str::lines` gives them.
pub uninterp spec fn lines_of(s: Seq<char>) -> Seq<Seq<char>>;

/// Relies on `str::lines`: the lines depend on the text alone.
#[verifier::external_body]
fn split_lines(text: &str) -> (r: Vec<String>)
    ensures
        views(r@) == lines_of(text@),
{
    text.lines().map(|l| l.to_string()).collect()
}

/// Whether `char::is_alphanumeric` holds of a character.
pub uninterp spec fn alphanumeric(c: char) -> bool;

/// Relies on `char::is_alphanumeric`.
#[verifier::external_body]
fn is_alphanumeric(c: char) -> (r: bool)
    ensures
        r == alphanumeric(c),
{
    c.is_alphanumeric()
}

/// Relies on collecting characters into a `String`, in order.
#[verifier::external_body]
fn string_from_chars(v: &Vec<char>) -> (r: String)
    ensures
        r@ == v@,
{
    v.iter().collect()
}

/// The characters that cleanup keeps: alphanumerics, whitespace and `.,!?`.
pub open spec fn keep_char(c: char) -> bool {
    alphanumeric(c) || whitespace(c) || c == '.' || c == ',' || c == '!' || c == '?'
}

/// The characters of `s` that cleanup keeps, in order.
pub open spec fn cleaned(s: Seq<char>) -> Seq<char>
    decreases s.len(),
{
    if s.len() == 0 {
        Seq::empty()
    } else {
        cleaned(s.drop_last()) + if keep_char(s.last()) { seq![s.last()] } else { Seq::empty() }
    }
}

/// Lines joined with a newline between each two.
pub open spec fn joined(ls: Seq<Seq<char>>) -> Seq<char>
    decreases ls.len(),
{
    if ls.len() == 0 {
        Seq::empty()
    } else if ls.len() == 1 {
        ls[0]
    } else {
        joined(ls.drop_last()) + seq!['\n'] + ls.last()
    }
}

/// Each line trimmed and cleaned.
pub open spec fn cleaned_lines(ls: Seq<Seq<char>>) -> Seq<Seq<char>> {
    ls.map_values(|l: Seq<char>| cleaned(trimmed(l)))
}

/// One line trimmed, keeping only alphanumerics, whitespace and `.,!?`.
pub fn clean_line(line: &str) -> (r: Vec<char>)
    ensures
        r@ == cleaned(trimmed(line@)),
{
    let cs = chars_of(trim_text(line));
    let mut out: Vec<char> = Vec::new();
    let mut i: usize = 0;
    while i < cs.len()
        invariant
            0 <= i <= cs@.len(),
            out@ == cleaned(cs@.take(i as int)),
        decreases cs@.len() - i,
    {
        let c = cs[i];
        proof {
            assert(cs@.take(i + 1).drop_last() =~= cs@.take(i as int));
        }
        if is_alphanumeric(c) || is_whitespace(c) || c == '.' || c == ',' || c == '!' || c == '?' {
            out.push(c);
        } else {
            assert(out@ =~= out@ + Seq::<char>::empty());
        }
        i = i + 1;
    }
    assert(cs@.take(cs@.len() as int) =~= cs@);
    out
}

/// The text with each line trimmed and cleaned, lines joined by newlines.
pub fn clean_text(text: &str) -> (r: String)
    ensures
        r@ == joined(cleaned_lines(lines_of(text@))),
{
    let lines = split_lines(text);
    let ghost cls = cleaned_lines(views(lines@));
    let mut out: Vec<char> = Vec::new();
    let mut i: usize = 0;
    while i < lines.len()
        invariant
            0 <= i <= lines@.len(),
            cls == cleaned_lines(views(lines@)),
            out@ == joined(cls.take(i as int)),
        decreases lines@.len() - i,
    {
        let ghost before = out@;
        if i > 0 {
            out.push('\n');
        }
        let mut cl = clean_line(lines[i].as_str());
        proof {
            assert(cls.take(i + 1).drop_last() =~= cls.take(i as int));
            assert(cls.take(i + 1).last() == cl@);
        }
        out.append(&mut cl);
        proof {
            if i == 0 {
                assert(out@ =~= cls.take(1)[0]);
            } else {
                assert(out@ =~= before + seq!['\n'] + cls.take(i + 1).last());
            }
        }
        i = i + 1;
    }
    assert(cls.take(lines@.len() as int) =~= cls);
    string_from_chars(&out)
}

} // verus!
