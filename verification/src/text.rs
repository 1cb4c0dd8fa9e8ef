//! Operations on short texts: replacing a pattern, splitting into words,
//! lower case for ASCII letters.

use vstd::prelude::*;
use vstd::string::StrSliceExecFns;

verus! {

/// `s` with every occurrence of `from` replaced by `to`. Occurrences are
/// found from left to right and do not overlap; an empty `from` occurs
/// nowhere.
pub open spec fn replaced(s: Seq<char>, from: Seq<char>, to: Seq<char>) -> Seq<char>
    decreases s.len(),
{
    if from.len() == 0 || s.len() < from.len() {
        s
    } else if s.subrange(0, from.len() as int) == from {
        to + replaced(s.subrange(from.len() as int, s.len() as int), from, to)
    } else {
        seq![s[0]] + replaced(s.subrange(1, s.len() as int), from, to)
    }
}

/// The characters that separate words: space, tab, line feed, form feed and
/// carriage return.
pub open spec fn is_space(c: char) -> bool {
    c == ' ' || c == '\u{9}' || c == '\u{a}' || c == '\u{c}' || c == '\u{d}'
}

/// The characters with the Unicode property `White_Space`.
pub open spec fn is_white_space(c: char) -> bool {
    ('\u{9}' <= c && c <= '\u{d}') || c == ' ' || c == '\u{85}' || c == '\u{a0}' || c
        == '\u{1680}' || ('\u{2000}' <= c && c <= '\u{200a}') || c == '\u{2028}' || c
        == '\u{2029}' || c == '\u{202f}' || c == '\u{205f}' || c == '\u{3000}'
}

/// Whether a character separates words: by the Unicode property where
/// `unicode` says so, and else by the ASCII rule.
pub open spec fn separates(c: char, unicode: bool) -> bool {
    if unicode {
        is_white_space(c)
    } else {
        is_space(c)
    }
}

/// The state of a scan for words after the characters of `s`: the words that
/// are complete, and the characters of the word that is open.
pub open spec fn scanned(s: Seq<char>, unicode: bool) -> (Seq<Seq<char>>, Seq<char>)
    decreases s.len(),
{
    if s.len() == 0 {
        (Seq::empty(), Seq::empty())
    } else {
        let (done, open) = scanned(s.drop_last(), unicode);
        if separates(s.last(), unicode) {
            if open.len() > 0 {
                (done.push(open), Seq::empty())
            } else {
                (done, open)
            }
        } else {
            (done, open.push(s.last()))
        }
    }
}

/// The words of `s`: its longest runs of characters that do not separate
/// words, in their order.
pub open spec fn split(s: Seq<char>, unicode: bool) -> Seq<Seq<char>> {
    let (done, open) = scanned(s, unicode);
    if open.len() > 0 {
        done.push(open)
    } else {
        done
    }
}

/// The words of `s` by the ASCII rule.
pub open spec fn words(s: Seq<char>) -> Seq<Seq<char>> {
    split(s, false)
}

/// A run: a text that is not empty and holds no separator.
pub open spec fn is_run(w: Seq<char>, unicode: bool) -> bool {
    w.len() > 0 && forall|j: int| 0 <= j < w.len() ==> !separates(#[trigger] w[j], unicode)
}

/// No word is empty and none holds a separator.
pub proof fn law_words_are_runs(s: Seq<char>, unicode: bool)
    ensures
        forall|i: int|
            0 <= i < split(s, unicode).len() ==> is_run(#[trigger] split(s, unicode)[i], unicode),
{
    lemma_scanned_are_runs(s, unicode);
}

proof fn lemma_scanned_are_runs(s: Seq<char>, unicode: bool)
    ensures
        forall|i: int|
            0 <= i < scanned(s, unicode).0.len() ==> is_run(
                #[trigger] scanned(s, unicode).0[i],
                unicode,
            ),
        forall|j: int|
            0 <= j < scanned(s, unicode).1.len() ==> !separates(
                #[trigger] scanned(s, unicode).1[j],
                unicode,
            ),
    decreases s.len(),
{
    if s.len() > 0 {
        lemma_scanned_are_runs(s.drop_last(), unicode);
        let (done, open) = scanned(s.drop_last(), unicode);
        if separates(s.last(), unicode) {
            if open.len() > 0 {
                assert(is_run(open, unicode));
                assert forall|i: int| 0 <= i < done.push(open).len() implies is_run(
                    #[trigger] done.push(open)[i],
                    unicode,
                ) by {
                    if i < done.len() {
                        assert(done.push(open)[i] == done[i]);
                    }
                }
            }
        } else {
            assert forall|j: int| 0 <= j < open.push(s.last()).len() implies !separates(
                #[trigger] open.push(s.last())[j],
                unicode,
            ) by {
                if j < open.len() {
                    assert(open.push(s.last())[j] == open[j]);
                }
            }
        }
    }
}

/// The lower-case form of an ASCII capital letter; every other character is
/// left as it is.
pub open spec fn lower_char(c: char) -> char {
    if 'A' <= c && c <= 'Z' {
        ((c as u8) + 32) as char
    } else {
        c
    }
}

/// `s` with its ASCII capital letters in lower case.
pub open spec fn lowered(s: Seq<char>) -> Seq<char> {
    Seq::new(s.len(), |i: int| lower_char(s[i]))
}

/// Calls `String::push`, which appends one character to a string.
#[verifier::external_body]
fn push_char(s: &mut String, c: char)
    ensures
        final(s)@ == old(s)@.push(c),
{
    s.push(c)
}

/// The characters of a text.
pub fn to_chars(s: &str) -> (chars: Vec<char>)
    ensures
        chars@ == s@,
{
    let n = s.unicode_len();
    let mut chars: Vec<char> = Vec::new();
    let mut i: usize = 0;
    while i < n
        invariant
            i <= n,
            n == s@.len(),
            chars@ == s@.take(i as int),
        decreases n - i,
    {
        chars.push(s.get_char(i));
        i += 1;
        assert(chars@ =~= s@.take(i as int));
    }
    assert(s@.take(n as int) =~= s@);
    chars
}

/// The text with these characters.
pub fn from_chars(chars: &Vec<char>) -> (s: String)
    ensures
        s@ == chars@,
{
    let mut s = String::new();
    let mut i: usize = 0;
    while i < chars.len()
        invariant
            i <= chars@.len(),
            s@ == chars@.take(i as int),
        decreases chars@.len() - i,
    {
        push_char(&mut s, chars[i]);
        i += 1;
        assert(s@ =~= chars@.take(i as int));
    }
    assert(chars@.take(chars@.len() as int) =~= chars@);
    s
}

fn matches_at(s: &Vec<char>, at: usize, pattern: &Vec<char>) -> (found: bool)
    requires
        at + pattern@.len() <= s@.len(),
    ensures
        found == (s@.subrange(at as int, at + pattern@.len()) == pattern@),
{
    let n = s.len();
    let mut k: usize = 0;
    while k < pattern.len()
        invariant
            k <= pattern@.len(),
            n == s@.len(),
            at + pattern@.len() <= s@.len(),
            forall|j: int| 0 <= j < k ==> s@[at + j] == pattern@[j],
        decreases pattern@.len() - k,
    {
        if s[at + k] != pattern[k] {
            assert(s@.subrange(at as int, at + pattern@.len())[k as int] != pattern@[k as int]);
            return false;
        }
        k += 1;
    }
    assert(s@.subrange(at as int, at + pattern@.len()) =~= pattern@);
    true
}

/// Replaces every occurrence of `from` in `s` by `to`.
pub fn replace(s: &str, from: &str, to: &str) -> (out: String)
    ensures
        out@ == replaced(s@, from@, to@),
{
    let text = to_chars(s);
    let pattern = to_chars(from);
    let with = to_chars(to);
    if pattern.len() == 0 {
        return s.to_owned();
    }
    let mut out: Vec<char> = Vec::new();
    let mut i: usize = 0;
    proof {
        assert(text@.subrange(0, text@.len() as int) =~= text@);
        assert(out@ + replaced(text@, pattern@, with@) =~= replaced(text@, pattern@, with@));
    }
    while i < text.len()
        invariant
            i <= text@.len(),
            pattern@.len() > 0,
            out@ + replaced(text@.subrange(i as int, text@.len() as int), pattern@, with@)
                == replaced(text@, pattern@, with@),
        decreases text@.len() - i,
    {
        let ghost rest = text@.subrange(i as int, text@.len() as int);
        if text.len() - i < pattern.len() {
            let ghost before = out@;
            out.push(text[i]);
            proof {
                assert(rest.len() < pattern@.len());
                let tail = text@.subrange(i + 1, text@.len() as int);
                assert(replaced(rest, pattern@, with@) == rest);
                assert(replaced(tail, pattern@, with@) == tail);
                assert(seq![text@[i as int]] + tail =~= rest);
                assert(before + seq![text@[i as int]] =~= out@);
                assert(out@ + tail =~= before + rest);
            }
            i += 1;
        } else if matches_at(&text, i, &pattern) {
            let mut k: usize = 0;
            let ghost before = out@;
            while k < with.len()
                invariant
                    k <= with@.len(),
                    out@ == before + with@.take(k as int),
                decreases with@.len() - k,
            {
                out.push(with[k]);
                k += 1;
                assert(out@ =~= before + with@.take(k as int));
            }
            proof {
                assert(with@.take(with@.len() as int) =~= with@);
                assert(rest.subrange(0, pattern@.len() as int) =~= text@.subrange(
                    i as int,
                    i + pattern@.len(),
                ));
                let tail = text@.subrange(i + pattern@.len(), text@.len() as int);
                assert(rest.subrange(pattern@.len() as int, rest.len() as int) =~= tail);
                assert(replaced(rest, pattern@, with@) == with@ + replaced(tail, pattern@, with@));
                assert(out@ + replaced(tail, pattern@, with@) =~= before + replaced(
                    rest,
                    pattern@,
                    with@,
                ));
            }
            i += pattern.len();
        } else {
            let ghost before = out@;
            out.push(text[i]);
            proof {
                assert(rest.subrange(0, pattern@.len() as int) =~= text@.subrange(
                    i as int,
                    i + pattern@.len(),
                ));
                let tail = text@.subrange(i + 1, text@.len() as int);
                assert(rest.subrange(1, rest.len() as int) =~= tail);
                assert(rest[0] == text@[i as int]);
                assert(replaced(rest, pattern@, with@) == seq![rest[0]] + replaced(
                    tail,
                    pattern@,
                    with@,
                ));
                assert(out@ + replaced(tail, pattern@, with@) =~= before + replaced(
                    rest,
                    pattern@,
                    with@,
                ));
            }
            i += 1;
        }
    }
    proof {
        let rest = text@.subrange(i as int, text@.len() as int);
        assert(rest.len() == 0);
        assert(replaced(rest, pattern@, with@) == rest);
        assert(out@ + rest =~= out@);
    }
    from_chars(&out)
}

fn is_separator(c: char, unicode: bool) -> (separator: bool)
    ensures
        separator == separates(c, unicode),
{
    if unicode {
        ('\u{9}' <= c && c <= '\u{d}') || c == ' ' || c == '\u{85}' || c == '\u{a0}' || c
            == '\u{1680}' || ('\u{2000}' <= c && c <= '\u{200a}') || c == '\u{2028}' || c
            == '\u{2029}' || c == '\u{202f}' || c == '\u{205f}' || c == '\u{3000}'
    } else {
        c == ' ' || c == '\u{9}' || c == '\u{a}' || c == '\u{c}' || c == '\u{d}'
    }
}

fn split_words(s: &str, unicode: bool) -> (parts: Vec<String>)
    ensures
        parts@.len() == split(s@, unicode).len(),
        forall|i: int| 0 <= i < parts@.len() ==> (#[trigger] parts@[i])@ == split(s@, unicode)[i],
{
    let text = to_chars(s);
    let mut parts: Vec<String> = Vec::new();
    let mut open: Vec<char> = Vec::new();
    let mut i: usize = 0;
    while i < text.len()
        invariant
            i <= text@.len(),
            open@ == scanned(text@.take(i as int), unicode).1,
            parts@.len() == scanned(text@.take(i as int), unicode).0.len(),
            forall|j: int|
                0 <= j < parts@.len() ==> (#[trigger] parts@[j])@ == scanned(
                    text@.take(i as int),
                    unicode,
                ).0[j],
        decreases text@.len() - i,
    {
        let c = text[i];
        proof {
            let next = text@.take(i + 1);
            assert(next.drop_last() =~= text@.take(i as int));
            assert(next.last() == c);
        }
        if is_separator(c, unicode) {
            if open.len() > 0 {
                parts.push(from_chars(&open));
                open = Vec::new();
            }
        } else {
            open.push(c);
        }
        i += 1;
    }
    proof {
        assert(text@.take(i as int) =~= text@);
    }
    if open.len() > 0 {
        parts.push(from_chars(&open));
    }
    parts
}

/// The words of a text, split at spaces, tabs, line feeds, form feeds and
/// carriage returns.
pub fn split_ascii_whitespace(s: &str) -> (parts: Vec<String>)
    ensures
        parts@.len() == words(s@).len(),
        forall|i: int| 0 <= i < parts@.len() ==> (#[trigger] parts@[i])@ == words(s@)[i],
{
    split_words(s, false)
}

/// The words of a text, split at the characters with the Unicode property
/// `White_Space`.
pub fn split_whitespace(s: &str) -> (parts: Vec<String>)
    ensures
        parts@.len() == split(s@, true).len(),
        forall|i: int| 0 <= i < parts@.len() ==> (#[trigger] parts@[i])@ == split(s@, true)[i],
{
    split_words(s, true)
}

/// The text with its ASCII capital letters in lower case.
pub fn to_ascii_lowercase(s: &str) -> (out: String)
    ensures
        out@ == lowered(s@),
{
    let text = to_chars(s);
    let mut out: Vec<char> = Vec::new();
    let mut i: usize = 0;
    while i < text.len()
        invariant
            i <= text@.len(),
            out@ == lowered(text@.take(i as int)),
        decreases text@.len() - i,
    {
        let c = text[i];
        let lower = if 'A' <= c && c <= 'Z' {
            ((c as u8) + 32) as char
        } else {
            c
        };
        out.push(lower);
        i += 1;
        assert(out@ =~= lowered(text@.take(i as int)));
    }
    assert(text@.take(i as int) =~= text@);
    from_chars(&out)
}

} // verus!
