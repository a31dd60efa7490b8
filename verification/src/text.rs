//! Character-level helpers that the value parsers share: whitespace,
//! word splitting and comparison of text.

use vstd::prelude::*;

verus! {

/// Whether `c` carries the Unicode property `White_Space`.
pub open spec fn is_whitespace(c: char) -> bool {
    ||| '\u{9}' <= c <= '\u{D}'
    ||| c == ' '
    ||| c == '\u{85}'
    ||| c == '\u{A0}'
    ||| c == '\u{1680}'
    ||| '\u{2000}' <= c <= '\u{200A}'
    ||| c == '\u{2028}'
    ||| c == '\u{2029}'
    ||| c == '\u{202F}'
    ||| c == '\u{205F}'
    ||| c == '\u{3000}'
}

/// Length of the longest prefix of `s` that holds no whitespace.
pub open spec fn word_len(s: Seq<char>) -> nat
    decreases s.len(),
{
    if s.len() == 0 || is_whitespace(s[0]) {
        0
    } else {
        1 + word_len(s.skip(1))
    }
}

/// The maximal runs of characters without whitespace in `s`, first to last.
pub open spec fn words(s: Seq<char>) -> Seq<Seq<char>>
    decreases s.len(),
    via words_decreases
{
    if s.len() == 0 {
        Seq::empty()
    } else if is_whitespace(s[0]) {
        words(s.skip(1))
    } else {
        seq![s.take(word_len(s) as int)] + words(s.skip(word_len(s) as int))
    }
}

#[via_fn]
proof fn words_decreases(s: Seq<char>) {
    lemma_word_len_bounds(s);
}

/// A word is never longer than the text it starts, and is not empty
/// where the text starts without whitespace.
pub proof fn lemma_word_len_bounds(s: Seq<char>)
    ensures
        word_len(s) <= s.len(),
        s.len() > 0 && !is_whitespace(s[0]) ==> word_len(s) >= 1,
    decreases s.len(),
{
    if s.len() > 0 && !is_whitespace(s[0]) {
        lemma_word_len_bounds(s.skip(1));
    }
}

/// A run of `len` characters without whitespace that ends the text, or is
/// followed by whitespace, is the first word.
pub proof fn lemma_word_len_of_run(s: Seq<char>, len: int)
    requires
        0 <= len <= s.len(),
        forall|k: int| 0 <= k < len ==> !is_whitespace(#[trigger] s[k]),
        len == s.len() || is_whitespace(s[len]),
    ensures
        word_len(s) == len,
    decreases len,
{
    if len > 0 {
        let t = s.skip(1);
        assert forall|k: int| 0 <= k < len - 1 implies !is_whitespace(#[trigger] t[k]) by {
            assert(t[k] == s[k + 1]);
        }
        lemma_word_len_of_run(t, len - 1);
    }
}

/// The first word holds no whitespace.
pub proof fn lemma_word_holds_no_whitespace(s: Seq<char>, k: int)
    requires
        0 <= k < word_len(s),
    ensures
        k < s.len(),
        !is_whitespace(s[k]),
    decreases s.len(),
{
    if k > 0 {
        lemma_word_holds_no_whitespace(s.skip(1), k - 1);
        assert(s.skip(1)[k - 1] == s[k]);
    }
}

/// Every word is a run of characters without whitespace, and not empty.
pub proof fn lemma_words_are_words(s: Seq<char>, i: int)
    requires
        0 <= i < words(s).len(),
    ensures
        words(s)[i].len() > 0,
        forall|k: int| 0 <= k < words(s)[i].len() ==> !is_whitespace(#[trigger] words(s)[i][k]),
    decreases s.len(),
{
    if s.len() > 0 {
        if is_whitespace(s[0]) {
            lemma_words_are_words(s.skip(1), i);
        } else {
            lemma_word_len_bounds(s);
            let n = word_len(s) as int;
            if i == 0 {
                let word = s.take(n);
                assert(words(s)[0] == word);
                assert forall|k: int| 0 <= k < word.len() implies !is_whitespace(
                    #[trigger] word[k],
                ) by {
                    lemma_word_holds_no_whitespace(s, k);
                }
            } else {
                assert(words(s)[i] == words(s.skip(n))[i - 1]);
                lemma_words_are_words(s.skip(n), i - 1);
            }
        }
    }
}

/// ASCII letters in upper case count as their lower-case form; every other
/// character counts as itself.
pub open spec fn fold_case(c: char) -> int {
    if 'A' <= c <= 'Z' {
        c as int + 32
    } else {
        c as int
    }
}

/// Equality of two texts when the case of ASCII letters is ignored.
pub open spec fn eq_ignore_case(a: Seq<char>, b: Seq<char>) -> bool {
    &&& a.len() == b.len()
    &&& forall|i: int| 0 <= i < a.len() ==> fold_case(#[trigger] a[i]) == fold_case(b[i])
}

/// Calls `==` on two string slices, `<str as PartialEq>::eq`: two slices
/// are equal exactly where they hold the same characters.
#[verifier::external_body]
pub(crate) fn str_eq(a: &str, b: &str) -> (r: bool)
    ensures
        r == (a@ == b@),
{
    a == b
}

/// The characters of `text`, in order.
pub fn to_chars(text: &str) -> (chars: Vec<char>)
    ensures
        chars@ == text@,
{
    let mut chars: Vec<char> = Vec::new();
    for c in it: text.chars()
        invariant
            it.seq() == text@,
            chars@ == text@.take(it.index() as int),
    {
        chars.push(c);
    }
    chars
}

pub fn is_whitespace_char(c: char) -> (r: bool)
    ensures
        r == is_whitespace(c),
{
    (c >= '\u{9}' && c <= '\u{D}') || c == ' ' || c == '\u{85}' || c == '\u{A0}' || c == '\u{1680}'
        || (c >= '\u{2000}' && c <= '\u{200A}') || c == '\u{2028}' || c == '\u{2029}' || c
        == '\u{202F}' || c == '\u{205F}' || c == '\u{3000}'
}

fn folded(c: char) -> (n: u32)
    ensures
        n == fold_case(c),
{
    if c >= 'A' && c <= 'Z' {
        c as u32 + 32
    } else {
        c as u32
    }
}

/// Compares two texts, ignoring the case of ASCII letters.
pub fn eq_ignore_ascii_case(a: &[char], b: &[char]) -> (r: bool)
    ensures
        r == eq_ignore_case(a@, b@),
{
    if a.len() != b.len() {
        return false;
    }
    let mut i: usize = 0;
    while i < a.len()
        invariant
            i <= a.len(),
            a.len() == b.len(),
            forall|k: int| 0 <= k < i ==> fold_case(#[trigger] a@[k]) == fold_case(b@[k]),
        decreases a.len() - i,
    {
        if folded(a[i]) != folded(b[i]) {
            return false;
        }
        i += 1;
    }
    true
}

/// Splits `text` at whitespace: the words of `text`, each a slice of it.
pub fn split_whitespace<'a>(text: &'a str) -> (out: Vec<&'a str>)
    ensures
        out.deep_view() == words(text@),
{
    let chars = to_chars(text);
    let n = chars.len();
    let mut out: Vec<&'a str> = Vec::new();
    let mut i: usize = 0;
    assert(text@.skip(0) == text@);
    assert(out.deep_view() == Seq::<Seq<char>>::empty());
    while i < n
        invariant
            i <= n,
            n == chars.len(),
            chars@ == text@,
            words(text@) == out.deep_view() + words(text@.skip(i as int)),
        decreases n - i,
    {
        let ghost rest = text@.skip(i as int);
        if is_whitespace_char(chars[i]) {
            assert(rest.skip(1) == text@.skip(i + 1));
            i += 1;
        } else {
            let start = i;
            let mut j: usize = i + 1;
            while j < n && !is_whitespace_char(chars[j])
                invariant
                    start < j <= n,
                    n == chars.len(),
                    forall|k: int| start <= k < j ==> !is_whitespace(#[trigger] chars@[k]),
                decreases n - j,
            {
                j += 1;
            }
            let word = text.substring_char(start, j);
            proof {
                assert forall|k: int| 0 <= k < j - start implies !is_whitespace(
                    #[trigger] rest[k],
                ) by {
                    assert(rest[k] == chars@[start + k]);
                }
                lemma_word_len_of_run(rest, j - start);
                assert(rest.take(j - start) == word@);
                assert(rest.skip(j - start) == text@.skip(j as int));
            }
            let ghost before = out.deep_view();
            out.push(word);
            assert(out.deep_view() == before.push(word@));
            assert(before.push(word@) + words(text@.skip(j as int)) == before + (seq![word@]
                + words(text@.skip(j as int))));
            i = j;
        }
    }
    assert(words(text@.skip(n as int)) == Seq::<Seq<char>>::empty());
    out
}

} // verus!
