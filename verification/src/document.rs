//! The document: a source text is a sequence of statements, each ending
//! with the brace that closes its block. The order of the statements is the
//! order of the document, and the order in which their rules apply.
//!
//! A statement is found by its braces alone. Comments (`/* .. */`) and
//! quoted texts (`".."`, `'..'`) are passed over as a whole, so that a brace
//! within them does not count; a quote after a backslash does not end a
//! quoted text.

use crate::text::to_chars;
use vstd::prelude::*;

verus! {

/// Where the comment ends whose text starts at `i`: the index after the
/// first `*/` at or after `i`, or the length of `s` where there is none.
pub open spec fn comment_end(s: Seq<char>, i: int) -> int
    decreases s.len() - i,
{
    if i < 0 || i >= s.len() {
        s.len() as int
    } else if s[i] == '*' && i + 1 < s.len() && s[i + 1] == '/' {
        i + 2
    } else {
        comment_end(s, i + 1)
    }
}

/// Where the quoted text ends whose text starts at `i`, after the opening
/// `quote`: the index after the first `quote` at or after `i` that no
/// backslash precedes, or the length of `s` where there is none.
pub open spec fn string_end(s: Seq<char>, i: int, quote: char) -> int
    decreases s.len() - i,
{
    if i < 1 || i >= s.len() {
        s.len() as int
    } else if s[i] == quote && s[i - 1] != '\\' {
        i + 1
    } else {
        string_end(s, i + 1, quote)
    }
}

/// Where the statement ends that is read from `i` on with `depth` braces
/// open: the index after the brace that closes the last of them, or the
/// length of `s` where no brace does. A closing brace with none open ends
/// the statement too.
pub open spec fn block_end(s: Seq<char>, i: int, depth: nat) -> int
    decreases s.len() - i,
    via block_end_decreases
{
    if i < 0 || i >= s.len() {
        s.len() as int
    } else if s[i] == '/' && i + 1 < s.len() && s[i + 1] == '*' {
        block_end(s, comment_end(s, i + 2), depth)
    } else if s[i] == '"' || s[i] == '\'' {
        block_end(s, string_end(s, i + 1, s[i]), depth)
    } else if s[i] == '{' {
        block_end(s, i + 1, depth + 1)
    } else if s[i] == '}' {
        if depth <= 1 {
            i + 1
        } else {
            block_end(s, i + 1, (depth - 1) as nat)
        }
    } else {
        block_end(s, i + 1, depth)
    }
}

#[via_fn]
proof fn block_end_decreases(s: Seq<char>, i: int, depth: nat) {
    if 0 <= i < s.len() {
        if i + 1 < s.len() {
            lemma_comment_end_bounds(s, i + 2);
        }
        lemma_string_end_bounds(s, i + 1, s[i]);
    }
}

/// The statements of `s` from `from` on, first to last.
pub open spec fn statements_from(s: Seq<char>, from: int) -> Seq<Seq<char>>
    decreases s.len() - from,
    via statements_from_decreases
{
    if from < 0 || from >= s.len() {
        Seq::empty()
    } else {
        seq![s.subrange(from, block_end(s, from, 0))] + statements_from(s, block_end(s, from, 0))
    }
}

#[via_fn]
proof fn statements_from_decreases(s: Seq<char>, from: int) {
    if 0 <= from < s.len() {
        lemma_block_end_bounds(s, from, 0);
    }
}

/// The statements of a document, in its order. Put one after another, they
/// are the document.
pub open spec fn statements(s: Seq<char>) -> Seq<Seq<char>> {
    statements_from(s, 0)
}

/// A comment ends at or after the place where its text starts.
pub proof fn lemma_comment_end_bounds(s: Seq<char>, i: int)
    requires
        0 <= i <= s.len(),
    ensures
        i <= comment_end(s, i) <= s.len(),
    decreases s.len() - i,
{
    if i < s.len() && !(s[i] == '*' && i + 1 < s.len() && s[i + 1] == '/') {
        lemma_comment_end_bounds(s, i + 1);
    }
}

/// A quoted text ends at or after the place where its text starts.
pub proof fn lemma_string_end_bounds(s: Seq<char>, i: int, quote: char)
    requires
        1 <= i <= s.len(),
    ensures
        i <= string_end(s, i, quote) <= s.len(),
    decreases s.len() - i,
{
    if i < s.len() && !(s[i] == quote && s[i - 1] != '\\') {
        lemma_string_end_bounds(s, i + 1, quote);
    }
}

/// A statement that starts within the text is not empty and ends within
/// the text.
pub proof fn lemma_block_end_bounds(s: Seq<char>, i: int, depth: nat)
    requires
        0 <= i < s.len(),
    ensures
        i < block_end(s, i, depth) <= s.len(),
    decreases s.len() - i,
{
    reveal_with_fuel(block_end, 2);
    if s[i] == '/' && i + 1 < s.len() && s[i + 1] == '*' {
        lemma_comment_end_bounds(s, i + 2);
        let next = comment_end(s, i + 2);
        if next < s.len() {
            lemma_block_end_bounds(s, next, depth);
        }
    } else if s[i] == '"' || s[i] == '\'' {
        lemma_string_end_bounds(s, i + 1, s[i]);
        let next = string_end(s, i + 1, s[i]);
        if next < s.len() {
            lemma_block_end_bounds(s, next, depth);
        }
    } else if s[i] == '{' {
        if i + 1 < s.len() {
            lemma_block_end_bounds(s, i + 1, depth + 1);
        }
    } else if s[i] == '}' {
        if depth > 1 && i + 1 < s.len() {
            lemma_block_end_bounds(s, i + 1, (depth - 1) as nat);
        }
    } else {
        if i + 1 < s.len() {
            lemma_block_end_bounds(s, i + 1, depth);
        }
    }
}

/// The statements of a text, put one after another, are the text from
/// `from` on: nothing of the document is lost or added.
pub proof fn lemma_statements_cover(s: Seq<char>, from: int)
    requires
        0 <= from <= s.len(),
    ensures
        statements_from(s, from).flatten() == s.subrange(from, s.len() as int),
    decreases s.len() - from,
{
    if from < s.len() {
        lemma_block_end_bounds(s, from, 0);
        let end = block_end(s, from, 0);
        let first = s.subrange(from, end);
        let rest = statements_from(s, end);
        lemma_statements_cover(s, end);
        let all = seq![first] + rest;
        assert(all.first() == first);
        assert(all.drop_first() =~= rest);
        assert(all.flatten() == first + rest.flatten());
        assert(first + s.subrange(end, s.len() as int) =~= s.subrange(from, s.len() as int));
    } else {
        assert(s.subrange(from, s.len() as int) =~= Seq::<char>::empty());
        assert(statements_from(s, from).flatten() =~= Seq::<char>::empty());
    }
}

fn skip_comment(s: &[char], from: usize) -> (end: usize)
    requires
        from <= s.len(),
    ensures
        end == comment_end(s@, from as int),
        from <= end <= s.len(),
{
    let mut i = from;
    while i < s.len()
        invariant
            from <= i <= s.len(),
            comment_end(s@, from as int) == comment_end(s@, i as int),
        decreases s.len() - i,
    {
        if s[i] == '*' && i + 1 < s.len() && s[i + 1] == '/' {
            return i + 2;
        }
        i += 1;
    }
    i
}

fn skip_string(s: &[char], from: usize, quote: char) -> (end: usize)
    requires
        1 <= from <= s.len(),
    ensures
        end == string_end(s@, from as int, quote),
        from <= end <= s.len(),
{
    let mut i = from;
    while i < s.len()
        invariant
            1 <= from <= i <= s.len(),
            string_end(s@, from as int, quote) == string_end(s@, i as int, quote),
        decreases s.len() - i,
    {
        if s[i] == quote && s[i - 1] != '\\' {
            return i + 1;
        }
        i += 1;
    }
    i
}

/// Finds where the statement ends that starts at `from`.
fn find_block_end(s: &[char], from: usize) -> (end: usize)
    requires
        from < s.len(),
    ensures
        end == block_end(s@, from as int, 0),
        from < end <= s.len(),
{
    proof {
        lemma_block_end_bounds(s@, from as int, 0);
    }
    let mut i = from;
    let mut depth: usize = 0;
    while i < s.len()
        invariant
            from <= i <= s.len(),
            depth <= i,
            block_end(s@, from as int, 0) == block_end(s@, i as int, depth as nat),
        decreases s.len() - i,
    {
        let c = s[i];
        if c == '/' && i + 1 < s.len() && s[i + 1] == '*' {
            i = skip_comment(s, i + 2);
        } else if c == '"' || c == '\'' {
            i = skip_string(s, i + 1, c);
        } else if c == '{' {
            depth += 1;
            i += 1;
        } else if c == '}' {
            if depth <= 1 {
                return i + 1;
            }
            depth -= 1;
            i += 1;
        } else {
            i += 1;
        }
    }
    i
}

/// Cuts a document into its statements, each a slice of the source.
pub fn split_statements<'a>(source: &'a str) -> (pieces: Vec<&'a str>)
    ensures
        pieces.deep_view() == statements(source@),
{
    let chars = to_chars(source);
    let n = chars.len();
    let mut pieces: Vec<&'a str> = Vec::new();
    let mut from: usize = 0;
    assert(pieces.deep_view() =~= Seq::<Seq<char>>::empty());
    while from < n
        invariant
            from <= n,
            n == chars.len(),
            chars@ == source@,
            statements(source@) == pieces.deep_view() + statements_from(source@, from as int),
        decreases n - from,
    {
        let end = find_block_end(chars.as_slice(), from);
        let piece = source.substring_char(from, end);
        let ghost before = pieces.deep_view();
        let ghost rest = statements_from(source@, end as int);
        pieces.push(piece);
        assert(pieces.deep_view() =~= before.push(piece@));
        assert(before.push(piece@) + rest =~= before + (seq![piece@] + rest));
        from = end;
    }
    assert(statements_from(source@, from as int) =~= Seq::<Seq<char>>::empty());
    pieces
}

} // verus!
