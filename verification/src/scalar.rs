//! Numbers. A number is kept as the decimal literal that denotes it, so the
//! library holds no machine arithmetic on reals: it decides which texts are
//! numbers and hands the literal on.
//!
//! The literals are those of the grammar
//!
//! ```text
//! Number  ::= Sign? ( 'inf' | 'infinity' | 'nan' | Decimal )
//! Decimal ::= ( Digit+ | Digit+ '.' Digit* | Digit* '.' Digit+ ) Exp?
//! Exp     ::= 'e' Sign? Digit+
//! Sign    ::= [+-]
//! Digit   ::= [0-9]
//! ```
//!
//! where letters match in either case. These are the texts that
//! `str::parse::<f32>` and `str::parse::<f64>` accept.

use crate::error::ValueError;
use crate::text::{eq_ignore_ascii_case, eq_ignore_case, to_chars};
use std::str::FromStr;
use vstd::prelude::*;
use vstd::slice::slice_subrange;

verus! {

pub open spec fn is_digit(c: char) -> bool {
    '0' <= c <= '9'
}

pub open spec fn is_sign(c: char) -> bool {
    c == '+' || c == '-'
}

/// Where the run of digits that starts at `i` ends: the index of the first
/// character at or after `i` that is no digit, or the length of `s`.
pub open spec fn digits_end(s: Seq<char>, i: int) -> int
    decreases s.len() - i,
{
    if 0 <= i < s.len() && is_digit(s[i]) {
        digits_end(s, i + 1)
    } else {
        i
    }
}

/// The index after an optional sign at `i`.
pub open spec fn after_sign(s: Seq<char>, i: int) -> int {
    if 0 <= i < s.len() && is_sign(s[i]) {
        i + 1
    } else {
        i
    }
}

/// `s` from `i` on is an exponent: `e`, an optional sign, one digit or more.
pub open spec fn is_exponent_at(s: Seq<char>, i: int) -> bool {
    &&& 0 <= i < s.len()
    &&& (s[i] == 'e' || s[i] == 'E')
    &&& after_sign(s, i + 1) < s.len()
    &&& digits_end(s, after_sign(s, i + 1)) == s.len()
}

/// `s` from `i` on is a decimal: digits with at most one point among them,
/// one digit at least, and an optional exponent.
pub open spec fn is_decimal_at(s: Seq<char>, i: int) -> bool {
    let whole = digits_end(s, i);
    let point = whole < s.len() && s[whole] == '.';
    let end = if point {
        digits_end(s, whole + 1)
    } else {
        whole
    };
    let digits = if point {
        end - i - 1
    } else {
        end - i
    };
    &&& digits > 0
    &&& (end == s.len() || is_exponent_at(s, end))
}

/// `s` names infinity or not-a-number.
pub open spec fn is_special(s: Seq<char>) -> bool {
    ||| eq_ignore_case(s, "inf"@)
    ||| eq_ignore_case(s, "infinity"@)
    ||| eq_ignore_case(s, "nan"@)
}

/// `s` is a number literal.
pub open spec fn is_number(s: Seq<char>) -> bool {
    let start = after_sign(s, 0);
    is_special(s.skip(start)) || is_decimal_at(s, start)
}

fn digit(c: char) -> (r: bool)
    ensures
        r == is_digit(c),
{
    c >= '0' && c <= '9'
}

fn skip_digits(s: &[char], from: usize) -> (end: usize)
    requires
        from <= s.len(),
    ensures
        end == digits_end(s@, from as int),
        from <= end <= s.len(),
{
    let mut end = from;
    while end < s.len() && digit(s[end])
        invariant
            from <= end <= s.len(),
            digits_end(s@, from as int) == digits_end(s@, end as int),
        decreases s.len() - end,
    {
        end += 1;
    }
    end
}

fn skip_sign(s: &[char], from: usize) -> (end: usize)
    requires
        from <= s.len(),
    ensures
        end == after_sign(s@, from as int),
        from <= end <= s.len(),
{
    if from < s.len() && (s[from] == '+' || s[from] == '-') {
        from + 1
    } else {
        from
    }
}

fn exponent_at(s: &[char], from: usize) -> (r: bool)
    requires
        from <= s.len(),
    ensures
        r == is_exponent_at(s@, from as int),
{
    if from < s.len() && (s[from] == 'e' || s[from] == 'E') {
        let first = skip_sign(s, from + 1);
        first < s.len() && skip_digits(s, first) == s.len()
    } else {
        false
    }
}

fn decimal_at(s: &[char], from: usize) -> (r: bool)
    requires
        from <= s.len(),
    ensures
        r == is_decimal_at(s@, from as int),
{
    let whole = skip_digits(s, from);
    if whole < s.len() && s[whole] == '.' {
        let end = skip_digits(s, whole + 1);
        end - from > 1 && (end == s.len() || exponent_at(s, end))
    } else {
        whole > from && (whole == s.len() || exponent_at(s, whole))
    }
}

fn special(s: &[char]) -> (r: bool)
    ensures
        r == is_special(s@),
{
    let inf = to_chars("inf");
    let infinity = to_chars("infinity");
    let nan = to_chars("nan");
    eq_ignore_ascii_case(s, inf.as_slice()) || eq_ignore_ascii_case(s, infinity.as_slice())
        || eq_ignore_ascii_case(s, nan.as_slice())
}

/// Decides whether the characters `s` are a number literal.
pub fn is_number_literal(s: &[char]) -> (r: bool)
    ensures
        r == is_number(s@),
{
    let start = skip_sign(s, 0);
    special(slice_subrange(s, start, s.len())) || decimal_at(s, start)
}

/// A number, held as its literal. Two scalars are equal where their literals
/// are: `4` and `4.0` denote one number and are two scalars.
#[derive(Debug, PartialEq, Eq)]
pub struct Scalar {
    text: String,
}

impl View for Scalar {
    type V = Seq<char>;

    closed spec fn view(&self) -> Seq<char> {
        self.text@
    }
}

impl DeepView for Scalar {
    type V = Seq<char>;

    open spec fn deep_view(&self) -> Seq<char> {
        self@
    }
}

impl Scalar {
    #[verifier::type_invariant]
    spec fn well_formed(self) -> bool {
        is_number(self.text@)
    }

    /// The literal of this number.
    pub fn as_str(&self) -> (r: &str)
        ensures
            r@ == self@,
            is_number(r@),
    {
        proof {
            use_type_invariant(self);
        }
        self.text.as_str()
    }

    /// The number zero, written `0`.
    pub fn zero() -> (r: Scalar)
        ensures
            r@ == "0"@,
    {
        proof {
            lemma_default_literals();
        }
        Scalar { text: "0".to_owned() }
    }

    /// The number four, written `4`.
    pub fn four() -> (r: Scalar)
        ensures
            r@ == "4"@,
    {
        proof {
            lemma_default_literals();
        }
        Scalar { text: "4".to_owned() }
    }

    /// The number one, written `1`.
    pub fn one() -> (r: Scalar)
        ensures
            r@ == "1"@,
    {
        proof {
            lemma_default_literals();
        }
        Scalar { text: "1".to_owned() }
    }

    /// Positive infinity, written `inf`.
    pub fn infinity() -> (r: Scalar)
        ensures
            r@ == "inf"@,
    {
        proof {
            lemma_default_literals();
        }
        Scalar { text: "inf".to_owned() }
    }
}

impl FromStr for Scalar {
    type Err = ValueError;

    /// Reads a number: `Ok` exactly where `text` is a number literal.
    fn from_str(text: &str) -> (r: Result<Scalar, ValueError>)
        ensures
            r is Ok <==> is_number(text@),
            r matches Ok(s) ==> s@ == text@,
            r matches Err(e) ==> e == ValueError::NotANumber,
    {
        let chars = to_chars(text);
        if is_number_literal(chars.as_slice()) {
            Ok(Scalar { text: text.to_owned() })
        } else {
            Err(ValueError::NotANumber)
        }
    }
}

impl Clone for Scalar {
    fn clone(&self) -> (r: Self)
        ensures
            r@ == self@,
    {
        proof {
            use_type_invariant(self);
        }
        Scalar { text: self.text.clone() }
    }
}

/// The literals that the property defaults are written with are numbers.
pub proof fn lemma_default_literals()
    ensures
        is_number("0"@),
        is_number("1"@),
        is_number("4"@),
        is_number("inf"@),
{
    reveal_strlit("0");
    reveal_strlit("1");
    reveal_strlit("4");
    reveal_strlit("inf");
    reveal_strlit("infinity");
    reveal_strlit("nan");
    reveal_with_fuel(digits_end, 3);
    assert("inf"@.skip(0) == "inf"@);
}

} // verus!
