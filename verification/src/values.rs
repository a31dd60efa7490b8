//! The value types of the properties, and how each is read from text.

use crate::error::ValueError;
use crate::scalar::{is_number, Scalar};
use crate::text::{
    eq_ignore_ascii_case, eq_ignore_case, split_whitespace, str_eq, to_chars, words,
};
use std::str::FromStr;
use vstd::prelude::*;

verus! {

#[derive(Debug, Default, Clone, Copy, PartialEq, Eq, Structural)]
pub enum FontFamily {
    #[default]
    Regular,
    Bold,
    Mono,
}

#[derive(Debug, Default, Clone, Copy, PartialEq, Eq, Structural)]
pub enum Align {
    #[default]
    Min,
    Center,
    Max,
}

/// Four lengths, one for each side of a box.
#[derive(Debug, PartialEq, Eq)]
pub struct Sides {
    pub top: Scalar,
    pub left: Scalar,
    pub right: Scalar,
    pub bottom: Scalar,
}

/// Four radii, one for each corner of a box.
#[derive(Debug, PartialEq, Eq)]
pub struct Radius {
    pub nw: Scalar,
    pub ne: Scalar,
    pub sw: Scalar,
    pub se: Scalar,
}

pub struct SidesView {
    pub top: Seq<char>,
    pub left: Seq<char>,
    pub right: Seq<char>,
    pub bottom: Seq<char>,
}

pub struct RadiusView {
    pub nw: Seq<char>,
    pub ne: Seq<char>,
    pub sw: Seq<char>,
    pub se: Seq<char>,
}

impl View for Sides {
    type V = SidesView;

    open spec fn view(&self) -> SidesView {
        SidesView { top: self.top@, left: self.left@, right: self.right@, bottom: self.bottom@ }
    }
}

impl View for Radius {
    type V = RadiusView;

    open spec fn view(&self) -> RadiusView {
        RadiusView { nw: self.nw@, ne: self.ne@, sw: self.sw@, se: self.se@ }
    }
}

/// The family that `text` names: `bold`, `regular` or `mono`, in either case.
pub open spec fn font_family_of(text: Seq<char>) -> Option<FontFamily> {
    if eq_ignore_case(text, "bold"@) {
        Some(FontFamily::Bold)
    } else if eq_ignore_case(text, "regular"@) {
        Some(FontFamily::Regular)
    } else if eq_ignore_case(text, "mono"@) {
        Some(FontFamily::Mono)
    } else {
        None
    }
}

/// The alignment that `text` names.
pub open spec fn align_of(text: Seq<char>) -> Option<Align> {
    if text == "center"@ {
        Some(Align::Center)
    } else if text == "min"@ || text == "left"@ || text == "bottom"@ {
        Some(Align::Min)
    } else if text == "max"@ || text == "right"@ || text == "top"@ {
        Some(Align::Max)
    } else {
        None
    }
}

/// The truth value that `text` names: `true` or `false`.
pub open spec fn flag_of(text: Seq<char>) -> Option<bool> {
    if text == "true"@ {
        Some(true)
    } else if text == "false"@ {
        Some(false)
    } else {
        None
    }
}

pub open spec fn all_numbers(w: Seq<Seq<char>>) -> bool {
    forall|i: int| 0 <= i < w.len() ==> is_number(#[trigger] w[i])
}

/// The sides that the words of `text` give: one number for all four sides;
/// two for top and bottom, then right and left; four for top, right, bottom
/// and left.
pub open spec fn sides_of(text: Seq<char>) -> Result<SidesView, ValueError> {
    let w = words(text);
    if !all_numbers(w) {
        Err(ValueError::NotANumber)
    } else if w.len() == 1 {
        Ok(SidesView { top: w[0], right: w[0], bottom: w[0], left: w[0] })
    } else if w.len() == 2 {
        Ok(SidesView { top: w[0], right: w[1], bottom: w[0], left: w[1] })
    } else if w.len() == 4 {
        Ok(SidesView { top: w[0], right: w[1], bottom: w[2], left: w[3] })
    } else {
        Err(ValueError::WrongCount)
    }
}

/// The radii that the words of `text` give: one number for all four corners;
/// four for the corners clockwise from the north-west.
pub open spec fn radius_of(text: Seq<char>) -> Result<RadiusView, ValueError> {
    let w = words(text);
    if !all_numbers(w) {
        Err(ValueError::NotANumber)
    } else if w.len() == 1 {
        Ok(RadiusView { nw: w[0], ne: w[0], sw: w[0], se: w[0] })
    } else if w.len() == 4 {
        Ok(RadiusView { nw: w[0], ne: w[1], se: w[2], sw: w[3] })
    } else {
        Err(ValueError::WrongCount)
    }
}

impl FromStr for FontFamily {
    type Err = ValueError;

    fn from_str(line: &str) -> (r: Result<FontFamily, ValueError>)
        ensures
            r matches Ok(family) ==> font_family_of(line@) == Some(family),
            r matches Err(e) ==> font_family_of(line@) is None && e == ValueError::UnknownKeyword,
    {
        let chars = to_chars(line);
        let bold = to_chars("bold");
        let regular = to_chars("regular");
        let mono = to_chars("mono");
        if eq_ignore_ascii_case(chars.as_slice(), bold.as_slice()) {
            Ok(FontFamily::Bold)
        } else if eq_ignore_ascii_case(chars.as_slice(), regular.as_slice()) {
            Ok(FontFamily::Regular)
        } else if eq_ignore_ascii_case(chars.as_slice(), mono.as_slice()) {
            Ok(FontFamily::Mono)
        } else {
            Err(ValueError::UnknownKeyword)
        }
    }
}

impl FromStr for Align {
    type Err = ValueError;

    fn from_str(line: &str) -> (r: Result<Align, ValueError>)
        ensures
            r matches Ok(align) ==> align_of(line@) == Some(align),
            r matches Err(e) ==> align_of(line@) is None && e == ValueError::UnknownKeyword,
    {
        if str_eq(line, "center") {
            Ok(Align::Center)
        } else if str_eq(line, "min") || str_eq(line, "left") || str_eq(line, "bottom") {
            Ok(Align::Min)
        } else if str_eq(line, "max") || str_eq(line, "right") || str_eq(line, "top") {
            Ok(Align::Max)
        } else {
            Err(ValueError::UnknownKeyword)
        }
    }
}

/// Reads a truth value: `true` or `false`, nothing else.
pub fn parse_flag(text: &str) -> (r: Result<bool, ValueError>)
    ensures
        r matches Ok(flag) ==> flag_of(text@) == Some(flag),
        r matches Err(e) ==> flag_of(text@) is None && e == ValueError::UnknownKeyword,
{
    if str_eq(text, "true") {
        Ok(true)
    } else if str_eq(text, "false") {
        Ok(false)
    } else {
        Err(ValueError::UnknownKeyword)
    }
}

/// Reads each word of `line` as a number; fails at the first that is none.
fn parse_numbers(line: &str) -> (r: Option<Vec<Scalar>>)
    ensures
        r is Some <==> all_numbers(words(line@)),
        r matches Some(numbers) ==> numbers.deep_view() == words(line@),
{
    let tokens = split_whitespace(line);
    let ghost w = words(line@);
    let mut numbers: Vec<Scalar> = Vec::new();
    let mut i: usize = 0;
    while i < tokens.len()
        invariant
            i <= tokens.len(),
            tokens.deep_view() == w,
            w == words(line@),
            numbers.len() == i,
            forall|k: int| 0 <= k < i ==> is_number(#[trigger] w[k]),
            forall|k: int| 0 <= k < i ==> (#[trigger] numbers[k])@ == w[k],
        decreases tokens.len() - i,
    {
        assert(tokens.deep_view().len() == tokens.len());
        assert(tokens.deep_view()[i as int] == tokens[i as int]@);
        match Scalar::from_str(tokens[i]) {
            Ok(number) => {
                numbers.push(number);
            },
            Err(_) => {
                assert(!is_number(w[i as int]));
                return None;
            },
        }
        i += 1;
    }
    assert(tokens.deep_view().len() == tokens.len());
    assert(numbers.deep_view() =~= w);
    Some(numbers)
}

impl FromStr for Sides {
    type Err = ValueError;

    fn from_str(line: &str) -> (r: Result<Sides, ValueError>)
        ensures
            r matches Ok(sides) ==> sides_of(line@) == Ok::<SidesView, ValueError>(sides@),
            r matches Err(e) ==> sides_of(line@) == Err::<SidesView, ValueError>(e),
    {
        let numbers = match parse_numbers(line) {
            Some(numbers) => numbers,
            None => {
                return Err(ValueError::NotANumber);
            },
        };
        assert(numbers.deep_view().len() == numbers.len());
        assert forall|k: int| 0 <= k < numbers.len() implies (#[trigger] numbers[k])@ == words(
            line@,
        )[k] by {
            assert(numbers.deep_view()[k] == numbers[k]@);
        }
        if numbers.len() == 1 {
            Ok(
                Sides {
                    top: numbers[0].clone(),
                    right: numbers[0].clone(),
                    bottom: numbers[0].clone(),
                    left: numbers[0].clone(),
                },
            )
        } else if numbers.len() == 2 {
            Ok(
                Sides {
                    top: numbers[0].clone(),
                    right: numbers[1].clone(),
                    bottom: numbers[0].clone(),
                    left: numbers[1].clone(),
                },
            )
        } else if numbers.len() == 4 {
            Ok(
                Sides {
                    top: numbers[0].clone(),
                    right: numbers[1].clone(),
                    bottom: numbers[2].clone(),
                    left: numbers[3].clone(),
                },
            )
        } else {
            Err(ValueError::WrongCount)
        }
    }
}

impl FromStr for Radius {
    type Err = ValueError;

    fn from_str(line: &str) -> (r: Result<Radius, ValueError>)
        ensures
            r matches Ok(radius) ==> radius_of(line@) == Ok::<RadiusView, ValueError>(radius@),
            r matches Err(e) ==> radius_of(line@) == Err::<RadiusView, ValueError>(e),
    {
        let numbers = match parse_numbers(line) {
            Some(numbers) => numbers,
            None => {
                return Err(ValueError::NotANumber);
            },
        };
        assert(numbers.deep_view().len() == numbers.len());
        assert forall|k: int| 0 <= k < numbers.len() implies (#[trigger] numbers[k])@ == words(
            line@,
        )[k] by {
            assert(numbers.deep_view()[k] == numbers[k]@);
        }
        if numbers.len() == 1 {
            Ok(
                Radius {
                    nw: numbers[0].clone(),
                    ne: numbers[0].clone(),
                    sw: numbers[0].clone(),
                    se: numbers[0].clone(),
                },
            )
        } else if numbers.len() == 4 {
            Ok(
                Radius {
                    nw: numbers[0].clone(),
                    ne: numbers[1].clone(),
                    se: numbers[2].clone(),
                    sw: numbers[3].clone(),
                },
            )
        } else {
            Err(ValueError::WrongCount)
        }
    }
}

impl Clone for Sides {
    fn clone(&self) -> (r: Self)
        ensures
            r@ == self@,
    {
        Sides {
            top: self.top.clone(),
            left: self.left.clone(),
            right: self.right.clone(),
            bottom: self.bottom.clone(),
        }
    }
}

impl Clone for Radius {
    fn clone(&self) -> (r: Self)
        ensures
            r@ == self@,
    {
        Radius {
            nw: self.nw.clone(),
            ne: self.ne.clone(),
            sw: self.sw.clone(),
            se: self.se.clone(),
        }
    }
}

impl Default for Sides {
    /// All four sides zero.
    fn default() -> (r: Self)
        ensures
            r@ == (SidesView { top: "0"@, left: "0"@, right: "0"@, bottom: "0"@ }),
    {
        Sides {
            top: Scalar::zero(),
            left: Scalar::zero(),
            right: Scalar::zero(),
            bottom: Scalar::zero(),
        }
    }
}

impl Default for Radius {
    /// All four corners zero.
    fn default() -> (r: Self)
        ensures
            r@ == (RadiusView { nw: "0"@, ne: "0"@, sw: "0"@, se: "0"@ }),
    {
        Radius { nw: Scalar::zero(), ne: Scalar::zero(), sw: Scalar::zero(), se: Scalar::zero() }
    }
}

} // verus!
