//! Colors, read by the crate `css_color_parser`.

use crate::error::ValueError;
use crate::scalar::{is_number, Scalar};
use std::str::FromStr;
use vstd::prelude::*;

verus! {

/// A color of four channels. Red, green and blue are bytes; alpha is a number
/// from zero to one, or not-a-number where the text of the color says so.
#[derive(Debug, PartialEq, Eq)]
pub struct Color {
    pub r: u8,
    pub g: u8,
    pub b: u8,
    pub a: Scalar,
}

pub struct ColorView {
    pub r: u8,
    pub g: u8,
    pub b: u8,
    pub a: Seq<char>,
}

impl View for Color {
    type V = ColorView;

    open spec fn view(&self) -> ColorView {
        ColorView { r: self.r, g: self.g, b: self.b, a: self.a@ }
    }
}

/// What `css_color_parser` reads from `text`: the three byte channels and
/// alpha as `Display` writes it, or `None` where it rejects the text.
pub uninterp spec fn color_channels(text: Seq<char>) -> Option<(u8, u8, u8, Seq<char>)>;

/// The color that channels read from a text make: they make one where alpha
/// is a number literal.
pub open spec fn color_from(channels: Option<(u8, u8, u8, Seq<char>)>) -> Option<ColorView> {
    match channels {
        Some((r, g, b, a)) => if is_number(a) {
            Some(ColorView { r, g, b, a })
        } else {
            None
        },
        None => None,
    }
}

/// The color that `text` denotes.
pub open spec fn color_of(text: Seq<char>) -> Option<ColorView> {
    color_from(color_channels(text))
}

/// Calls `<css_color_parser::Color as FromStr>::from_str`. The contract names
/// what comes back and claims nothing else: the parser reads named colors,
/// `#rgb`, `#rrggbb`, `rgb()`, `rgba()`, `hsl()` and `hsla()`, from the text
/// alone. Alpha is handed on in the decimal form that `Display` gives it.
#[verifier::external_body]
fn read_channels(text: &str) -> (r: Option<(u8, u8, u8, String)>)
    ensures
        r.deep_view() == color_channels(text@),
{
    text.parse::<css_color_parser::Color>().ok().map(|c| (c.r, c.g, c.b, c.a.to_string()))
}

impl Color {
    /// Makes a color of three bytes and alpha as a literal: `Some` exactly
    /// where `alpha` is a number literal.
    pub fn from_channels(r: u8, g: u8, b: u8, alpha: &str) -> (color: Option<Color>)
        ensures
            color is Some <==> is_number(alpha@),
            color matches Some(c) ==> c@ == (ColorView { r, g, b, a: alpha@ }),
    {
        match Scalar::from_str(alpha) {
            Ok(a) => Some(Color { r, g, b, a }),
            Err(_) => None,
        }
    }

    /// Opaque magenta, the color of a property that no rule has set.
    pub fn invalid() -> (color: Color)
        ensures
            color@ == invalid_color(),
    {
        Color { r: 255, g: 0, b: 255, a: Scalar::one() }
    }
}

/// Opaque magenta.
pub open spec fn invalid_color() -> ColorView {
    ColorView { r: 255, g: 0, b: 255, a: "1"@ }
}

impl FromStr for Color {
    type Err = ValueError;

    fn from_str(text: &str) -> (r: Result<Color, ValueError>)
        ensures
            r matches Ok(color) ==> color_of(text@) == Some(color@),
            r matches Err(e) ==> color_of(text@) is None && e == ValueError::InvalidColor,
    {
        match read_channels(text) {
            Some(channels) => match Color::from_channels(
                channels.0,
                channels.1,
                channels.2,
                channels.3.as_str(),
            ) {
                Some(color) => Ok(color),
                None => Err(ValueError::InvalidColor),
            },
            None => Err(ValueError::InvalidColor),
        }
    }
}

impl Clone for Color {
    fn clone(&self) -> (r: Self)
        ensures
            r@ == self@,
    {
        Color { r: self.r, g: self.g, b: self.b, a: self.a.clone() }
    }
}

} // verus!
