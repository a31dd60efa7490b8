use std::str::FromStr;

use css::color::Color;
use css::error::ValueError;
use css::scalar::{is_number_literal, Scalar};
use css::text::{eq_ignore_ascii_case, is_whitespace_char, split_whitespace, to_chars};
use css::values::{parse_flag, Align, FontFamily, Radius, Sides};

fn num(scalar: &Scalar) -> f32 {
    scalar.as_str().parse::<f32>().unwrap()
}

fn chars(text: &str) -> Vec<char> {
    text.chars().collect()
}

#[test]
fn sides_of_one_number_are_all_that_number() {
    let sides = Sides::from_str("4").unwrap();
    assert_eq!(num(&sides.top), 4.0);
    assert_eq!(num(&sides.right), 4.0);
    assert_eq!(num(&sides.bottom), 4.0);
    assert_eq!(num(&sides.left), 4.0);
}

#[test]
fn sides_of_two_numbers_pair_top_bottom_and_right_left() {
    let sides = Sides::from_str("1 2").unwrap();
    assert_eq!(num(&sides.top), 1.0);
    assert_eq!(num(&sides.right), 2.0);
    assert_eq!(num(&sides.bottom), 1.0);
    assert_eq!(num(&sides.left), 2.0);
}

#[test]
fn sides_of_four_numbers_run_top_right_bottom_left() {
    let sides = Sides::from_str("1 2 3 4").unwrap();
    assert_eq!(num(&sides.top), 1.0);
    assert_eq!(num(&sides.right), 2.0);
    assert_eq!(num(&sides.bottom), 3.0);
    assert_eq!(num(&sides.left), 4.0);
}

#[test]
fn sides_of_any_other_count_fail() {
    assert_eq!(Sides::from_str(""), Err(ValueError::WrongCount));
    assert_eq!(Sides::from_str("   "), Err(ValueError::WrongCount));
    assert_eq!(Sides::from_str("1 2 3"), Err(ValueError::WrongCount));
    assert_eq!(Sides::from_str("1 2 3 4 5"), Err(ValueError::WrongCount));
}

#[test]
fn sides_with_a_word_that_is_no_number_fail() {
    assert_eq!(Sides::from_str("1 two"), Err(ValueError::NotANumber));
    assert_eq!(Sides::from_str("4px"), Err(ValueError::NotANumber));
    assert_eq!(Sides::from_str("1 2 x"), Err(ValueError::NotANumber));
    assert_eq!(Sides::from_str("var(missing)"), Err(ValueError::NotANumber));
}

#[test]
fn sides_keep_the_literals_and_take_any_whitespace() {
    let sides = Sides::from_str("  1.5\t-2e1 \n").unwrap();
    assert_eq!(sides.top.as_str(), "1.5");
    assert_eq!(sides.right.as_str(), "-2e1");
    assert_eq!(num(&sides.bottom), 1.5);
    assert_eq!(num(&sides.left), -20.0);
}

#[test]
fn radius_of_one_number_is_all_corners() {
    let radius = Radius::from_str("5").unwrap();
    assert_eq!(num(&radius.nw), 5.0);
    assert_eq!(num(&radius.ne), 5.0);
    assert_eq!(num(&radius.se), 5.0);
    assert_eq!(num(&radius.sw), 5.0);
}

#[test]
fn radius_of_four_numbers_runs_clockwise_from_north_west() {
    let radius = Radius::from_str("1 2 3 4").unwrap();
    assert_eq!(num(&radius.nw), 1.0);
    assert_eq!(num(&radius.ne), 2.0);
    assert_eq!(num(&radius.se), 3.0);
    assert_eq!(num(&radius.sw), 4.0);
}

#[test]
fn radius_of_any_other_count_fails() {
    assert_eq!(Radius::from_str(""), Err(ValueError::WrongCount));
    assert_eq!(Radius::from_str("1 2"), Err(ValueError::WrongCount));
    assert_eq!(Radius::from_str("1 2 3"), Err(ValueError::WrongCount));
    assert_eq!(Radius::from_str("1 2 3 4 5"), Err(ValueError::WrongCount));
    assert_eq!(Radius::from_str("1 b 3 4"), Err(ValueError::NotANumber));
}

#[test]
fn default_sides_and_radius_are_zero() {
    let sides = Sides::default();
    assert_eq!(num(&sides.top), 0.0);
    assert_eq!(num(&sides.left), 0.0);
    assert_eq!(num(&sides.right), 0.0);
    assert_eq!(num(&sides.bottom), 0.0);
    let radius = Radius::default();
    assert_eq!(num(&radius.nw), 0.0);
    assert_eq!(num(&radius.ne), 0.0);
    assert_eq!(num(&radius.sw), 0.0);
    assert_eq!(num(&radius.se), 0.0);
}

#[test]
fn font_family_is_read_in_either_case() {
    assert_eq!(FontFamily::from_str("bold"), Ok(FontFamily::Bold));
    assert_eq!(FontFamily::from_str("BOLD"), Ok(FontFamily::Bold));
    assert_eq!(FontFamily::from_str("Regular"), Ok(FontFamily::Regular));
    assert_eq!(FontFamily::from_str("mOnO"), Ok(FontFamily::Mono));
}

#[test]
fn font_family_rejects_other_words() {
    assert_eq!(FontFamily::from_str(""), Err(ValueError::UnknownKeyword));
    assert_eq!(FontFamily::from_str("bolder"), Err(ValueError::UnknownKeyword));
    assert_eq!(FontFamily::from_str(" bold"), Err(ValueError::UnknownKeyword));
    assert_eq!(FontFamily::from_str("serif"), Err(ValueError::UnknownKeyword));
}

#[test]
fn font_family_agrees_with_lower_casing() {
    for word in ["bold", "Bold", "BOLD", "regular", "REGULAR", "mono", "Mono", "bo\u{212A}d", "b\u{F6}ld", "mon\u{F3}"] {
        let lowered = word.to_lowercase();
        let expected = matches!(lowered.as_str(), "bold" | "regular" | "mono");
        assert_eq!(FontFamily::from_str(word).is_ok(), expected, "{}", word);
    }
}

#[test]
fn align_has_three_keywords_for_each_end() {
    assert_eq!(Align::from_str("center"), Ok(Align::Center));
    assert_eq!(Align::from_str("min"), Ok(Align::Min));
    assert_eq!(Align::from_str("left"), Ok(Align::Min));
    assert_eq!(Align::from_str("bottom"), Ok(Align::Min));
    assert_eq!(Align::from_str("max"), Ok(Align::Max));
    assert_eq!(Align::from_str("right"), Ok(Align::Max));
    assert_eq!(Align::from_str("top"), Ok(Align::Max));
}

#[test]
fn align_is_case_sensitive_and_rejects_other_words() {
    assert_eq!(Align::from_str("Center"), Err(ValueError::UnknownKeyword));
    assert_eq!(Align::from_str("middle"), Err(ValueError::UnknownKeyword));
    assert_eq!(Align::from_str(""), Err(ValueError::UnknownKeyword));
}

#[test]
fn flags_are_true_and_false() {
    assert_eq!(parse_flag("true"), Ok(true));
    assert_eq!(parse_flag("false"), Ok(false));
    assert_eq!(parse_flag("True"), Err(ValueError::UnknownKeyword));
    assert_eq!(parse_flag("1"), Err(ValueError::UnknownKeyword));
    assert_eq!(parse_flag(""), Err(ValueError::UnknownKeyword));
}

#[test]
fn flags_agree_with_the_standard_reading() {
    for word in ["true", "false", "TRUE", "yes", "", " true", "0"] {
        assert_eq!(parse_flag(word).ok(), word.parse::<bool>().ok(), "{}", word);
    }
}

#[test]
fn scalar_reads_number_literals() {
    for (text, value) in [("4", 4.0f32), ("0", 0.0), ("-1.5", -1.5), ("+2", 2.0), (".5", 0.5), ("3.", 3.0), ("1e3", 1000.0), ("1E-2", 0.01), ("2.5e+1", 25.0)] {
        let scalar = Scalar::from_str(text).unwrap();
        assert_eq!(scalar.as_str(), text);
        assert_eq!(num(&scalar), value);
    }
}

#[test]
fn scalar_reads_infinity_and_not_a_number() {
    assert_eq!(num(&Scalar::from_str("inf").unwrap()), f32::INFINITY);
    assert_eq!(num(&Scalar::from_str("-inf").unwrap()), f32::NEG_INFINITY);
    assert_eq!(num(&Scalar::from_str("Infinity").unwrap()), f32::INFINITY);
    assert!(num(&Scalar::from_str("NaN").unwrap()).is_nan());
}

#[test]
fn scalar_rejects_what_is_no_number() {
    for text in ["", " ", "4px", " 4", "4 ", "+", "-", ".", "e5", "1e", "1e+", "1..2", "1.2.3", "--1", "+-1", "0x10", "1_000", "infinit", "nan0", "var(x)", "1,5", "١"] {
        assert_eq!(Scalar::from_str(text), Err(ValueError::NotANumber), "{:?}", text);
    }
}

#[test]
fn scalar_accepts_what_the_standard_float_reader_accepts() {
    let samples = [
        "", "0", "00", "007", "1", "-1", "+1", "1.", ".1", ".", "-.", "+.5", "-.5e3", "1e5", "1E5",
        "1e", "1e-", "1e+5", "1e-5", "1e5.", "1.e5", ".e5", "e", "e5", "E5", "1ee5", "1e5e5", "inf",
        "INF", "Inf", "-inf", "+inf", "infinity", "INFINITY", "-Infinity", "infinit", "infinityy",
        "in", "nan", "NaN", "NAN", "-nan", "+NaN", "na", "nann", "1 ", " 1", "1 2", "1\t", "1\n",
        "++1", "--1", "+-1", "-+1", "1+", "1-", "1.5.5", "1..5", "..5", "5..", "1,5", "1_5", "0x1",
        "0b1", "1f", "1.0f32", "1d", "١٢٣", "１", "1\u{0}", "\u{0}", "340282350000000000000000000000000000000",
        "1e400", "-1e400", "1e-400", "0.0000000000000000000000000000000000000000000001", "123456789012345678901234567890",
        "0e0", "-0", "+0.0e-0", "9.", "9.e", "9.e1", ".9e1", "i", "n", "infnan", "inf1", "1inf",
    ];
    for text in samples {
        assert_eq!(Scalar::from_str(text).is_ok(), text.parse::<f32>().is_ok(), "{:?}", text);
        assert_eq!(is_number_literal(&chars(text)), text.parse::<f64>().is_ok(), "{:?}", text);
    }
}

#[test]
fn default_scalars_denote_their_numbers() {
    assert_eq!(num(&Scalar::zero()), 0.0);
    assert_eq!(num(&Scalar::one()), 1.0);
    assert_eq!(num(&Scalar::four()), 4.0);
    assert_eq!(num(&Scalar::infinity()), f32::INFINITY);
}

#[test]
fn scalar_clone_keeps_the_literal() {
    let scalar = Scalar::from_str("12.50").unwrap();
    assert_eq!(scalar.clone().as_str(), "12.50");
    assert_eq!(scalar.clone(), scalar);
}

#[test]
fn color_reads_short_hex() {
    let color = Color::from_str("#F06").unwrap();
    assert_eq!((color.r, color.g, color.b), (0xFF, 0x00, 0x66));
    assert_eq!(num(&color.a), 1.0);
}

#[test]
fn color_reads_long_hex_names_and_functions() {
    let color = Color::from_str("#ff0011").unwrap();
    assert_eq!((color.r, color.g, color.b), (255, 0, 17));
    let color = Color::from_str("slateblue").unwrap();
    assert_eq!((color.r, color.g, color.b), (106, 90, 205));
    assert_eq!(num(&color.a), 1.0);
    let color = Color::from_str("rgb(1, 2, 3)").unwrap();
    assert_eq!((color.r, color.g, color.b), (1, 2, 3));
    let color = Color::from_str(" rgba (255, 128, 12, 0.5)").unwrap();
    assert_eq!((color.r, color.g, color.b), (255, 128, 12));
    assert_eq!(num(&color.a), 0.5);
    let color = Color::from_str("hsl(900, 15%, 90%)").unwrap();
    assert_eq!((color.r, color.g, color.b), (226, 233, 233));
    let color = Color::from_str("transparent").unwrap();
    assert_eq!((color.r, color.g, color.b), (0, 0, 0));
    assert_eq!(num(&color.a), 0.0);
}

#[test]
fn color_rejects_what_is_no_color() {
    for text in ["", "blah", "ffffff", "#ff", "#gggggg", "rgb(1, 2)", "hsla(900, 15%, 90%)", "var(pinky)", "rgba(1, 2, 3, x)"] {
        assert_eq!(Color::from_str(text), Err(ValueError::InvalidColor), "{:?}", text);
    }
}

#[test]
fn color_alpha_may_be_not_a_number() {
    let color = Color::from_str("rgba(1, 2, 3, nan)").unwrap();
    assert_eq!((color.r, color.g, color.b), (1, 2, 3));
    assert!(num(&color.a).is_nan());
}

#[test]
fn color_from_channels_wants_a_number_for_alpha() {
    let color = Color::from_channels(1, 2, 3, "0.25").unwrap();
    assert_eq!((color.r, color.g, color.b), (1, 2, 3));
    assert_eq!(color.a.as_str(), "0.25");
    assert_eq!(Color::from_channels(1, 2, 3, "half"), None);
    assert_eq!(Color::from_channels(1, 2, 3, ""), None);
}

#[test]
fn invalid_color_is_opaque_magenta() {
    let color = Color::invalid();
    assert_eq!((color.r, color.g, color.b), (255, 0, 255));
    assert_eq!(num(&color.a), 1.0);
}

#[test]
fn words_are_split_at_any_whitespace() {
    assert_eq!(split_whitespace("a b"), vec!["a", "b"]);
    assert_eq!(split_whitespace("  lead  and trail \t\n"), vec!["lead", "and", "trail"]);
    assert_eq!(split_whitespace(""), Vec::<&str>::new());
    assert_eq!(split_whitespace(" \t "), Vec::<&str>::new());
    assert_eq!(split_whitespace("one"), vec!["one"]);
    assert_eq!(split_whitespace("é\u{A0}ü\u{3000}ß"), vec!["é", "ü", "ß"]);
}

#[test]
fn words_agree_with_the_standard_split() {
    for text in ["", "a", " a", "a ", "a  b", "\ta\nb\r\nc", "x\u{85}y", "x\u{1680}y\u{2000}z\u{200A}", "a\u{2028}b\u{2029}c\u{202F}d\u{205F}e", "no\u{200B}break", "a\u{B}b\u{C}c", "\u{FEFF}a"] {
        let expected: Vec<&str> = text.split_whitespace().collect();
        assert_eq!(split_whitespace(text), expected, "{:?}", text);
    }
}

#[test]
fn whitespace_is_the_unicode_property() {
    for code in 0u32..0x3100 {
        if let Some(c) = char::from_u32(code) {
            assert_eq!(is_whitespace_char(c), c.is_whitespace(), "{:x}", code);
        }
    }
    assert!(!is_whitespace_char('\u{10FFFF}'));
}

#[test]
fn text_is_compared_without_ascii_case() {
    assert!(eq_ignore_ascii_case(&chars("Bold"), &chars("bOLD")));
    assert!(eq_ignore_ascii_case(&chars(""), &chars("")));
    assert!(!eq_ignore_ascii_case(&chars("bold"), &chars("bolt")));
    assert!(!eq_ignore_ascii_case(&chars("bold"), &chars("bol")));
    assert!(!eq_ignore_ascii_case(&chars("É"), &chars("é")));
    assert!(!eq_ignore_ascii_case(&chars("@"), &chars("`")));
    assert!(!eq_ignore_ascii_case(&chars("["), &chars("{")));
}

#[test]
fn characters_of_a_text_come_in_order() {
    assert_eq!(to_chars("aé∑"), vec!['a', 'é', '∑']);
    assert_eq!(to_chars(""), Vec::<char>::new());
}
