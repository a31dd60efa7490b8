use css::element::label;
use css::parser::{parse_css, parse_stylesheet};
use css::selector::{is_in_scope, is_variable_block};

const ALPHABET: [&str; 30] = [
    "a", "é", "∑", "{", "}", ":", ";", ".", "#", "*", " ", "/", "(", ")", "'", "\"", "[", "]", ">", "+", ",", "@", "!",
    "-", "\\", "=", "~", "|", "0", "\n",
];

// Compiles the source and matches what it yields, and counts the selectors
// that are not read back as they were written out.
fn exercise(source: &str) -> usize {
    let sheet = parse_stylesheet(source);
    let mut unreadable = 0;
    for rule in &sheet {
        let _ = is_variable_block(&rule.selector);
        let _ = is_in_scope(&rule.selector, &["a"]);
        if simplecss::Selector::parse(&rule.selector).map(|s| s.to_string()) != Some(rule.selector.clone()) {
            unreadable += 1;
        }
    }
    let (rules, _) = parse_css(source, &["a"]);
    let _ = rules.solve(&label().classes("a").id("a"));
    let _ = is_variable_block(source);
    let _ = is_in_scope(source, &["a"]);
    unreadable
}

#[test]
fn short_sources_are_read_without_failure() {
    let mut unreadable = 0;
    for a in ALPHABET {
        unreadable += exercise(a);
        for b in ALPHABET {
            unreadable += exercise(&format!("{}{}", a, b));
            for c in ALPHABET {
                unreadable += exercise(&format!("{}{}{}", a, b, c));
            }
        }
    }
    assert_eq!(unreadable, 0);
}

#[test]
fn random_sources_are_read_without_failure() {
    let mut state: u64 = 0x2545F4914F6CDD1D;
    let mut unreadable = 0;
    for _ in 0..20000 {
        let mut source = String::new();
        state ^= state << 13;
        state ^= state >> 7;
        state ^= state << 17;
        let len = 4 + (state % 24) as usize;
        for _ in 0..len {
            state ^= state << 13;
            state ^= state >> 7;
            state ^= state << 17;
            source.push_str(ALPHABET[(state % 30) as usize]);
        }
        unreadable += exercise(&source);
    }
    assert_eq!(unreadable, 0);
}

#[test]
fn odd_selectors_are_read_without_failure() {
    let mut state: u64 = 0x9E3779B97F4A7C15;
    let mut unreadable = 0;
    let pieces = ["a", "b", "é", ".", "#", "*", " ", ">", "+", ",", ":", "hover", "[", "]", "=", "~=", "|=", "'", "\"", "x", "\\", "lang(", ")", "/*", "*/"];
    for _ in 0..20000 {
        let mut selector = String::new();
        state ^= state << 13;
        state ^= state >> 7;
        state ^= state << 17;
        let len = 1 + (state % 8) as usize;
        for _ in 0..len {
            state ^= state << 13;
            state ^= state >> 7;
            state ^= state << 17;
            selector.push_str(pieces[(state % pieces.len() as u64) as usize]);
        }
        unreadable += exercise(&format!("{} {{ width: 1; }}", selector));
    }
    assert_eq!(unreadable, 0);
}

#[test]
fn a_quote_within_a_quoted_value_makes_the_selector_unreadable() {
    let (rules, _) = parse_css("[id=\"it's\"] { width: 1; } [id=\"its\"] { width: 2; }", &[]);
    let selectors: Vec<&str> = rules.rules().iter().map(|rule| rule.selector()).collect();
    assert_eq!(selectors, vec!["*[id='it's']", "*[id='its']"]);
    assert_eq!(rules.matches(&label().id("it's")), vec![false, false]);
    assert_eq!(rules.matches(&label().id("its")), vec![false, true]);
}
