use css::document::split_statements;
use css::parser::{parse_stylesheet, StyleRule};

#[test]
fn a_document_is_cut_after_each_closing_brace() {
    assert_eq!(split_statements("a { x: 1; } b { y: 2; }"), vec!["a { x: 1; }", " b { y: 2; }"]);
    assert_eq!(split_statements("a{}b{}c"), vec!["a{}", "b{}", "c"]);
    assert_eq!(split_statements("a { x: 1; }\n"), vec!["a { x: 1; }", "\n"]);
    assert_eq!(split_statements("no braces at all"), vec!["no braces at all"]);
    assert_eq!(split_statements(""), Vec::<&str>::new());
    assert_eq!(split_statements("é { ü: ß; } ∑ {}"), vec!["é { ü: ß; }", " ∑ {}"]);
}

#[test]
fn nested_braces_belong_to_one_statement() {
    assert_eq!(
        split_statements("@media print { a { x: 1; } b { y: 2; } } c { z: 3; }"),
        vec!["@media print { a { x: 1; } b { y: 2; } }", " c { z: 3; }"]
    );
    assert_eq!(split_statements("a {{{}}} b {}"), vec!["a {{{}}}", " b {}"]);
    assert_eq!(split_statements("a { { } b"), vec!["a { { } b"]);
}

#[test]
fn a_closing_brace_without_an_opening_one_ends_a_statement() {
    assert_eq!(split_statements("} a {}"), vec!["}", " a {}"]);
    assert_eq!(split_statements("a }} b {}"), vec!["a }", "}", " b {}"]);
}

#[test]
fn braces_in_comments_do_not_count() {
    assert_eq!(split_statements("/* } */ a { /* { */ x: 1; /* } */ } b {}"), vec!["/* } */ a { /* { */ x: 1; /* } */ }", " b {}"]);
    assert_eq!(split_statements("a { x: 1; } /* b {} "), vec!["a { x: 1; }", " /* b {} "]);
    assert_eq!(split_statements("/*/ } */ a {}"), vec!["/*/ } */ a {}"]);
    assert_eq!(split_statements("/**/ a {} b {}"), vec!["/**/ a {}", " b {}"]);
    assert_eq!(split_statements("/ * } a {}"), vec!["/ * }", " a {}"]);
}

#[test]
fn braces_in_quoted_texts_do_not_count() {
    assert_eq!(split_statements("a { content: \"}\"; } b {}"), vec!["a { content: \"}\"; }", " b {}"]);
    assert_eq!(split_statements("[t='{'] { x: 1; } b {}"), vec!["[t='{'] { x: 1; }", " b {}"]);
    assert_eq!(split_statements("a { c: \"it's }\"; } b {}"), vec!["a { c: \"it's }\"; }", " b {}"]);
    assert_eq!(split_statements("a { c: '\\'}'; } b {}"), vec!["a { c: '\\'}'; }", " b {}"]);
    assert_eq!(split_statements("a { c: \"/* }\"; } b {}"), vec!["a { c: \"/* }\"; }", " b {}"]);
    assert_eq!(split_statements("a { c: 'open } b {}"), vec!["a { c: 'open } b {}"]);
}

#[test]
fn the_statements_make_up_the_document() {
    for source in [
        "",
        "a { x: 1; } b { y: 2; }",
        "}{}{",
        "/* c */ a, b { x: 1; } @media print { a { x: 2; } } c { } d { z: var(v) !important }",
        "a { c: 'open } b {}",
        "variables { pinky: #F06; }\nvariables.macos { os-padding: 6; }\n\nlabel {\n  color: var(pinky);\n}\n",
    ] {
        assert_eq!(split_statements(source).concat(), source);
    }
}

fn sorted(mut blocks: Vec<(String, Vec<(String, String)>)>) -> Vec<(String, Vec<(String, String)>)> {
    blocks.sort();
    blocks
}

fn by_statements(source: &str) -> Vec<(String, Vec<(String, String)>)> {
    let mut sheet: Vec<StyleRule> = parse_stylesheet(source);
    sheet
        .drain(..)
        .map(|rule| (rule.selector, rule.declarations.into_iter().map(|d| (d.name, d.value)).collect()))
        .collect()
}

fn as_a_whole(source: &str) -> Vec<(String, Vec<(String, String)>)> {
    simplecss::StyleSheet::parse(source)
        .rules
        .iter()
        .map(|rule| {
            let declarations = rule.declarations.iter().map(|d| (d.name.to_string(), d.value.to_string())).collect();
            (rule.selector.to_string(), declarations)
        })
        .collect()
}

#[test]
fn statement_by_statement_the_same_blocks_are_read_as_from_the_whole() {
    for source in [
        "",
        "a { x: 1; } b { y: 2; }",
        "label#a { width: 1; } label.b { width: 2; } label { width: 3; } * { width: 4; }",
        "/* c */ a, b { x: 1; y : two words ; } @media print { a { x: 2; } } c { } d { z: var(v) !important }",
        "@import 'x.css'; a { x: 1; } @charset \"utf-8\"; b { y: url(\"a}b\"); }",
        "a { content: \"}\"; } [t='{'] { x: 1; } /* } */ b { /* { */ y: 2; }",
        "variables { pinky: #F06; }\nvariables.macos { os-padding: 6; }\n\nlabel {\n  color: var(pinky);\n  padding: var(os-padding);\n}\n",
        "panel label.deep { width: 5; } hbox > label.child { width: 6; } a + b { x: 1 } a:hover, a:lang(en) { y: 2 }",
    ] {
        assert_eq!(sorted(by_statements(source)), sorted(as_a_whole(source)), "{:?}", source);
    }
}

#[test]
fn a_statement_alone_is_read_as_it_is_read_within_the_document() {
    let source = "a.x, a { x: 1; } b { y: 2; }";
    assert_eq!(
        by_statements(source),
        vec![
            ("a".to_string(), vec![("x".to_string(), "1".to_string())]),
            ("a[class~='x']".to_string(), vec![("x".to_string(), "1".to_string())]),
            ("b".to_string(), vec![("y".to_string(), "2".to_string())]),
        ]
    );
    let mut one_by_one = as_a_whole("a.x, a { x: 1; }");
    one_by_one.extend(as_a_whole(" b { y: 2; }"));
    assert_eq!(by_statements(source), one_by_one);
}
