use css::element::{hbox, label, native, panel, vbox, window, Element};
use css::selector::{classify, contains_class, is_in_scope, is_variable_block, VariableElement};
use css::variables::VariableMap;
use css::{AttributeOperator, PseudoClass};
use simplecss::Element as Queried;

#[test]
fn a_new_element_has_a_name_and_nothing_else() {
    let element = Element::new("label");
    assert_eq!(element.describe(), "label");
    assert!(element.has_local_name("label"));
    assert!(!element.has_local_name("Label"));
    assert!(!element.has_local_name(""));
    assert!(element.parent_element().is_none());
    assert!(element.prev_sibling_element().is_none());
    assert!(!element.pseudo_class_matches(PseudoClass::Hover));
    assert!(!element.attribute_matches("class", AttributeOperator::Contains("a")));
    assert!(!element.attribute_matches("id", AttributeOperator::Matches("a")));
}

#[test]
fn the_named_constructors_name_their_element() {
    assert_eq!(window().describe(), "window");
    assert_eq!(native().describe(), "native");
    assert_eq!(label().describe(), "label");
    assert_eq!(vbox().describe(), "vbox");
    assert_eq!(hbox().describe(), "hbox");
    assert_eq!(panel().describe(), "panel");
}

#[test]
fn an_element_is_written_out_with_all_it_has() {
    let row = hbox().classes("row selected").id("first");
    let cell = label().id("subject").classes("cell").hover(true).active(true).focus(true).parent(row);
    assert_eq!(cell.describe(), "hbox#first.row.selected > label#subject.cell:hover:active:focus");
    let deep = native().parent(cell);
    assert_eq!(deep.describe(), "hbox#first.row.selected > label#subject.cell:hover:active:focus > native");
}

#[test]
fn states_are_written_only_when_on() {
    assert_eq!(label().hover(true).describe(), "label:hover");
    assert_eq!(label().active(true).describe(), "label:active");
    assert_eq!(label().focus(true).describe(), "label:focus");
    assert_eq!(label().hover(true).hover(false).describe(), "label");
}

#[test]
fn classes_are_the_words_of_the_text_each_once() {
    assert_eq!(label().classes("a b").describe(), "label.a.b");
    assert_eq!(label().classes("  b   a b  a ").describe(), "label.b.a");
    assert_eq!(label().classes("").describe(), "label");
    assert_eq!(label().classes("a").classes("b c").describe(), "label.b.c");
}

#[test]
fn a_class_is_added_once() {
    let mut element = label();
    element.add_class("a");
    element.add_class("b");
    element.add_class("a");
    assert_eq!(element.describe(), "label.a.b");
    assert!(element.attribute_matches("class", AttributeOperator::Contains("a")));
    assert!(element.attribute_matches("class", AttributeOperator::Contains("b")));
    assert!(!element.attribute_matches("class", AttributeOperator::Contains("c")));
}

#[test]
fn a_class_is_removed_and_the_others_stay_in_order() {
    let mut element = label().classes("a b c");
    element.remove_class("b");
    assert_eq!(element.describe(), "label.a.c");
    element.remove_class("missing");
    assert_eq!(element.describe(), "label.a.c");
    element.remove_class("a");
    element.remove_class("c");
    assert_eq!(element.describe(), "label");
    assert!(!element.attribute_matches("class", AttributeOperator::Contains("a")));
}

#[test]
fn the_classes_are_handed_out_in_order() {
    let mut element = label().classes("c a b a");
    assert_eq!(element.class_names(), ["c", "a", "b"]);
    element.add_class("d");
    element.add_class("c");
    element.remove_class("a");
    assert_eq!(element.class_names(), ["c", "b", "d"]);
    assert_eq!(label().class_names(), Vec::<&str>::new().as_slice());
}

#[test]
fn toggling_adds_or_removes() {
    let mut element = hbox().classes("row");
    element.toggle_class("selected", true);
    assert_eq!(element.describe(), "hbox.row.selected");
    element.toggle_class("selected", true);
    assert_eq!(element.describe(), "hbox.row.selected");
    element.toggle_class("row", false);
    assert_eq!(element.describe(), "hbox.selected");
    element.toggle_class("row", false);
    assert_eq!(element.describe(), "hbox.selected");
}

#[test]
fn a_parent_is_attached_and_handed_out() {
    let mut cell = label().classes("cell");
    cell.attach_parent(hbox().classes("row"));
    assert_eq!(cell.describe(), "hbox.row > label.cell");
    let parent = cell.parent_element().unwrap();
    assert_eq!(parent.describe(), "hbox.row");
    assert!(parent.parent_element().is_none());
    cell.attach_parent(vbox());
    assert_eq!(cell.describe(), "vbox > label.cell");
}

#[test]
fn an_element_answers_for_its_id_class_and_states_only() {
    let element = label().id("main").classes("a b").hover(true);
    assert!(element.attribute_matches("id", AttributeOperator::Matches("main")));
    assert!(!element.attribute_matches("id", AttributeOperator::Matches("other")));
    assert!(!element.attribute_matches("id", AttributeOperator::Contains("main")));
    assert!(!element.attribute_matches("id", AttributeOperator::Exists));
    assert!(!element.attribute_matches("class", AttributeOperator::Matches("a")));
    assert!(!element.attribute_matches("class", AttributeOperator::Exists));
    assert!(!element.attribute_matches("class", AttributeOperator::StartsWith("a")));
    assert!(!element.attribute_matches("title", AttributeOperator::Contains("a")));
    assert!(element.pseudo_class_matches(PseudoClass::Hover));
    assert!(!element.pseudo_class_matches(PseudoClass::Active));
    assert!(!element.pseudo_class_matches(PseudoClass::Focus));
    assert!(!element.pseudo_class_matches(PseudoClass::FirstChild));
    assert!(!element.pseudo_class_matches(PseudoClass::Link));
    assert!(!element.pseudo_class_matches(PseudoClass::Visited));
    assert!(!element.pseudo_class_matches(PseudoClass::Lang("en")));
}

#[test]
fn a_clone_is_the_same_element() {
    let element = label().id("x").classes("a b").focus(true).parent(panel().id("p"));
    let copy = element.clone();
    assert_eq!(copy.describe(), element.describe());
    assert_eq!(copy.describe(), "panel#p > label#x.a.b:focus");
}

#[test]
fn the_unscoped_variables_element_has_every_attribute() {
    let element = VariableElement::Unscoped;
    assert!(element.has_local_name("variables"));
    assert!(!element.has_local_name("label"));
    assert!(element.attribute_matches("class", AttributeOperator::Contains("macos")));
    assert!(element.attribute_matches("id", AttributeOperator::Matches("x")));
    assert!(element.attribute_matches("title", AttributeOperator::Exists));
    assert!(!element.pseudo_class_matches(PseudoClass::Hover));
    assert!(element.parent_element().is_none());
    assert!(element.prev_sibling_element().is_none());
}

#[test]
fn the_scoped_variables_element_has_its_classes_only() {
    let classes = ["macos", "dark"];
    let element = VariableElement::Scoped(&classes);
    assert!(element.has_local_name("variables"));
    assert!(element.attribute_matches("class", AttributeOperator::Contains("macos")));
    assert!(element.attribute_matches("class", AttributeOperator::Contains("dark")));
    assert!(!element.attribute_matches("class", AttributeOperator::Contains("linux")));
    assert!(!element.attribute_matches("class", AttributeOperator::Matches("macos")));
    assert!(!element.attribute_matches("id", AttributeOperator::Matches("macos")));
    assert!(!element.pseudo_class_matches(PseudoClass::Focus));
    assert!(element.parent_element().is_none());
}

#[test]
fn the_scoped_variables_element_without_classes_has_no_attribute() {
    let element = VariableElement::Scoped(&[]);
    assert!(element.has_local_name("variables"));
    assert!(!element.attribute_matches("class", AttributeOperator::Contains("macos")));
    assert!(!element.attribute_matches("title", AttributeOperator::Exists));
}

#[test]
fn a_class_is_found_among_classes() {
    assert!(contains_class(&["a", "b"], "b"));
    assert!(!contains_class(&["a", "b"], "c"));
    assert!(!contains_class(&[], "a"));
    assert!(!contains_class(&["ab"], "a"));
}

#[test]
fn selectors_written_for_variables_are_recognised() {
    assert!(is_variable_block("variables"));
    assert!(is_variable_block("variables.macos"));
    assert!(is_variable_block("variables.dark.macos"));
    assert!(is_variable_block("variables[class~='macos']"));
    assert!(is_variable_block("variables#x"));
}

#[test]
fn other_selectors_are_not_written_for_variables() {
    assert!(!is_variable_block("*"));
    assert!(!is_variable_block(".macos"));
    assert!(!is_variable_block("*.macos"));
    assert!(!is_variable_block("label"));
    assert!(!is_variable_block("label.macos"));
    assert!(!is_variable_block("variables:hover"));
    assert!(!is_variable_block("panel variables"));
    assert!(!is_variable_block(""));
    assert!(!is_variable_block("{"));
}

#[test]
fn variables_are_in_scope_where_the_system_has_all_their_classes() {
    assert!(is_in_scope("variables", &[]));
    assert!(is_in_scope("variables", &["macos"]));
    assert!(is_in_scope("variables.macos", &["macos"]));
    assert!(is_in_scope("variables.macos", &["dark", "macos"]));
    assert!(is_in_scope("variables.dark.macos", &["macos", "dark"]));
    assert!(!is_in_scope("variables.macos", &[]));
    assert!(!is_in_scope("variables.macos", &["linux"]));
    assert!(!is_in_scope("variables.dark.macos", &["macos"]));
    assert!(!is_in_scope("label", &["macos"]));
    assert!(!is_in_scope("not a selector {", &["macos"]));
}

#[test]
fn the_universal_selector_is_in_scope_too() {
    assert!(is_in_scope("*", &["macos"]));
    assert!(!is_in_scope(".linux", &["macos"]));
    assert!(is_in_scope(".macos", &["macos"]));
}

#[test]
fn a_variable_map_binds_names() {
    let mut map = VariableMap::new();
    assert_eq!(map.get("pinky"), None);
    map.insert("pinky", "#F06");
    map.insert("os-padding", "6");
    assert_eq!(map.get("pinky"), Some("#F06"));
    assert_eq!(map.get("os-padding"), Some("6"));
    assert_eq!(map.get("missing"), None);
    assert_eq!(map.get(""), None);
}

#[test]
fn a_later_binding_replaces_an_earlier_one() {
    let mut map = VariableMap::new();
    map.insert("v", "1");
    map.insert("w", "x");
    map.insert("v", "2");
    assert_eq!(map.get("v"), Some("2"));
    assert_eq!(map.get("w"), Some("x"));
    map.insert("w", "y");
    map.insert("", "empty");
    assert_eq!(map.get("v"), Some("2"));
    assert_eq!(map.get("w"), Some("y"));
    assert_eq!(map.get(""), Some("empty"));
}

#[test]
fn a_selector_is_classified_by_match_and_weights() {
    assert!(classify(true, Some((0, 0, 1))));
    assert!(classify(true, Some((0, 1, 1))));
    assert!(classify(true, Some((1, 2, 3))));
    assert!(classify(true, Some((0, 0, 255))));
    assert!(!classify(true, Some((0, 0, 0))));
    assert!(!classify(true, Some((0, 1, 0))));
    assert!(!classify(true, Some((255, 255, 0))));
    assert!(!classify(true, None));
    assert!(!classify(false, Some((0, 0, 1))));
    assert!(!classify(false, Some((0, 0, 0))));
    assert!(!classify(false, None));
}
