//! Selectors. A selector is held as its text; the crate `simplecss` reads
//! the text and decides what it matches and how specific it is. What a
//! selector is matched against answers the questions of
//! `simplecss::Element`, and `ElementView` holds what decides the answers.

use crate::text::str_eq;
use vstd::prelude::*;

verus! {

/// `simplecss::AttributeOperator`, the test that a selector makes of an
/// attribute: that it exists, equals a text, holds a word or starts with a
/// text. Declared with its variants open, so that the answers below can
/// tell them apart; nothing is claimed of it.
#[verifier::external_type_specification]
pub struct ExAttributeOperator<'a>(simplecss::AttributeOperator<'a>);

/// `simplecss::PseudoClass`, the states that a selector can ask for.
/// Declared with its variants open; nothing is claimed of it.
#[verifier::external_type_specification]
pub struct ExPseudoClass<'a>(simplecss::PseudoClass<'a>);

/// What a selector can ask of an element: its name, its id, its classes,
/// its states and its parent. With `every_attribute` the element answers
/// every question about its attributes with yes.
pub struct ElementView {
    pub local: Seq<char>,
    pub id: Option<Seq<char>>,
    pub classes: Seq<Seq<char>>,
    pub every_attribute: bool,
    pub hover: bool,
    pub active: bool,
    pub focus: bool,
    pub parent: Option<Box<ElementView>>,
}

/// How an element answers a test of its attribute `name`: classes are
/// tested for membership, the id for equality, and no other attribute is
/// there.
pub open spec fn has_attribute<'a>(
    element: ElementView,
    name: Seq<char>,
    operator: simplecss::AttributeOperator<'a>,
) -> bool {
    element.every_attribute || match operator {
        simplecss::AttributeOperator::Contains(class) => name == "class"@
            && element.classes.contains(class@),
        simplecss::AttributeOperator::Matches(id) => name == "id"@ && element.id == Some(id@),
        _ => false,
    }
}

/// How an element answers a test of a state: hover, active and focus are
/// the states it knows.
pub open spec fn has_pseudo_class<'a>(
    element: ElementView,
    class: simplecss::PseudoClass<'a>,
) -> bool {
    match class {
        simplecss::PseudoClass::Hover => element.hover,
        simplecss::PseudoClass::Active => element.active,
        simplecss::PseudoClass::Focus => element.focus,
        _ => false,
    }
}

/// Whether the selector written `selector` matches `element`, as
/// `simplecss::Selector::matches` decides for the selector that
/// `simplecss::Selector::parse` reads from the text; `false` where the text
/// is no selector.
pub uninterp spec fn selector_match(selector: Seq<char>, element: ElementView) -> bool;

/// The three weights of the selector written `selector`, as
/// `simplecss::Selector::specificity` counts them: ids; classes, attributes
/// and states; element names. `None` where the text is no selector.
pub uninterp spec fn selector_specificity(selector: Seq<char>) -> Option<(u8, u8, u8)>;

/// The element that stands for `variables` blocks: it is named `variables`,
/// has no id, no state and no parent.
pub enum VariableElement<'a> {
    /// Has every attribute: any block written for `variables` matches it,
    /// whatever classes the block asks for.
    Unscoped,
    /// Has the classes given, and no other attribute.
    Scoped(&'a [&'a str]),
}

impl<'a> View for VariableElement<'a> {
    type V = ElementView;

    open spec fn view(&self) -> ElementView {
        match self {
            VariableElement::Unscoped => unscoped_variables(),
            VariableElement::Scoped(classes) => scoped_variables(classes.deep_view()),
        }
    }
}

/// The element `variables` that has every attribute.
pub open spec fn unscoped_variables() -> ElementView {
    ElementView {
        local: "variables"@,
        id: None,
        classes: Seq::empty(),
        every_attribute: true,
        hover: false,
        active: false,
        focus: false,
        parent: None,
    }
}

/// The element `variables` with the classes `classes`.
pub open spec fn scoped_variables(classes: Seq<Seq<char>>) -> ElementView {
    ElementView {
        local: "variables"@,
        id: None,
        classes,
        every_attribute: false,
        hover: false,
        active: false,
        focus: false,
        parent: None,
    }
}

/// Whether `class` is among `classes`.
pub fn contains_class(classes: &[&str], class: &str) -> (r: bool)
    ensures
        r == classes.deep_view().contains(class@),
{
    let ghost names = classes.deep_view();
    let mut i: usize = 0;
    while i < classes.len()
        invariant
            i <= classes.len(),
            names == classes.deep_view(),
            names.len() == classes.len(),
            forall|k: int| 0 <= k < i ==> names[k] != class@,
        decreases classes.len() - i,
    {
        assert(names[i as int] == classes[i as int]@);
        if str_eq(classes[i], class) {
            return true;
        }
        i += 1;
    }
    false
}

impl<'a> simplecss::Element for VariableElement<'a> {
    fn parent_element(&self) -> (r: Option<Self>)
        ensures
            r is None,
    {
        None
    }

    fn prev_sibling_element(&self) -> (r: Option<Self>)
        ensures
            r is None,
    {
        None
    }

    fn has_local_name(&self, name: &str) -> (r: bool)
        ensures
            r == (self@.local == name@),
    {
        str_eq(name, "variables")
    }

    fn attribute_matches(
        &self,
        local_name: &str,
        operator: simplecss::AttributeOperator<'_>,
    ) -> (r: bool)
        ensures
            r == has_attribute(self@, local_name@, operator),
    {
        match self {
            VariableElement::Unscoped => true,
            VariableElement::Scoped(classes) => match operator {
                simplecss::AttributeOperator::Contains(class) => str_eq(local_name, "class")
                    && contains_class(classes, class),
                _ => false,
            },
        }
    }

    fn pseudo_class_matches(&self, class: simplecss::PseudoClass<'_>) -> (r: bool)
        ensures
            r == has_pseudo_class(self@, class),
    {
        false
    }
}

/// Calls `simplecss::Selector::parse` on the text and
/// `simplecss::Selector::matches` on what it read, with the element
/// `variables`. A text that is no selector matches nothing. The contract
/// names the answer: it is decided by the text and by what the element
/// answers, which `ElementView` holds.
#[verifier::external_body]
pub(crate) fn matches_variables(selector: &str, element: &VariableElement) -> (r: bool)
    ensures
        r == selector_match(selector@, element@),
{
    simplecss::Selector::parse(selector).map_or(false, |s| s.matches(element))
}

/// Calls `simplecss::Selector::parse` on the text and
/// `simplecss::Selector::specificity` on what it read: the counts of ids, of
/// classes, attributes and states, and of element names in the selector,
/// each at most 255.
#[verifier::external_body]
pub(crate) fn specificity(selector: &str) -> (r: Option<(u8, u8, u8)>)
    ensures
        r == selector_specificity(selector@),
{
    simplecss::Selector::parse(selector).map(|s| s.specificity()).map(|w| (w[0], w[1], w[2]))
}

/// Whether a match and weights are those of a selector written for
/// `variables`: the selector matches the element `variables` that has every
/// attribute, and counts an element name. The universal selector matches
/// that element too, and counts none.
pub open spec fn is_variable_weight(matched: bool, weights: Option<(u8, u8, u8)>) -> bool {
    &&& matched
    &&& weights matches Some(w)
    &&& w.2 != 0
}

/// Whether a selector is written for `variables`.
pub open spec fn is_variable_selector(selector: Seq<char>) -> bool {
    is_variable_weight(
        selector_match(selector, unscoped_variables()),
        selector_specificity(selector),
    )
}

/// A selector that counts no element name is not written for `variables`:
/// the block of a universal selector stays a rule.
pub proof fn lemma_no_element_name_is_kept(selector: Seq<char>)
    requires
        selector_specificity(selector) matches Some(weights) && weights.2 == 0,
    ensures
        !is_variable_selector(selector),
{
}

/// Classifies a selector by what is known of it: whether it matches the
/// element `variables` that has every attribute, and its weights.
pub fn classify(matched: bool, weights: Option<(u8, u8, u8)>) -> (r: bool)
    ensures
        r == is_variable_weight(matched, weights),
{
    match weights {
        Some(w) => matched && w.2 != 0,
        None => false,
    }
}

/// Decides whether a selector is written for `variables`.
pub fn is_variable_block(selector: &str) -> (r: bool)
    ensures
        r == is_variable_selector(selector@),
{
    classify(matches_variables(selector, &VariableElement::Unscoped), specificity(selector))
}

/// Decides whether the variables of a block written with `selector` are in
/// scope under the system classes `classes`.
pub fn is_in_scope(selector: &str, classes: &[&str]) -> (r: bool)
    ensures
        r == selector_match(selector@, scoped_variables(classes.deep_view())),
{
    matches_variables(selector, &VariableElement::Scoped(classes))
}

} // verus!
