//! The compiled rule set, and the cascade that computes the properties of
//! an element from it.
//!
//! The cascade asks for every rule whether its selector matches the
//! element, and then folds the rules that match over the defaults, first to
//! last. The second step knows nothing of selectors: it takes one flag for
//! each rule.

use crate::declarations::{Diagnostic, DiagnosticView};
use crate::element::{description, matches_element, Element};
use crate::properties::{
    default_properties, lemma_patch_get, patch, prefer, ComputedProperties,
    ComputedPropertiesView, OptionalProperties, OptionalPropertiesView, Property,
};
use crate::selector::{selector_match, ElementView};
use vstd::prelude::*;

verus! {

/// A compiled rule: a selector, and what the rule sets on the elements that
/// the selector matches.
pub struct Rule {
    pub(crate) selector: String,
    pub(crate) properties: OptionalProperties,
}

pub struct RuleView {
    pub selector: Seq<char>,
    pub properties: OptionalPropertiesView,
}

impl View for Rule {
    type V = RuleView;

    closed spec fn view(&self) -> RuleView {
        RuleView { selector: self.selector@, properties: self.properties@ }
    }
}

impl DeepView for Rule {
    type V = RuleView;

    open spec fn deep_view(&self) -> RuleView {
        self@
    }
}

impl Rule {
    pub fn new(selector: &str, properties: OptionalProperties) -> (rule: Rule)
        ensures
            rule@ == (RuleView { selector: selector@, properties: properties@ }),
    {
        Rule { selector: selector.to_owned(), properties }
    }

    pub fn selector(&self) -> (selector: &str)
        ensures
            selector@ == self@.selector,
    {
        self.selector.as_str()
    }

    pub fn properties(&self) -> (properties: &OptionalProperties)
        ensures
            properties@ == self@.properties,
    {
        &self.properties
    }
}

/// A compiled rule set: the source it was compiled from and its rules, in
/// the order in which they apply. It is never changed, only replaced.
pub struct Rules {
    source: String,
    rules: Vec<Rule>,
}

pub struct RulesView {
    pub source: Seq<char>,
    pub rules: Seq<RuleView>,
}

impl View for Rules {
    type V = RulesView;

    closed spec fn view(&self) -> RulesView {
        RulesView { source: self.source@, rules: self.rules.deep_view() }
    }
}

/// Whether place `i` is flagged: a place beyond the flags is not.
pub open spec fn flagged(flags: Seq<bool>, i: int) -> bool {
    0 <= i < flags.len() && flags[i]
}

/// Whether a place is flagged at all.
pub open spec fn any_flagged(flags: Seq<bool>) -> bool {
    exists|i: int| flagged(flags, i)
}

/// For every rule, whether its selector matches `element`.
pub open spec fn matches_of(rules: Seq<RuleView>, element: ElementView) -> Seq<bool> {
    Seq::new(rules.len(), |i: int| selector_match(rules[i].selector, element))
}

/// The defaults, patched by every rule whose place is flagged in `matched`,
/// first rule to last. A later rule overwrites what an earlier one has set.
pub open spec fn cascade_of(rules: Seq<RuleView>, matched: Seq<bool>) -> ComputedPropertiesView
    decreases rules.len(),
{
    if rules.len() == 0 {
        default_properties()
    } else {
        let before = cascade_of(rules.drop_last(), matched);
        if flagged(matched, rules.len() - 1) {
            patch(before, rules.last().properties)
        } else {
            before
        }
    }
}

/// The properties that `rules` give `element`: the defaults, patched by
/// every rule that matches, first to last. A later rule overwrites what an
/// earlier one has set, whatever the selectors of the two.
pub open spec fn cascade(rules: Seq<RuleView>, element: ElementView) -> ComputedPropertiesView {
    cascade_of(rules, matches_of(rules, element))
}

/// Whether one rule at least matches `element`.
pub open spec fn any_match(rules: Seq<RuleView>, element: ElementView) -> bool {
    any_flagged(matches_of(rules, element))
}

/// The warning for an element that no rule matched, and none for one that a
/// rule matched.
pub open spec fn unmatched(rules: Seq<RuleView>, element: ElementView) -> Option<DiagnosticView> {
    if any_match(rules, element) {
        None
    } else {
        Some(DiagnosticView::NoRuleMatched { element: description(element) })
    }
}

/// With no rule, the result is the defaults.
pub proof fn lemma_no_rules(matched: Seq<bool>)
    ensures
        cascade_of(Seq::empty(), matched) == default_properties(),
{
}

/// Where no rule is flagged, the result is the defaults.
pub proof fn lemma_unmatched_has_defaults(rules: Seq<RuleView>, matched: Seq<bool>)
    requires
        forall|i: int| 0 <= i < rules.len() ==> !flagged(matched, i),
    ensures
        cascade_of(rules, matched) == default_properties(),
    decreases rules.len(),
{
    if rules.len() > 0 {
        lemma_unmatched_has_defaults(rules.drop_last(), matched);
    }
}

/// Under a single rule that is flagged, every property that the rule sets
/// has the value from the rule, and every other property has its default.
pub proof fn lemma_single_rule(rule: RuleView, p: Property)
    ensures
        cascade_of(seq![rule], seq![true]).get(p) == prefer(
            rule.properties.get(p),
            default_properties().get(p),
        ),
{
    let rules = seq![rule];
    assert(rules.drop_last() =~= Seq::<RuleView>::empty());
    assert(rules.last() == rule);
    assert(cascade_of(rules.drop_last(), seq![true]) == default_properties());
    lemma_patch_get(default_properties(), rule.properties, p);
}

/// The last flagged rule that sets a property decides the property: where
/// rule `j` is flagged and sets `p`, and no later rule both is flagged and
/// sets `p`, the result has the value of rule `j`, whatever rules come
/// before it.
pub proof fn lemma_last_rule_wins(rules: Seq<RuleView>, matched: Seq<bool>, j: int, p: Property)
    requires
        0 <= j < rules.len(),
        flagged(matched, j),
        rules[j].properties.get(p) is Some,
        forall|k: int|
            j < k < rules.len() ==> !(flagged(matched, k) && (
            #[trigger] rules[k]).properties.get(p) is Some),
    ensures
        Some(cascade_of(rules, matched).get(p)) == rules[j].properties.get(p),
    decreases rules.len(),
{
    let last = rules.len() - 1;
    let rest = rules.drop_last();
    let before = cascade_of(rest, matched);
    if j == last {
        lemma_patch_get(before, rules[last].properties, p);
    } else {
        assert(rest[j] == rules[j]);
        assert forall|k: int| j < k < rest.len() implies !(flagged(matched, k) && (
        #[trigger] rest[k]).properties.get(p) is Some) by {
            assert(rest[k] == rules[k]);
        }
        lemma_last_rule_wins(rest, matched, j, p);
        assert(!(flagged(matched, last) && rules[last].properties.get(p) is Some));
        if flagged(matched, last) {
            lemma_patch_get(before, rules[last].properties, p);
        }
    }
}

/// A property that no flagged rule sets has its default.
pub proof fn lemma_unset_has_default(rules: Seq<RuleView>, matched: Seq<bool>, p: Property)
    requires
        forall|k: int|
            0 <= k < rules.len() ==> !(flagged(matched, k) && (
            #[trigger] rules[k]).properties.get(p) is Some),
    ensures
        cascade_of(rules, matched).get(p) == default_properties().get(p),
    decreases rules.len(),
{
    if rules.len() > 0 {
        let last = rules.len() - 1;
        let rest = rules.drop_last();
        assert forall|k: int| 0 <= k < rest.len() implies !(flagged(matched, k) && (
        #[trigger] rest[k]).properties.get(p) is Some) by {
            assert(rest[k] == rules[k]);
        }
        lemma_unset_has_default(rest, matched, p);
        assert(!(flagged(matched, last) && rules[last].properties.get(p) is Some));
        if flagged(matched, last) {
            lemma_patch_get(cascade_of(rest, matched), rules[last].properties, p);
        }
    }
}

/// With no rule, every element has the defaults.
pub proof fn lemma_no_rules_for_element(element: ElementView)
    ensures
        cascade(Seq::empty(), element) == default_properties(),
{
}

/// An element that no rule matches has the defaults.
pub proof fn lemma_unmatched_element_has_defaults(rules: Seq<RuleView>, element: ElementView)
    requires
        !any_match(rules, element),
    ensures
        cascade(rules, element) == default_properties(),
{
    let matched = matches_of(rules, element);
    assert forall|i: int| 0 <= i < rules.len() implies !flagged(matched, i) by {
        if flagged(matched, i) {
            assert(any_flagged(matched));
        }
    }
    lemma_unmatched_has_defaults(rules, matched);
}

/// Under a single rule whose selector matches the element, every property
/// that the rule sets has the value from the rule, and every other property
/// has its default.
pub proof fn lemma_single_matching_rule(rule: RuleView, element: ElementView, p: Property)
    requires
        selector_match(rule.selector, element),
    ensures
        cascade(seq![rule], element).get(p) == prefer(
            rule.properties.get(p),
            default_properties().get(p),
        ),
{
    let rules = seq![rule];
    assert(matches_of(rules, element) =~= seq![true]);
    lemma_single_rule(rule, p);
}

/// The last rule that matches the element and sets a property decides the
/// property: where rule `j` matches and sets `p`, and no later rule both
/// matches and sets `p`, the element has the value of rule `j`, whatever
/// rules come before it and whatever the selectors are.
pub proof fn lemma_last_matching_rule_wins(
    rules: Seq<RuleView>,
    element: ElementView,
    j: int,
    p: Property,
)
    requires
        0 <= j < rules.len(),
        selector_match(rules[j].selector, element),
        rules[j].properties.get(p) is Some,
        forall|k: int|
            j < k < rules.len() ==> !(selector_match((#[trigger] rules[k]).selector, element)
                && rules[k].properties.get(p) is Some),
    ensures
        Some(cascade(rules, element).get(p)) == rules[j].properties.get(p),
{
    lemma_last_rule_wins(rules, matches_of(rules, element), j, p);
}

/// Of two rules that both match the element and both set a property, the
/// later one decides it.
pub proof fn lemma_later_rule_wins(
    earlier: RuleView,
    later: RuleView,
    element: ElementView,
    p: Property,
)
    requires
        selector_match(earlier.selector, element),
        selector_match(later.selector, element),
        earlier.properties.get(p) is Some,
        later.properties.get(p) is Some,
    ensures
        Some(cascade(seq![earlier, later], element).get(p)) == later.properties.get(p),
{
    let rules = seq![earlier, later];
    assert(rules[1] == later);
    lemma_last_matching_rule_wins(rules, element, 1, p);
}

/// Whether a flag is set among `flags`.
pub fn any(flags: &[bool]) -> (r: bool)
    ensures
        r == any_flagged(flags@),
{
    let mut i: usize = 0;
    while i < flags.len()
        invariant
            i <= flags.len(),
            forall|k: int| 0 <= k < i ==> !flagged(flags@, k),
        decreases flags.len() - i,
    {
        if flags[i] {
            assert(flagged(flags@, i as int));
            return true;
        }
        i += 1;
    }
    false
}

impl Rules {
    /// The rule set of `rules`, in their order, compiled from `source`.
    pub fn new(source: String, rules: Vec<Rule>) -> (set: Rules)
        ensures
            set@ == (RulesView { source: source@, rules: rules.deep_view() }),
    {
        Rules { source, rules }
    }

    pub fn source(&self) -> (source: &str)
        ensures
            source@ == self@.source,
    {
        self.source.as_str()
    }

    pub fn rules(&self) -> (rules: &[Rule])
        ensures
            rules.deep_view() == self@.rules,
    {
        let rules = self.rules.as_slice();
        assert(rules.deep_view() =~= self.rules.deep_view());
        rules
    }

    /// Asks for every rule whether its selector matches `element`.
    pub fn matches(&self, element: &Element) -> (matched: Vec<bool>)
        ensures
            matched@ == matches_of(self@.rules, element@),
    {
        let ghost all = self.rules.deep_view();
        let mut matched: Vec<bool> = Vec::new();
        let mut i: usize = 0;
        while i < self.rules.len()
            invariant
                i <= self.rules.len(),
                all == self.rules.deep_view(),
                all.len() == self.rules.len(),
                matched.len() == i,
                forall|k: int|
                    0 <= k < i ==> matched@[k] == selector_match(
                        (#[trigger] all[k]).selector,
                        element@,
                    ),
            decreases self.rules.len() - i,
        {
            assert(all[i as int] == self.rules[i as int]@);
            matched.push(matches_element(self.rules[i].selector.as_str(), element));
            i += 1;
        }
        assert(matched@ =~= matches_of(all, element@));
        matched
    }

    /// Folds the rules whose place is flagged in `matched` over the
    /// defaults, first to last.
    pub fn solve_matched(&self, matched: &[bool]) -> (props: ComputedProperties)
        ensures
            props@ == cascade_of(self@.rules, matched@),
    {
        let ghost all = self.rules.deep_view();
        let mut props = ComputedProperties::default();
        let mut i: usize = 0;
        assert(all.take(0) =~= Seq::<RuleView>::empty());
        while i < self.rules.len()
            invariant
                i <= self.rules.len(),
                all == self.rules.deep_view(),
                all.len() == self.rules.len(),
                props@ == cascade_of(all.take(i as int), matched@),
            decreases self.rules.len() - i,
        {
            assert(all[i as int] == self.rules[i as int]@);
            assert(all.take(i + 1).drop_last() =~= all.take(i as int));
            assert(all.take(i + 1).last() == all[i as int]);
            if i < matched.len() && matched[i] {
                props.patch_from(&self.rules[i].properties);
            }
            i += 1;
        }
        assert(all.take(i as int) =~= all);
        props
    }

    /// Computes the properties of `element`: the defaults, patched by every
    /// rule that matches it, in the order of the rules.
    pub fn solve(&self, element: &Element) -> (props: ComputedProperties)
        ensures
            props@ == cascade(self@.rules, element@),
    {
        let matched = self.matches(element);
        self.solve_matched(matched.as_slice())
    }

    /// Computes the properties of `element` as `solve` does, and warns
    /// where no rule matched it.
    pub fn solve_reporting(&self, element: &Element) -> (r: (
        ComputedProperties,
        Option<Diagnostic>,
    ))
        ensures
            r.0@ == cascade(self@.rules, element@),
            r.1.deep_view() == unmatched(self@.rules, element@),
    {
        let matched = self.matches(element);
        let props = self.solve_matched(matched.as_slice());
        if any(matched.as_slice()) {
            (props, None)
        } else {
            (props, Some(Diagnostic::NoRuleMatched { element: element.describe() }))
        }
    }
}

} // verus!
