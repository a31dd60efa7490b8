//! Elements: light values that stand for the widgets of a user interface
//! toolkit, to be matched against the rules of a stylesheet.

use crate::declarations::Diagnostic;
use crate::properties::{ComputedProperties, ComputedPropertiesView};
use crate::rules::{cascade, unmatched, Rules};
use crate::selector::{
    contains_class, has_attribute, has_pseudo_class, selector_match, ElementView,
};
use crate::text::{split_whitespace, str_eq, words};
use vstd::prelude::*;
use vstd::string::StringExecFns;

verus! {

/// An element: a name, an id, classes, three states and a parent. No class
/// is held twice.
#[derive(Debug)]
pub struct Element {
    parent: Option<Box<Element>>,
    local: &'static str,
    id: Option<&'static str>,
    classes: Vec<&'static str>,
    hover: bool,
    active: bool,
    focus: bool,
}

/// The properties computed for an element.
pub struct ComputedElement(pub(crate) ComputedProperties);

impl ComputedElement {
    /// The properties held.
    pub closed spec fn properties(&self) -> ComputedProperties {
        self.0
    }

    pub fn props(&self) -> (props: &ComputedProperties)
        ensures
            *props == self.properties(),
    {
        &self.0
    }

    /// The properties, to be changed in place: what they are when the
    /// borrow ends is what the element holds from then on.
    pub fn props_mut(&mut self) -> (props: &mut ComputedProperties)
        ensures
            *props == old(self).properties(),
            final(self).properties() == *final(props),
    {
        &mut self.0
    }
}

impl View for ComputedElement {
    type V = ComputedPropertiesView;

    open spec fn view(&self) -> ComputedPropertiesView {
        self.properties()@
    }
}

impl Clone for ComputedElement {
    fn clone(&self) -> (r: Self)
        ensures
            r@ == self@,
    {
        ComputedElement(self.0.clone())
    }
}

/// `classes` with `class` added at the end, unless it is there.
pub open spec fn with_class(classes: Seq<Seq<char>>, class: Seq<char>) -> Seq<Seq<char>> {
    if classes.contains(class) {
        classes
    } else {
        classes.push(class)
    }
}

/// `classes` without `class`, the others in their order.
pub open spec fn without_class(classes: Seq<Seq<char>>, class: Seq<char>) -> Seq<Seq<char>>
    decreases classes.len(),
{
    if classes.len() == 0 {
        Seq::empty()
    } else if classes.last() == class {
        without_class(classes.drop_last(), class)
    } else {
        without_class(classes.drop_last(), class).push(classes.last())
    }
}

/// The names of `names`, each once, in the order in which they first occur.
pub open spec fn distinct(names: Seq<Seq<char>>) -> Seq<Seq<char>>
    decreases names.len(),
{
    if names.len() == 0 {
        Seq::empty()
    } else {
        with_class(distinct(names.drop_last()), names.last())
    }
}

/// Every class written with a dot before it.
pub open spec fn class_suffix(classes: Seq<Seq<char>>) -> Seq<char>
    decreases classes.len(),
{
    if classes.len() == 0 {
        Seq::empty()
    } else {
        class_suffix(classes.drop_last()) + "."@ + classes.last()
    }
}

/// `#` and the id, where there is one.
pub open spec fn id_suffix(id: Option<Seq<char>>) -> Seq<char> {
    match id {
        Some(id) => "#"@ + id,
        None => Seq::empty(),
    }
}

/// The states that are on, each after a colon.
pub open spec fn state_suffix(hover: bool, active: bool, focus: bool) -> Seq<char> {
    let hover = if hover {
        ":hover"@
    } else {
        Seq::empty()
    };
    let active = if active {
        ":active"@
    } else {
        Seq::empty()
    };
    let focus = if focus {
        ":focus"@
    } else {
        Seq::empty()
    };
    hover + active + focus
}

/// How an element is written out: its parents first, each followed by
/// ` > `, then its name, `#` and its id, each class after a dot, and the
/// states that are on.
pub open spec fn description(element: ElementView) -> Seq<char>
    decreases element,
{
    let path = match element.parent {
        Some(parent) => description(*parent) + " > "@,
        None => Seq::empty(),
    };
    path + element.local + id_suffix(element.id) + class_suffix(element.classes) + state_suffix(
        element.hover,
        element.active,
        element.focus,
    )
}

fn append_id(text: &mut String, id: Option<&str>)
    ensures
        final(text)@ == old(text)@ + id_suffix(
            match id {
                Some(id) => Some(id@),
                None => None,
            },
        ),
{
    let ghost before = text@;
    if let Some(id) = id {
        text.append("#");
        text.append(id);
        assert(text@ =~= before + ("#"@ + id@));
    } else {
        assert(text@ =~= before + Seq::<char>::empty());
    }
}

fn append_classes(text: &mut String, classes: &[&str])
    ensures
        final(text)@ == old(text)@ + class_suffix(classes.deep_view()),
{
    let ghost head = text@;
    let ghost all = classes.deep_view();
    let mut i: usize = 0;
    assert(all.take(0) =~= Seq::<Seq<char>>::empty());
    assert(text@ =~= head + class_suffix(all.take(0)));
    while i < classes.len()
        invariant
            i <= classes.len(),
            all == classes.deep_view(),
            all.len() == classes.len(),
            text@ == head + class_suffix(all.take(i as int)),
        decreases classes.len() - i,
    {
        assert(all[i as int] == classes[i as int]@);
        assert(all.take(i + 1).drop_last() =~= all.take(i as int));
        assert(all.take(i + 1).last() == all[i as int]);
        text.append(".");
        text.append(classes[i]);
        assert(text@ =~= head + class_suffix(all.take(i + 1)));
        i += 1;
    }
    assert(all.take(i as int) =~= all);
}

fn append_state(text: &mut String, on: bool, name: &str)
    ensures
        final(text)@ == old(text)@ + (if on {
            name@
        } else {
            Seq::empty()
        }),
{
    let ghost before = text@;
    if on {
        text.append(name);
    } else {
        assert(text@ =~= before + Seq::<char>::empty());
    }
}

proof fn lemma_without_keeps_distinct(classes: Seq<Seq<char>>, class: Seq<char>)
    requires
        classes.no_duplicates(),
    ensures
        without_class(classes, class).no_duplicates(),
        !without_class(classes, class).contains(class),
        forall|c: Seq<char>| #[trigger]
            without_class(classes, class).contains(c) ==> classes.contains(c),
    decreases classes.len(),
{
    if classes.len() > 0 {
        let rest = classes.drop_last();
        let kept = without_class(rest, class);
        lemma_without_keeps_distinct(rest, class);
        assert forall|c: Seq<char>| #[trigger] kept.contains(c) implies classes.contains(c) by {
            let i = choose|i: int| 0 <= i < rest.len() && rest[i] == c;
            assert(classes[i] == c);
        }
        if classes.last() != class {
            let out = kept.push(classes.last());
            assert(!kept.contains(classes.last())) by {
                if kept.contains(classes.last()) {
                    let i = choose|i: int| 0 <= i < rest.len() && rest[i] == classes.last();
                    assert(classes[i] == classes[classes.len() - 1]);
                }
            }
            assert forall|c: Seq<char>| #[trigger] out.contains(c) implies classes.contains(c) by {
                let i = choose|i: int| 0 <= i < out.len() && out[i] == c;
                if i < kept.len() {
                    assert(kept.contains(c));
                } else {
                    assert(classes[classes.len() - 1] == c);
                }
            }
            assert(!out.contains(class)) by {
                if out.contains(class) {
                    let i = choose|i: int| 0 <= i < out.len() && out[i] == class;
                    if i < kept.len() {
                        assert(kept.contains(class));
                    }
                }
            }
        }
    }
}

fn copy_names(names: &Vec<&'static str>) -> (r: Vec<&'static str>)
    ensures
        r@ == names@,
{
    let mut r: Vec<&'static str> = Vec::new();
    let mut i: usize = 0;
    while i < names.len()
        invariant
            i <= names.len(),
            r@ == names@.take(i as int),
        decreases names.len() - i,
    {
        r.push(names[i]);
        i += 1;
    }
    r
}

impl View for Element {
    type V = ElementView;

    closed spec fn view(&self) -> ElementView {
        self.model()
    }
}

impl Element {
    #[verifier::type_invariant]
    spec fn well_formed(self) -> bool {
        self.classes.deep_view().no_duplicates()
    }

    spec fn model(&self) -> ElementView
        decreases self,
    {
        ElementView {
            local: self.local@,
            id: match self.id {
                Some(id) => Some(id@),
                None => None,
            },
            classes: self.classes.deep_view(),
            every_attribute: false,
            hover: self.hover,
            active: self.active,
            focus: self.focus,
            parent: match self.parent {
                Some(parent) => Some(Box::new(parent.model())),
                None => None,
            },
        }
    }

    /// The element named `local`, with no id, no class, no state on and no
    /// parent.
    pub fn new(local: &'static str) -> (element: Element)
        ensures
            element@ == plain_element(local@),
    {
        let element = Element {
            local,
            id: None,
            classes: Vec::new(),
            hover: false,
            active: false,
            focus: false,
            parent: None,
        };
        assert(element.classes.deep_view() =~= Seq::<Seq<char>>::empty());
        element
    }

    pub fn id(self, id: &'static str) -> (element: Element)
        ensures
            element@ == (ElementView { id: Some(id@), ..self@ }),
    {
        let mut element = self;
        proof {
            use_type_invariant(&element);
        }
        element.id = Some(id);
        element
    }

    /// Sets the classes to the words of `classes`, each once.
    pub fn classes(self, classes: &'static str) -> (element: Element)
        ensures
            element@ == (ElementView { classes: distinct(words(classes@)), ..self@ }),
            element@.classes.no_duplicates(),
    {
        let names = split_whitespace(classes);
        let ghost all = names.deep_view();
        let mut kept: Vec<&'static str> = Vec::new();
        let mut i: usize = 0;
        assert(all.take(0) =~= Seq::<Seq<char>>::empty());
        assert(kept.deep_view() =~= Seq::<Seq<char>>::empty());
        while i < names.len()
            invariant
                i <= names.len(),
                all == names.deep_view(),
                all.len() == names.len(),
                kept.deep_view() == distinct(all.take(i as int)),
                kept.deep_view().no_duplicates(),
            decreases names.len() - i,
        {
            let ghost before = kept.deep_view();
            assert(all[i as int] == names[i as int]@);
            assert(all.take(i + 1).drop_last() =~= all.take(i as int));
            assert(all.take(i + 1).last() == all[i as int]);
            if !contains_class(kept.as_slice(), names[i]) {
                kept.push(names[i]);
                assert(kept.deep_view() =~= before.push(all[i as int]));
            }
            i += 1;
        }
        assert(all.take(i as int) =~= all);
        let mut element = self;
        proof {
            use_type_invariant(&element);
        }
        element.classes = kept;
        element
    }

    pub fn hover(self, hover: bool) -> (element: Element)
        ensures
            element@ == (ElementView { hover, ..self@ }),
    {
        let mut element = self;
        proof {
            use_type_invariant(&element);
        }
        element.hover = hover;
        element
    }

    pub fn active(self, active: bool) -> (element: Element)
        ensures
            element@ == (ElementView { active, ..self@ }),
    {
        let mut element = self;
        proof {
            use_type_invariant(&element);
        }
        element.active = active;
        element
    }

    pub fn focus(self, focus: bool) -> (element: Element)
        ensures
            element@ == (ElementView { focus, ..self@ }),
    {
        let mut element = self;
        proof {
            use_type_invariant(&element);
        }
        element.focus = focus;
        element
    }

    pub fn parent(self, parent: Element) -> (element: Element)
        ensures
            element@ == (ElementView { parent: Some(Box::new(parent@)), ..self@ }),
    {
        let mut element = self;
        proof {
            use_type_invariant(&element);
        }
        element.parent = Some(Box::new(parent));
        element
    }

    /// Adds `class`, unless the element has it.
    pub fn add_class(&mut self, class: &'static str)
        ensures
            final(self)@ == (ElementView {
                classes: with_class(old(self)@.classes, class@),
                ..old(self)@
            }),
    {
        proof {
            use_type_invariant(&*self);
        }
        if !contains_class(self.classes.as_slice(), class) {
            let mut classes: Vec<&'static str> = Vec::new();
            core::mem::swap(&mut self.classes, &mut classes);
            let ghost before = classes.deep_view();
            classes.push(class);
            assert(classes.deep_view() =~= before.push(class@));
            core::mem::swap(&mut self.classes, &mut classes);
        }
    }

    /// Removes `class`, if the element has it.
    pub fn remove_class(&mut self, class: &'static str)
        ensures
            final(self)@ == (ElementView {
                classes: without_class(old(self)@.classes, class@),
                ..old(self)@
            }),
    {
        proof {
            use_type_invariant(&*self);
        }
        let ghost all = self.classes.deep_view();
        let mut kept: Vec<&'static str> = Vec::new();
        let mut i: usize = 0;
        assert(all.take(0) =~= Seq::<Seq<char>>::empty());
        assert(kept.deep_view() =~= Seq::<Seq<char>>::empty());
        while i < self.classes.len()
            invariant
                i <= self.classes.len(),
                all == self.classes.deep_view(),
                all.len() == self.classes.len(),
                kept.deep_view() == without_class(all.take(i as int), class@),
            decreases self.classes.len() - i,
        {
            let ghost before = kept.deep_view();
            assert(all[i as int] == self.classes[i as int]@);
            assert(all.take(i + 1).drop_last() =~= all.take(i as int));
            assert(all.take(i + 1).last() == all[i as int]);
            if !str_eq(self.classes[i], class) {
                kept.push(self.classes[i]);
                assert(kept.deep_view() =~= before.push(all[i as int]));
            }
            i += 1;
        }
        assert(all.take(i as int) =~= all);
        proof {
            lemma_without_keeps_distinct(all, class@);
        }
        self.classes = kept;
    }

    pub fn attach_parent(&mut self, parent: Element)
        ensures
            final(self)@ == (ElementView { parent: Some(Box::new(parent@)), ..old(self)@ }),
    {
        proof {
            use_type_invariant(&*self);
        }
        self.parent = Some(Box::new(parent));
    }

    /// Adds `class` where `on` holds, removes it where not.
    pub fn toggle_class(&mut self, class: &'static str, on: bool)
        ensures
            final(self)@ == (ElementView {
                classes: if on {
                    with_class(old(self)@.classes, class@)
                } else {
                    without_class(old(self)@.classes, class@)
                },
                ..old(self)@
            }),
    {
        if on {
            self.add_class(class);
        } else {
            self.remove_class(class);
        }
    }

    /// The classes of the element, in the order in which it took them. None
    /// is there twice.
    pub fn class_names(&self) -> (names: &[&'static str])
        ensures
            names.deep_view() == self@.classes,
            self@.classes.no_duplicates(),
    {
        proof {
            use_type_invariant(self);
        }
        let names = self.classes.as_slice();
        assert(names.deep_view() =~= self.classes.deep_view());
        names
    }

    /// The properties that `rules` give the element.
    pub fn compute(&self, rules: &Rules) -> (computed: ComputedElement)
        ensures
            computed@ == cascade(rules@.rules, self@),
    {
        ComputedElement(rules.solve(self))
    }

    /// The properties that `rules` give the element, and a warning where no
    /// rule matched it.
    pub fn compute_reporting(&self, rules: &Rules) -> (r: (ComputedElement, Option<Diagnostic>))
        ensures
            r.0@ == cascade(rules@.rules, self@),
            r.1.deep_view() == unmatched(rules@.rules, self@),
    {
        let (props, warning) = rules.solve_reporting(self);
        (ComputedElement(props), warning)
    }

    /// Writes the element out, as `description` says.
    pub fn describe(&self) -> (text: String)
        ensures
            text@ == description(self@),
        decreases self,
    {
        let mut text = match &self.parent {
            Some(parent) => {
                let mut path = parent.describe();
                path.append(" > ");
                path
            },
            None => String::new(),
        };
        let ghost path = text@;
        text.append(self.local);
        append_id(&mut text, self.id);
        append_classes(&mut text, self.classes.as_slice());
        let ghost named = text@;
        append_state(&mut text, self.hover, ":hover");
        append_state(&mut text, self.active, ":active");
        append_state(&mut text, self.focus, ":focus");
        proof {
            let view = self@;
            assert(named == path + view.local + id_suffix(view.id) + class_suffix(view.classes));
            assert(text@ =~= named + state_suffix(view.hover, view.active, view.focus));
        }
        text
    }
}

/// The view of an element that has a name and nothing else.
pub open spec fn plain_element(local: Seq<char>) -> ElementView {
    ElementView {
        local,
        id: None,
        classes: Seq::empty(),
        every_attribute: false,
        hover: false,
        active: false,
        focus: false,
        parent: None,
    }
}

impl Clone for Element {
    fn clone(&self) -> (r: Self)
        ensures
            r@ == self@,
        decreases self,
    {
        proof {
            use_type_invariant(self);
        }
        let parent = match &self.parent {
            Some(parent) => Some(Box::new((&**parent).clone())),
            None => None,
        };
        Element {
            parent,
            local: self.local,
            id: self.id,
            classes: copy_names(&self.classes),
            hover: self.hover,
            active: self.active,
            focus: self.focus,
        }
    }
}

impl simplecss::Element for Element {
    fn parent_element(&self) -> (r: Option<Self>)
        ensures
            r is Some == self@.parent is Some,
            r matches Some(parent) ==> self@.parent == Some(Box::new(parent@)),
    {
        match &self.parent {
            Some(parent) => Some((&**parent).clone()),
            None => None,
        }
    }

    fn prev_sibling_element(&self) -> (r: Option<Self>)
        ensures
            r is None,
    {
        None
    }

    fn has_local_name(&self, name: &str) -> (r: bool)
        ensures
            r == (self@.local == name@),
    {
        str_eq(self.local, name)
    }

    fn attribute_matches(
        &self,
        local_name: &str,
        operator: simplecss::AttributeOperator<'_>,
    ) -> (r: bool)
        ensures
            r == has_attribute(self@, local_name@, operator),
    {
        match operator {
            simplecss::AttributeOperator::Contains(class) => str_eq(local_name, "class")
                && contains_class(self.classes.as_slice(), class),
            simplecss::AttributeOperator::Matches(id) => str_eq(local_name, "id") && match self.id {
                Some(own) => str_eq(own, id),
                None => false,
            },
            _ => false,
        }
    }

    fn pseudo_class_matches(&self, class: simplecss::PseudoClass<'_>) -> (r: bool)
        ensures
            r == has_pseudo_class(self@, class),
    {
        match class {
            simplecss::PseudoClass::Hover => self.hover,
            simplecss::PseudoClass::Active => self.active,
            simplecss::PseudoClass::Focus => self.focus,
            _ => false,
        }
    }
}

/// Calls `simplecss::Selector::parse` on the text and
/// `simplecss::Selector::matches` on what it read, with `element`. A text
/// that is no selector matches nothing. The contract names the answer: it
/// is decided by the text and by what the element and its parents answer,
/// which `ElementView` holds.
#[verifier::external_body]
pub(crate) fn matches_element(selector: &str, element: &Element) -> (r: bool)
    ensures
        r == selector_match(selector@, element@),
{
    simplecss::Selector::parse(selector).map_or(false, |s| s.matches(element))
}

pub fn window() -> (element: Element)
    ensures
        element@ == plain_element("window"@),
{
    Element::new("window")
}

pub fn native() -> (element: Element)
    ensures
        element@ == plain_element("native"@),
{
    Element::new("native")
}

pub fn label() -> (element: Element)
    ensures
        element@ == plain_element("label"@),
{
    Element::new("label")
}

pub fn vbox() -> (element: Element)
    ensures
        element@ == plain_element("vbox"@),
{
    Element::new("vbox")
}

pub fn hbox() -> (element: Element)
    ensures
        element@ == plain_element("hbox"@),
{
    Element::new("hbox")
}

pub fn panel() -> (element: Element)
    ensures
        element@ == plain_element("panel"@),
{
    Element::new("panel")
}

} // verus!
