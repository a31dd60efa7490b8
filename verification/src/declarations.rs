//! Declarations, and what a rule makes of them: variable references are
//! resolved against a variable map, and each value is read as the type that
//! the schema gives its property. A value that cannot be read leaves its
//! property unset and is reported; nothing here fails as a whole.

use crate::color::{color_of, Color, ColorView};
use crate::properties::{
    is_property_name, property_at, slot_view, Kind, OptionalProperties, OptionalPropertiesView,
    Property, Value, PROPERTY_COUNT,
};
use crate::scalar::{is_number, Scalar};
use crate::text::{str_eq, to_chars};
use crate::values::{
    align_of, flag_of, font_family_of, parse_flag, radius_of, sides_of, Align, FontFamily, Radius,
    RadiusView, Sides, SidesView,
};
use crate::variables::VariableMap;
use std::str::FromStr;
use vstd::prelude::*;
use vstd::string::StringExecFns;

verus! {

/// One declaration of a rule: the name of a property and the raw text of its
/// value.
#[derive(Debug, PartialEq, Eq)]
pub struct Declaration {
    pub name: String,
    pub value: String,
}

pub struct DeclarationView {
    pub name: Seq<char>,
    pub value: Seq<char>,
}

impl View for Declaration {
    type V = DeclarationView;

    open spec fn view(&self) -> DeclarationView {
        DeclarationView { name: self.name@, value: self.value@ }
    }
}

impl DeepView for Declaration {
    type V = DeclarationView;

    open spec fn deep_view(&self) -> DeclarationView {
        self@
    }
}

impl Declaration {
    pub fn new(name: &str, value: &str) -> (declaration: Declaration)
        ensures
            declaration@ == (DeclarationView { name: name@, value: value@ }),
    {
        Declaration { name: name.to_owned(), value: value.to_owned() }
    }
}

impl Clone for Declaration {
    fn clone(&self) -> (r: Self)
        ensures
            r@ == self@,
    {
        Declaration { name: self.name.clone(), value: self.value.clone() }
    }
}

/// A warning. None of them stops the work: the property concerned keeps its
/// default, the element its defaults.
#[derive(Debug, PartialEq, Eq)]
pub enum Diagnostic {
    /// A declaration names no property of the schema.
    UnknownProperty { name: String },
    /// The value of a property cannot be read as its type.
    UnparsableValue { property: Property },
    /// The value of a property refers to a variable that is not defined.
    UnresolvedVariable { property: Property },
    /// No rule matched the element described.
    NoRuleMatched { element: String },
}

pub enum DiagnosticView {
    UnknownProperty { name: Seq<char> },
    UnparsableValue { property: Property },
    UnresolvedVariable { property: Property },
    NoRuleMatched { element: Seq<char> },
}

impl View for Diagnostic {
    type V = DiagnosticView;

    open spec fn view(&self) -> DiagnosticView {
        match self {
            Diagnostic::UnknownProperty { name } => DiagnosticView::UnknownProperty { name: name@ },
            Diagnostic::UnparsableValue { property } => DiagnosticView::UnparsableValue {
                property: *property,
            },
            Diagnostic::UnresolvedVariable { property } => DiagnosticView::UnresolvedVariable {
                property: *property,
            },
            Diagnostic::NoRuleMatched { element } => DiagnosticView::NoRuleMatched {
                element: element@,
            },
        }
    }
}

impl DeepView for Diagnostic {
    type V = DiagnosticView;

    open spec fn deep_view(&self) -> DiagnosticView {
        self@
    }
}

/// What a warning says.
pub open spec fn message_of(diagnostic: DiagnosticView) -> Seq<char> {
    match diagnostic {
        DiagnosticView::UnknownProperty { name } => "Unknown property: "@ + name,
        DiagnosticView::UnparsableValue { property } => "Can't parse `"@ + property.key()
            + "` value"@,
        DiagnosticView::UnresolvedVariable { property } => "Can't resolve the variable of `"@
            + property.key() + "`"@,
        DiagnosticView::NoRuleMatched { element } => "Couldn't match any rules for element: "@
            + element,
    }
}

impl Diagnostic {
    /// The warning in words, for a log.
    pub fn message(&self) -> (text: String)
        ensures
            text@ == message_of(self@),
    {
        match self {
            Diagnostic::UnknownProperty { name } => {
                let mut text = "Unknown property: ".to_owned();
                text.append(name.as_str());
                text
            },
            Diagnostic::UnparsableValue { property } => {
                let mut text = "Can't parse `".to_owned();
                text.append(property.name());
                text.append("` value");
                text
            },
            Diagnostic::UnresolvedVariable { property } => {
                let mut text = "Can't resolve the variable of `".to_owned();
                text.append(property.name());
                text.append("`");
                text
            },
            Diagnostic::NoRuleMatched { element } => {
                let mut text = "Couldn't match any rules for element: ".to_owned();
                text.append(element.as_str());
                text
            },
        }
    }
}

/// What the declarations of a rule say of one property.
pub enum Resolution {
    /// No declaration names the property.
    Absent,
    /// The declaration refers to a variable that is not defined.
    Unresolved,
    /// The text to read the value from: the value of the declaration, or
    /// that of the variable it refers to.
    Text(Seq<char>),
}

/// As `Resolution`, with the text borrowed from the declaration or from the
/// variable map.
pub enum Resolved<'a> {
    Absent,
    Unresolved,
    Text(&'a str),
}

impl<'a> View for Resolved<'a> {
    type V = Resolution;

    open spec fn view(&self) -> Resolution {
        match self {
            Resolved::Absent => Resolution::Absent,
            Resolved::Unresolved => Resolution::Unresolved,
            Resolved::Text(text) => Resolution::Text(text@),
        }
    }
}

/// The index of the first declaration at or after `from` that is named
/// `name`, or the number of declarations where there is none.
pub open spec fn declaration_index(
    declarations: Seq<DeclarationView>,
    name: Seq<char>,
    from: int,
) -> int
    decreases declarations.len() - from,
{
    if 0 <= from < declarations.len() && declarations[from].name != name {
        declaration_index(declarations, name, from + 1)
    } else {
        from
    }
}

/// The variable that `value` refers to: the text between `var(` and `)`
/// where `value` has that form.
pub open spec fn variable_reference(value: Seq<char>) -> Option<Seq<char>> {
    if value.len() >= 5 && value[0] == 'v' && value[1] == 'a' && value[2] == 'r' && value[3] == '('
        && value.last() == ')' {
        Some(value.subrange(4, value.len() - 1))
    } else {
        None
    }
}

/// The text that a raw value stands for.
pub open spec fn resolve(value: Seq<char>, variables: Map<Seq<char>, Seq<char>>) -> Resolution {
    match variable_reference(value) {
        Some(name) => if variables.contains_key(name) {
            Resolution::Text(variables[name])
        } else {
            Resolution::Unresolved
        },
        None => Resolution::Text(value),
    }
}

/// What `declarations` say of the property named `name`: the first
/// declaration of that name decides.
pub open spec fn resolution(
    declarations: Seq<DeclarationView>,
    variables: Map<Seq<char>, Seq<char>>,
    name: Seq<char>,
) -> Resolution {
    let i = declaration_index(declarations, name, 0);
    if i < declarations.len() {
        resolve(declarations[i].value, variables)
    } else {
        Resolution::Absent
    }
}

/// The value of kind `kind` that `text` denotes.
pub open spec fn value_of(kind: Kind, text: Seq<char>) -> Option<Value> {
    match kind {
        Kind::Number => if is_number(text) {
            Some(Value::Number(text))
        } else {
            None
        },
        Kind::Flag => match flag_of(text) {
            Some(flag) => Some(Value::Flag(flag)),
            None => None,
        },
        Kind::Color => match color_of(text) {
            Some(color) => Some(Value::Color(color)),
            None => None,
        },
        Kind::Align => match align_of(text) {
            Some(align) => Some(Value::Align(align)),
            None => None,
        },
        Kind::Font => match font_family_of(text) {
            Some(family) => Some(Value::Font(family)),
            None => None,
        },
        Kind::Sides => match sides_of(text) {
            Ok(sides) => Some(Value::Sides(sides)),
            Err(_) => None,
        },
        Kind::Radius => match radius_of(text) {
            Ok(radius) => Some(Value::Radius(radius)),
            Err(_) => None,
        },
    }
}

/// The value that the declarations of a rule give property `p`, if they
/// give it one.
pub open spec fn declared_value(
    declarations: Seq<DeclarationView>,
    variables: Map<Seq<char>, Seq<char>>,
    p: Property,
) -> Option<Value> {
    match resolution(declarations, variables, p.key()) {
        Resolution::Text(text) => value_of(p.kind(), text),
        _ => None,
    }
}

pub open spec fn as_number(value: Option<Value>) -> Option<Seq<char>> {
    match value {
        Some(Value::Number(v)) => Some(v),
        _ => None,
    }
}

pub open spec fn as_flag(value: Option<Value>) -> Option<bool> {
    match value {
        Some(Value::Flag(v)) => Some(v),
        _ => None,
    }
}

pub open spec fn as_color(value: Option<Value>) -> Option<ColorView> {
    match value {
        Some(Value::Color(v)) => Some(v),
        _ => None,
    }
}

pub open spec fn as_align(value: Option<Value>) -> Option<Align> {
    match value {
        Some(Value::Align(v)) => Some(v),
        _ => None,
    }
}

pub open spec fn as_font(value: Option<Value>) -> Option<FontFamily> {
    match value {
        Some(Value::Font(v)) => Some(v),
        _ => None,
    }
}

pub open spec fn as_sides(value: Option<Value>) -> Option<SidesView> {
    match value {
        Some(Value::Sides(v)) => Some(v),
        _ => None,
    }
}

pub open spec fn as_radius(value: Option<Value>) -> Option<RadiusView> {
    match value {
        Some(Value::Radius(v)) => Some(v),
        _ => None,
    }
}

/// What the declarations of a rule set: every property with the value that
/// they give it.
pub open spec fn declared(
    declarations: Seq<DeclarationView>,
    variables: Map<Seq<char>, Seq<char>>,
) -> OptionalPropertiesView {
    OptionalPropertiesView {
        font_size: as_number(declared_value(declarations, variables, Property::FontSize)),
        font_family: as_font(declared_value(declarations, variables, Property::FontFamily)),
        color: as_color(declared_value(declarations, variables, Property::Color)),
        background: as_color(declared_value(declarations, variables, Property::Background)),
        italics: as_flag(declared_value(declarations, variables, Property::Italics)),
        underline_width: as_number(
            declared_value(declarations, variables, Property::UnderlineWidth),
        ),
        underline_color: as_color(
            declared_value(declarations, variables, Property::UnderlineColor),
        ),
        strikethrough_width: as_number(
            declared_value(declarations, variables, Property::StrikethroughWidth),
        ),
        strikethrough_color: as_color(
            declared_value(declarations, variables, Property::StrikethroughColor),
        ),
        align: as_align(declared_value(declarations, variables, Property::Align)),
        cross_align: as_align(declared_value(declarations, variables, Property::CrossAlign)),
        padding: as_sides(declared_value(declarations, variables, Property::Padding)),
        margin: as_sides(declared_value(declarations, variables, Property::Margin)),
        radius: as_radius(declared_value(declarations, variables, Property::Radius)),
        height: as_number(declared_value(declarations, variables, Property::Height)),
        width: as_number(declared_value(declarations, variables, Property::Width)),
        min_width: as_number(declared_value(declarations, variables, Property::MinWidth)),
        max_width: as_number(declared_value(declarations, variables, Property::MaxWidth)),
        min_height: as_number(declared_value(declarations, variables, Property::MinHeight)),
        max_height: as_number(declared_value(declarations, variables, Property::MaxHeight)),
        border_width: as_number(declared_value(declarations, variables, Property::BorderWidth)),
        border_color: as_color(declared_value(declarations, variables, Property::BorderColor)),
        stroke_width: as_number(declared_value(declarations, variables, Property::StrokeWidth)),
        stroke_color: as_color(declared_value(declarations, variables, Property::StrokeColor)),
        expansion: as_number(declared_value(declarations, variables, Property::Expansion)),
    }
}

/// The warning that property `p` gives rise to: none where no declaration
/// names it or its value is read, one where its variable is not defined or
/// its value cannot be read.
pub open spec fn failure(
    declarations: Seq<DeclarationView>,
    variables: Map<Seq<char>, Seq<char>>,
    p: Property,
) -> Seq<DiagnosticView> {
    match resolution(declarations, variables, p.key()) {
        Resolution::Absent => Seq::empty(),
        Resolution::Unresolved => seq![DiagnosticView::UnresolvedVariable { property: p }],
        Resolution::Text(text) => if value_of(p.kind(), text) is Some {
            Seq::empty()
        } else {
            seq![DiagnosticView::UnparsableValue { property: p }]
        },
    }
}

/// The warnings of the first `n` properties of the schema, in its order.
pub open spec fn failures(
    declarations: Seq<DeclarationView>,
    variables: Map<Seq<char>, Seq<char>>,
    n: int,
) -> Seq<DiagnosticView>
    decreases n,
{
    if n <= 0 {
        Seq::empty()
    } else {
        failures(declarations, variables, n - 1) + failure(
            declarations,
            variables,
            property_at(n - 1),
        )
    }
}

/// The warning that one declaration gives by its name.
pub open spec fn unknown_name(declaration: DeclarationView) -> Seq<DiagnosticView> {
    if is_property_name(declaration.name) {
        Seq::empty()
    } else {
        seq![DiagnosticView::UnknownProperty { name: declaration.name }]
    }
}

/// One warning for each declaration that names no property, in their order.
pub open spec fn unknown_names(declarations: Seq<DeclarationView>) -> Seq<DiagnosticView>
    decreases declarations.len(),
{
    if declarations.len() == 0 {
        Seq::empty()
    } else {
        unknown_names(declarations.drop_last()) + unknown_name(declarations.last())
    }
}

/// The warnings of the declarations of a rule: those for unknown names
/// first, then those of the properties in the order of the schema.
pub open spec fn declaration_diagnostics(
    declarations: Seq<DeclarationView>,
    variables: Map<Seq<char>, Seq<char>>,
) -> Seq<DiagnosticView> {
    unknown_names(declarations) + failures(declarations, variables, PROPERTY_COUNT as int)
}

/// Property by property, what a rule sets is the value that its
/// declarations give the property.
pub proof fn lemma_declared_get(
    declarations: Seq<DeclarationView>,
    variables: Map<Seq<char>, Seq<char>>,
    p: Property,
)
    ensures
        declared(declarations, variables).get(p) == declared_value(declarations, variables, p),
{
}

/// The text that refers to the variable `name`.
pub open spec fn reference_to(name: Seq<char>) -> Seq<char> {
    seq!['v', 'a', 'r', '('] + name + seq![')']
}

/// A reference to a variable resolves to what the variable is bound to,
/// and does not resolve where the variable is not bound.
pub proof fn lemma_reference_resolves(name: Seq<char>, variables: Map<Seq<char>, Seq<char>>)
    ensures
        variable_reference(reference_to(name)) == Some(name),
        variables.contains_key(name) ==> resolve(reference_to(name), variables)
            == Resolution::Text(variables[name]),
        !variables.contains_key(name) ==> resolve(reference_to(name), variables)
            == Resolution::Unresolved,
{
    let text = reference_to(name);
    assert(text.subrange(4, text.len() - 1) =~= name);
}

/// A property whose declaration refers to a variable that is not defined
/// is left unset, and gives rise to exactly one warning.
pub proof fn lemma_unresolved_leaves_unset(
    declarations: Seq<DeclarationView>,
    variables: Map<Seq<char>, Seq<char>>,
    p: Property,
)
    requires
        resolution(declarations, variables, p.key()) is Unresolved,
    ensures
        declared(declarations, variables).get(p) is None,
        failure(declarations, variables, p) == seq![
            DiagnosticView::UnresolvedVariable { property: p },
        ],
{
    lemma_declared_get(declarations, variables, p);
}

/// A property that no declaration names is left unset, without a warning.
pub proof fn lemma_absent_leaves_unset(
    declarations: Seq<DeclarationView>,
    variables: Map<Seq<char>, Seq<char>>,
    p: Property,
)
    requires
        resolution(declarations, variables, p.key()) is Absent,
    ensures
        declared(declarations, variables).get(p) is None,
        failure(declarations, variables, p) == Seq::<DiagnosticView>::empty(),
{
    lemma_declared_get(declarations, variables, p);
}

/// The index that `declaration_index` gives is that of the first
/// declaration of the name at or after `from`.
pub proof fn lemma_index_is_first(
    declarations: Seq<DeclarationView>,
    name: Seq<char>,
    from: int,
)
    requires
        0 <= from <= declarations.len(),
    ensures
        from <= declaration_index(declarations, name, from) <= declarations.len(),
        forall|k: int|
            from <= k < declaration_index(declarations, name, from) ==> (
            #[trigger] declarations[k]).name != name,
        declaration_index(declarations, name, from) < declarations.len()
            ==> declarations[declaration_index(declarations, name, from)].name == name,
    decreases declarations.len() - from,
{
    if from < declarations.len() && declarations[from].name != name {
        lemma_index_is_first(declarations, name, from + 1);
    }
}

/// The first declaration of the name at or after `from` is where
/// `declaration_index` points.
pub proof fn lemma_first_is_index(
    declarations: Seq<DeclarationView>,
    name: Seq<char>,
    from: int,
    i: int,
)
    requires
        0 <= from <= i <= declarations.len(),
        forall|k: int| from <= k < i ==> (#[trigger] declarations[k]).name != name,
        i < declarations.len() ==> declarations[i].name == name,
    ensures
        declaration_index(declarations, name, from) == i,
    decreases i - from,
{
    if from < i {
        lemma_first_is_index(declarations, name, from + 1, i);
    }
}

/// What the declarations say of a property does not depend on the
/// declarations of other names: a declaration of another name, put in at
/// any place, changes nothing for the property.
pub proof fn lemma_other_names_do_not_matter(
    declarations: Seq<DeclarationView>,
    variables: Map<Seq<char>, Seq<char>>,
    k: int,
    other: DeclarationView,
    p: Property,
)
    requires
        0 <= k <= declarations.len(),
        other.name != p.key(),
    ensures
        resolution(declarations.insert(k, other), variables, p.key()) == resolution(
            declarations,
            variables,
            p.key(),
        ),
        declared_value(declarations.insert(k, other), variables, p) == declared_value(
            declarations,
            variables,
            p,
        ),
        failure(declarations.insert(k, other), variables, p) == failure(
            declarations,
            variables,
            p,
        ),
{
    let name = p.key();
    let more = declarations.insert(k, other);
    let first = declaration_index(declarations, name, 0);
    lemma_index_is_first(declarations, name, 0);
    let moved = if first < k {
        first
    } else {
        first + 1
    };
    assert forall|j: int| 0 <= j < moved implies (#[trigger] more[j]).name != name by {
        if j < k {
            assert(more[j] == declarations[j]);
        } else if j > k {
            assert(more[j] == declarations[j - 1]);
        }
    }
    if first < declarations.len() {
        assert(more[moved] == declarations[first]);
    }
    lemma_first_is_index(more, name, 0, moved);
}

/// The variable that `value` refers to, if it has the form `var(..)`.
fn variable_name(value: &str) -> (name: Option<&str>)
    ensures
        name is Some == variable_reference(value@) is Some,
        name matches Some(n) ==> variable_reference(value@) == Some(n@),
{
    let chars = to_chars(value);
    let n = chars.len();
    if n >= 5 && chars[0] == 'v' && chars[1] == 'a' && chars[2] == 'r' && chars[3] == '('
        && chars[n - 1] == ')' {
        Some(value.substring_char(4, n - 1))
    } else {
        None
    }
}

/// Resolves one raw value against the variable map.
pub fn resolve_value<'a>(value: &'a str, variables: &'a VariableMap) -> (r: Resolved<'a>)
    ensures
        r@ == resolve(value@, variables@),
{
    match variable_name(value) {
        Some(name) => match variables.get(name) {
            Some(text) => Resolved::Text(text),
            None => Resolved::Unresolved,
        },
        None => Resolved::Text(value),
    }
}

/// Finds the first declaration named `property_name` and resolves its
/// value against the variable map.
pub fn find_and_resolve_property<'a>(
    declarations: &'a [Declaration],
    property_name: &str,
    variables: &'a VariableMap,
) -> (r: Resolved<'a>)
    ensures
        r@ == resolution(declarations.deep_view(), variables@, property_name@),
{
    let ghost d = declarations.deep_view();
    let mut i: usize = 0;
    while i < declarations.len()
        invariant
            i <= declarations.len(),
            d == declarations.deep_view(),
            d.len() == declarations.len(),
            declaration_index(d, property_name@, 0) == declaration_index(
                d,
                property_name@,
                i as int,
            ),
        decreases declarations.len() - i,
    {
        assert(d[i as int] == declarations[i as int]@);
        if str_eq(declarations[i].name.as_str(), property_name) {
            return resolve_value(declarations[i].value.as_str(), variables);
        }
        i += 1;
    }
    Resolved::Absent
}


fn number_property(
    declarations: &[Declaration],
    variables: &VariableMap,
    p: Property,
    diagnostics: &mut Vec<Diagnostic>,
) -> (r: Option<Scalar>)
    requires
        p.kind() == Kind::Number,
    ensures
        slot_view(r) == as_number(declared_value(declarations.deep_view(), variables@, p)),
        final(diagnostics).deep_view() == old(diagnostics).deep_view() + failure(
            declarations.deep_view(),
            variables@,
            p,
        ),
{
    let ghost before = diagnostics.deep_view();
    let r = match find_and_resolve_property(declarations, p.name(), variables) {
        Resolved::Absent => None,
        Resolved::Unresolved => {
            diagnostics.push(Diagnostic::UnresolvedVariable { property: p });
            None
        },
        Resolved::Text(text) => match Scalar::from_str(text) {
            Ok(value) => Some(value),
            Err(_) => {
                diagnostics.push(Diagnostic::UnparsableValue { property: p });
                None
            },
        },
    };
    assert(diagnostics.deep_view() =~= before + failure(
        declarations.deep_view(),
        variables@,
        p,
    ));
    r
}


fn flag_property(
    declarations: &[Declaration],
    variables: &VariableMap,
    p: Property,
    diagnostics: &mut Vec<Diagnostic>,
) -> (r: Option<bool>)
    requires
        p.kind() == Kind::Flag,
    ensures
        r == as_flag(declared_value(declarations.deep_view(), variables@, p)),
        final(diagnostics).deep_view() == old(diagnostics).deep_view() + failure(
            declarations.deep_view(),
            variables@,
            p,
        ),
{
    let ghost before = diagnostics.deep_view();
    let r = match find_and_resolve_property(declarations, p.name(), variables) {
        Resolved::Absent => None,
        Resolved::Unresolved => {
            diagnostics.push(Diagnostic::UnresolvedVariable { property: p });
            None
        },
        Resolved::Text(text) => match parse_flag(text) {
            Ok(value) => Some(value),
            Err(_) => {
                diagnostics.push(Diagnostic::UnparsableValue { property: p });
                None
            },
        },
    };
    assert(diagnostics.deep_view() =~= before + failure(
        declarations.deep_view(),
        variables@,
        p,
    ));
    r
}


fn color_property(
    declarations: &[Declaration],
    variables: &VariableMap,
    p: Property,
    diagnostics: &mut Vec<Diagnostic>,
) -> (r: Option<Color>)
    requires
        p.kind() == Kind::Color,
    ensures
        slot_view(r) == as_color(declared_value(declarations.deep_view(), variables@, p)),
        final(diagnostics).deep_view() == old(diagnostics).deep_view() + failure(
            declarations.deep_view(),
            variables@,
            p,
        ),
{
    let ghost before = diagnostics.deep_view();
    let r = match find_and_resolve_property(declarations, p.name(), variables) {
        Resolved::Absent => None,
        Resolved::Unresolved => {
            diagnostics.push(Diagnostic::UnresolvedVariable { property: p });
            None
        },
        Resolved::Text(text) => match Color::from_str(text) {
            Ok(value) => Some(value),
            Err(_) => {
                diagnostics.push(Diagnostic::UnparsableValue { property: p });
                None
            },
        },
    };
    assert(diagnostics.deep_view() =~= before + failure(
        declarations.deep_view(),
        variables@,
        p,
    ));
    r
}


fn align_property(
    declarations: &[Declaration],
    variables: &VariableMap,
    p: Property,
    diagnostics: &mut Vec<Diagnostic>,
) -> (r: Option<Align>)
    requires
        p.kind() == Kind::Align,
    ensures
        r == as_align(declared_value(declarations.deep_view(), variables@, p)),
        final(diagnostics).deep_view() == old(diagnostics).deep_view() + failure(
            declarations.deep_view(),
            variables@,
            p,
        ),
{
    let ghost before = diagnostics.deep_view();
    let r = match find_and_resolve_property(declarations, p.name(), variables) {
        Resolved::Absent => None,
        Resolved::Unresolved => {
            diagnostics.push(Diagnostic::UnresolvedVariable { property: p });
            None
        },
        Resolved::Text(text) => match Align::from_str(text) {
            Ok(value) => Some(value),
            Err(_) => {
                diagnostics.push(Diagnostic::UnparsableValue { property: p });
                None
            },
        },
    };
    assert(diagnostics.deep_view() =~= before + failure(
        declarations.deep_view(),
        variables@,
        p,
    ));
    r
}


fn font_property(
    declarations: &[Declaration],
    variables: &VariableMap,
    p: Property,
    diagnostics: &mut Vec<Diagnostic>,
) -> (r: Option<FontFamily>)
    requires
        p.kind() == Kind::Font,
    ensures
        r == as_font(declared_value(declarations.deep_view(), variables@, p)),
        final(diagnostics).deep_view() == old(diagnostics).deep_view() + failure(
            declarations.deep_view(),
            variables@,
            p,
        ),
{
    let ghost before = diagnostics.deep_view();
    let r = match find_and_resolve_property(declarations, p.name(), variables) {
        Resolved::Absent => None,
        Resolved::Unresolved => {
            diagnostics.push(Diagnostic::UnresolvedVariable { property: p });
            None
        },
        Resolved::Text(text) => match FontFamily::from_str(text) {
            Ok(value) => Some(value),
            Err(_) => {
                diagnostics.push(Diagnostic::UnparsableValue { property: p });
                None
            },
        },
    };
    assert(diagnostics.deep_view() =~= before + failure(
        declarations.deep_view(),
        variables@,
        p,
    ));
    r
}


fn sides_property(
    declarations: &[Declaration],
    variables: &VariableMap,
    p: Property,
    diagnostics: &mut Vec<Diagnostic>,
) -> (r: Option<Sides>)
    requires
        p.kind() == Kind::Sides,
    ensures
        slot_view(r) == as_sides(declared_value(declarations.deep_view(), variables@, p)),
        final(diagnostics).deep_view() == old(diagnostics).deep_view() + failure(
            declarations.deep_view(),
            variables@,
            p,
        ),
{
    let ghost before = diagnostics.deep_view();
    let r = match find_and_resolve_property(declarations, p.name(), variables) {
        Resolved::Absent => None,
        Resolved::Unresolved => {
            diagnostics.push(Diagnostic::UnresolvedVariable { property: p });
            None
        },
        Resolved::Text(text) => match Sides::from_str(text) {
            Ok(value) => Some(value),
            Err(_) => {
                diagnostics.push(Diagnostic::UnparsableValue { property: p });
                None
            },
        },
    };
    assert(diagnostics.deep_view() =~= before + failure(
        declarations.deep_view(),
        variables@,
        p,
    ));
    r
}


fn radius_property(
    declarations: &[Declaration],
    variables: &VariableMap,
    p: Property,
    diagnostics: &mut Vec<Diagnostic>,
) -> (r: Option<Radius>)
    requires
        p.kind() == Kind::Radius,
    ensures
        slot_view(r) == as_radius(declared_value(declarations.deep_view(), variables@, p)),
        final(diagnostics).deep_view() == old(diagnostics).deep_view() + failure(
            declarations.deep_view(),
            variables@,
            p,
        ),
{
    let ghost before = diagnostics.deep_view();
    let r = match find_and_resolve_property(declarations, p.name(), variables) {
        Resolved::Absent => None,
        Resolved::Unresolved => {
            diagnostics.push(Diagnostic::UnresolvedVariable { property: p });
            None
        },
        Resolved::Text(text) => match Radius::from_str(text) {
            Ok(value) => Some(value),
            Err(_) => {
                diagnostics.push(Diagnostic::UnparsableValue { property: p });
                None
            },
        },
    };
    assert(diagnostics.deep_view() =~= before + failure(
        declarations.deep_view(),
        variables@,
        p,
    ));
    r
}


/// Whether `name` is the name of a property.
pub fn is_known_property(name: &str) -> (r: bool)
    ensures
        r == is_property_name(name@),
{
    let mut i: usize = 0;
    while i < PROPERTY_COUNT
        invariant
            i <= PROPERTY_COUNT,
            forall|k: int| 0 <= k < i ==> name@ != (#[trigger] property_at(k)).key(),
        decreases PROPERTY_COUNT - i,
    {
        if let Some(p) = Property::at(i) {
            if str_eq(name, p.name()) {
                return true;
            }
        }
        i += 1;
    }
    assert forall|p: Property| name@ != #[trigger] p.key() by {
        crate::properties::lemma_property_index(p);
    }
    false
}

/// One warning for each declaration that names no property.
fn report_unknown_names(declarations: &[Declaration]) -> (diagnostics: Vec<Diagnostic>)
    ensures
        diagnostics.deep_view() == unknown_names(declarations.deep_view()),
{
    let ghost d = declarations.deep_view();
    let mut diagnostics: Vec<Diagnostic> = Vec::new();
    let mut i: usize = 0;
    assert(d.take(0) =~= Seq::<DeclarationView>::empty());
    assert(diagnostics.deep_view() =~= Seq::<DiagnosticView>::empty());
    while i < declarations.len()
        invariant
            i <= declarations.len(),
            d == declarations.deep_view(),
            d.len() == declarations.len(),
            diagnostics.deep_view() == unknown_names(d.take(i as int)),
        decreases declarations.len() - i,
    {
        let ghost before = diagnostics.deep_view();
        assert(d[i as int] == declarations[i as int]@);
        assert(d.take(i + 1).drop_last() =~= d.take(i as int));
        assert(d.take(i + 1).last() == d[i as int]);
        if !is_known_property(declarations[i].name.as_str()) {
            diagnostics.push(Diagnostic::UnknownProperty { name: declarations[i].name.clone() });
        }
        assert(diagnostics.deep_view() =~= before + unknown_name(d[i as int]));
        i += 1;
    }
    assert(d.take(i as int) =~= d);
    diagnostics
}

proof fn lemma_failures_next(
    declarations: Seq<DeclarationView>,
    variables: Map<Seq<char>, Seq<char>>,
    n: int,
    unknown: Seq<DiagnosticView>,
    before: Seq<DiagnosticView>,
    after: Seq<DiagnosticView>,
)
    requires
        0 <= n,
        before == unknown + failures(declarations, variables, n),
        after == before + failure(declarations, variables, property_at(n)),
    ensures
        after == unknown + failures(declarations, variables, n + 1),
{
    assert(after =~= unknown + failures(declarations, variables, n + 1));
}

/// Reads the declarations of a rule: what they set, and the warnings they
/// give rise to.
pub fn parse_declarations(declarations: &[Declaration], variables: &VariableMap) -> (r: (
    OptionalProperties,
    Vec<Diagnostic>,
))
    ensures
        r.0@ == declared(declarations.deep_view(), variables@),
        r.1.deep_view() == declaration_diagnostics(declarations.deep_view(), variables@),
{
    let ghost d = declarations.deep_view();
    let ghost v = variables@;
    let ghost unknown = unknown_names(d);
    let mut diagnostics = report_unknown_names(declarations);
    let ghost mut seen = diagnostics.deep_view();
    assert(seen =~= unknown + failures(d, v, 0));
    let font_size = number_property(declarations, variables, Property::FontSize, &mut diagnostics);
    proof {
        lemma_failures_next(d, v, 0, unknown, seen, diagnostics.deep_view());
        seen = diagnostics.deep_view();
    }
    let font_family = font_property(
        declarations,
        variables,
        Property::FontFamily,
        &mut diagnostics,
    );
    proof {
        lemma_failures_next(d, v, 1, unknown, seen, diagnostics.deep_view());
        seen = diagnostics.deep_view();
    }
    let color = color_property(declarations, variables, Property::Color, &mut diagnostics);
    proof {
        lemma_failures_next(d, v, 2, unknown, seen, diagnostics.deep_view());
        seen = diagnostics.deep_view();
    }
    let background = color_property(
        declarations,
        variables,
        Property::Background,
        &mut diagnostics,
    );
    proof {
        lemma_failures_next(d, v, 3, unknown, seen, diagnostics.deep_view());
        seen = diagnostics.deep_view();
    }
    let italics = flag_property(declarations, variables, Property::Italics, &mut diagnostics);
    proof {
        lemma_failures_next(d, v, 4, unknown, seen, diagnostics.deep_view());
        seen = diagnostics.deep_view();
    }
    let underline_width = number_property(
        declarations,
        variables,
        Property::UnderlineWidth,
        &mut diagnostics,
    );
    proof {
        lemma_failures_next(d, v, 5, unknown, seen, diagnostics.deep_view());
        seen = diagnostics.deep_view();
    }
    let underline_color = color_property(
        declarations,
        variables,
        Property::UnderlineColor,
        &mut diagnostics,
    );
    proof {
        lemma_failures_next(d, v, 6, unknown, seen, diagnostics.deep_view());
        seen = diagnostics.deep_view();
    }
    let strikethrough_width = number_property(
        declarations,
        variables,
        Property::StrikethroughWidth,
        &mut diagnostics,
    );
    proof {
        lemma_failures_next(d, v, 7, unknown, seen, diagnostics.deep_view());
        seen = diagnostics.deep_view();
    }
    let strikethrough_color = color_property(
        declarations,
        variables,
        Property::StrikethroughColor,
        &mut diagnostics,
    );
    proof {
        lemma_failures_next(d, v, 8, unknown, seen, diagnostics.deep_view());
        seen = diagnostics.deep_view();
    }
    let align = align_property(declarations, variables, Property::Align, &mut diagnostics);
    proof {
        lemma_failures_next(d, v, 9, unknown, seen, diagnostics.deep_view());
        seen = diagnostics.deep_view();
    }
    let cross_align = align_property(
        declarations,
        variables,
        Property::CrossAlign,
        &mut diagnostics,
    );
    proof {
        lemma_failures_next(d, v, 10, unknown, seen, diagnostics.deep_view());
        seen = diagnostics.deep_view();
    }
    let padding = sides_property(declarations, variables, Property::Padding, &mut diagnostics);
    proof {
        lemma_failures_next(d, v, 11, unknown, seen, diagnostics.deep_view());
        seen = diagnostics.deep_view();
    }
    let margin = sides_property(declarations, variables, Property::Margin, &mut diagnostics);
    proof {
        lemma_failures_next(d, v, 12, unknown, seen, diagnostics.deep_view());
        seen = diagnostics.deep_view();
    }
    let radius = radius_property(declarations, variables, Property::Radius, &mut diagnostics);
    proof {
        lemma_failures_next(d, v, 13, unknown, seen, diagnostics.deep_view());
        seen = diagnostics.deep_view();
    }
    let height = number_property(declarations, variables, Property::Height, &mut diagnostics);
    proof {
        lemma_failures_next(d, v, 14, unknown, seen, diagnostics.deep_view());
        seen = diagnostics.deep_view();
    }
    let width = number_property(declarations, variables, Property::Width, &mut diagnostics);
    proof {
        lemma_failures_next(d, v, 15, unknown, seen, diagnostics.deep_view());
        seen = diagnostics.deep_view();
    }
    let min_width = number_property(declarations, variables, Property::MinWidth, &mut diagnostics);
    proof {
        lemma_failures_next(d, v, 16, unknown, seen, diagnostics.deep_view());
        seen = diagnostics.deep_view();
    }
    let max_width = number_property(declarations, variables, Property::MaxWidth, &mut diagnostics);
    proof {
        lemma_failures_next(d, v, 17, unknown, seen, diagnostics.deep_view());
        seen = diagnostics.deep_view();
    }
    let min_height = number_property(
        declarations,
        variables,
        Property::MinHeight,
        &mut diagnostics,
    );
    proof {
        lemma_failures_next(d, v, 18, unknown, seen, diagnostics.deep_view());
        seen = diagnostics.deep_view();
    }
    let max_height = number_property(
        declarations,
        variables,
        Property::MaxHeight,
        &mut diagnostics,
    );
    proof {
        lemma_failures_next(d, v, 19, unknown, seen, diagnostics.deep_view());
        seen = diagnostics.deep_view();
    }
    let border_width = number_property(
        declarations,
        variables,
        Property::BorderWidth,
        &mut diagnostics,
    );
    proof {
        lemma_failures_next(d, v, 20, unknown, seen, diagnostics.deep_view());
        seen = diagnostics.deep_view();
    }
    let border_color = color_property(
        declarations,
        variables,
        Property::BorderColor,
        &mut diagnostics,
    );
    proof {
        lemma_failures_next(d, v, 21, unknown, seen, diagnostics.deep_view());
        seen = diagnostics.deep_view();
    }
    let stroke_width = number_property(
        declarations,
        variables,
        Property::StrokeWidth,
        &mut diagnostics,
    );
    proof {
        lemma_failures_next(d, v, 22, unknown, seen, diagnostics.deep_view());
        seen = diagnostics.deep_view();
    }
    let stroke_color = color_property(
        declarations,
        variables,
        Property::StrokeColor,
        &mut diagnostics,
    );
    proof {
        lemma_failures_next(d, v, 23, unknown, seen, diagnostics.deep_view());
        seen = diagnostics.deep_view();
    }
    let expansion = number_property(declarations, variables, Property::Expansion, &mut diagnostics);
    proof {
        lemma_failures_next(d, v, 24, unknown, seen, diagnostics.deep_view());
        seen = diagnostics.deep_view();
    }
    let properties = OptionalProperties {
        font_size,
        font_family,
        color,
        background,
        italics,
        underline_width,
        underline_color,
        strikethrough_width,
        strikethrough_color,
        align,
        cross_align,
        padding,
        margin,
        radius,
        height,
        width,
        min_width,
        max_width,
        min_height,
        max_height,
        border_width,
        border_color,
        stroke_width,
        stroke_color,
        expansion,
    };
    (properties, diagnostics)
}

} // verus!
