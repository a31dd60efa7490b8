//! From source text to a compiled rule set: the source is cut into its
//! statements, the crate `simplecss` reads each statement into blocks; the
//! blocks written for `variables` define the variable map and leave the
//! sheet; every other block becomes a rule. The rules stand in the order of
//! the document.
//!
//! ```text
//! variables {
//!   pinky: #F06;
//! }
//! variables.macos {
//!   os-padding: 6;
//! }
//!
//! label {
//!   color: var(pinky);
//!   padding: var(os-padding);
//! }
//! ```
//!
//! The system classes decide which `variables` blocks are in scope, and
//! nothing else.
//!
//! What `simplecss` decides is asked first, block by block: which blocks
//! are in scope and which are written for `variables`. The steps after that
//! take the answers as flags, one for each block.

use crate::declarations::{
    declaration_diagnostics, declared, declared_value, lemma_declared_get,
    lemma_reference_resolves, parse_declarations, reference_to, resolution, resolve, Declaration,
    DeclarationView, Diagnostic, DiagnosticView, Resolution,
};
use crate::document::{split_statements, statements};
use crate::properties::{default_properties, prefer, Property};
use crate::rules::{
    cascade, cascade_of, flagged, lemma_last_matching_rule_wins, lemma_single_matching_rule,
    lemma_single_rule, Rule, RuleView, Rules, RulesView,
};
use crate::selector::{
    is_in_scope, is_variable_block, is_variable_selector, scoped_variables, selector_match,
    ElementView,
};
use crate::variables::VariableMap;
use vstd::prelude::*;

verus! {

/// One block of a style sheet, as read: the text of its selector and its
/// declarations.
#[derive(Debug, PartialEq, Eq)]
pub struct StyleRule {
    pub selector: String,
    pub declarations: Vec<Declaration>,
}

pub struct StyleRuleView {
    pub selector: Seq<char>,
    pub declarations: Seq<DeclarationView>,
}

impl View for StyleRule {
    type V = StyleRuleView;

    open spec fn view(&self) -> StyleRuleView {
        StyleRuleView { selector: self.selector@, declarations: self.declarations.deep_view() }
    }
}

impl DeepView for StyleRule {
    type V = StyleRuleView;

    open spec fn deep_view(&self) -> StyleRuleView {
        self@
    }
}

/// The blocks that `simplecss::StyleSheet::parse` reads from `text`, in the
/// order in which it hands them out: by ascending specificity of their
/// selectors, and in the order of the text among selectors of one
/// specificity. A block with several selectors is there once for each, a
/// block without declarations is not there, and a selector is written as
/// `Display` writes it. Of a statement that is one block these are the
/// rules of the block, one for each of its selectors, all with the
/// declarations of the block.
pub uninterp spec fn blocks_of(text: Seq<char>) -> Seq<StyleRuleView>;

/// Calls `simplecss::StyleSheet::parse` and copies each rule it read: the
/// selector as `Display` writes it, and name and value of each declaration.
/// The contract names what comes back and claims nothing else of it.
#[verifier::external_body]
fn read_blocks(text: &str) -> (blocks: Vec<StyleRule>)
    ensures
        blocks.deep_view() == blocks_of(text@),
{
    simplecss::StyleSheet::parse(text).rules.iter().map(
        |rule|
            StyleRule {
                selector: rule.selector.to_string(),
                declarations: rule.declarations.iter().map(
                    |d| Declaration::new(d.name, d.value),
                ).collect(),
            },
    ).collect()
}

/// The blocks of the statements `pieces`, statement after statement.
pub open spec fn sheet_of(pieces: Seq<Seq<char>>) -> Seq<StyleRuleView>
    decreases pieces.len(),
{
    if pieces.len() == 0 {
        Seq::empty()
    } else {
        sheet_of(pieces.drop_last()) + blocks_of(pieces.last())
    }
}

/// The blocks of a document, in the order of the document: the rules of
/// its first statement, then those of its second, and so on.
pub open spec fn stylesheet_of(source: Seq<char>) -> Seq<StyleRuleView> {
    sheet_of(statements(source))
}

/// The blocks of a later statement come after those of an earlier one:
/// block `i` of statement `k` stands in the sheet after all the blocks of
/// the statements before `k`, and after the first `i` blocks of its own
/// statement.
pub proof fn lemma_sheet_in_order(pieces: Seq<Seq<char>>, k: int, i: int)
    requires
        0 <= k < pieces.len(),
        0 <= i < blocks_of(pieces[k]).len(),
    ensures
        sheet_of(pieces.take(k)).len() + i < sheet_of(pieces).len(),
        sheet_of(pieces)[sheet_of(pieces.take(k)).len() + i] == blocks_of(pieces[k])[i],
    decreases pieces.len(),
{
    let last = pieces.len() - 1;
    if k == last {
        assert(pieces.take(k) =~= pieces.drop_last());
    } else {
        assert(pieces.drop_last().take(k) =~= pieces.take(k));
        assert(pieces.drop_last()[k] == pieces[k]);
        lemma_sheet_in_order(pieces.drop_last(), k, i);
    }
}

/// For every block, whether its variables are in scope under the system
/// classes `classes`: whether its selector matches the element `variables`
/// with those classes.
pub open spec fn scope_of(sheet: Seq<StyleRuleView>, classes: Seq<Seq<char>>) -> Seq<bool> {
    Seq::new(sheet.len(), |i: int| selector_match(sheet[i].selector, scoped_variables(classes)))
}

/// For every block, whether it is written for `variables`.
pub open spec fn variable_blocks_of(sheet: Seq<StyleRuleView>) -> Seq<bool> {
    Seq::new(sheet.len(), |i: int| is_variable_selector(sheet[i].selector))
}

/// `variables` with every declaration of `declarations` bound in turn: a
/// later declaration of a name replaces an earlier one.
pub open spec fn bind_all(
    variables: Map<Seq<char>, Seq<char>>,
    declarations: Seq<DeclarationView>,
) -> Map<Seq<char>, Seq<char>>
    decreases declarations.len(),
{
    if declarations.len() == 0 {
        variables
    } else {
        bind_all(variables, declarations.drop_last()).insert(
            declarations.last().name,
            declarations.last().value,
        )
    }
}

/// The variable map that the blocks flagged in `in_scope` define: their
/// declarations bound in turn, first block to last.
pub open spec fn bound(sheet: Seq<StyleRuleView>, in_scope: Seq<bool>) -> Map<Seq<char>, Seq<char>>
    decreases sheet.len(),
{
    if sheet.len() == 0 {
        Map::empty()
    } else {
        let before = bound(sheet.drop_last(), in_scope);
        if flagged(in_scope, sheet.len() - 1) {
            bind_all(before, sheet.last().declarations)
        } else {
            before
        }
    }
}

/// The variable map that the sheet defines under the system classes.
pub open spec fn variables_of(sheet: Seq<StyleRuleView>, classes: Seq<Seq<char>>) -> Map<
    Seq<char>,
    Seq<char>,
> {
    bound(sheet, scope_of(sheet, classes))
}

/// The rule that a block compiles to.
pub open spec fn compiled_rule(
    block: StyleRuleView,
    variables: Map<Seq<char>, Seq<char>>,
) -> RuleView {
    RuleView { selector: block.selector, properties: declared(block.declarations, variables) }
}

/// The rules of the sheet: every block that is not flagged in `dropped`, in
/// the order of the sheet, with its declarations read under `variables`.
pub open spec fn compiled(
    sheet: Seq<StyleRuleView>,
    dropped: Seq<bool>,
    variables: Map<Seq<char>, Seq<char>>,
) -> Seq<RuleView>
    decreases sheet.len(),
{
    if sheet.len() == 0 {
        Seq::empty()
    } else if flagged(dropped, sheet.len() - 1) {
        compiled(sheet.drop_last(), dropped, variables)
    } else {
        compiled(sheet.drop_last(), dropped, variables).push(
            compiled_rule(sheet.last(), variables),
        )
    }
}

/// The warnings of the sheet: those of every block that is not flagged in
/// `dropped`, in the order of the sheet.
pub open spec fn compiled_diagnostics(
    sheet: Seq<StyleRuleView>,
    dropped: Seq<bool>,
    variables: Map<Seq<char>, Seq<char>>,
) -> Seq<DiagnosticView>
    decreases sheet.len(),
{
    if sheet.len() == 0 {
        Seq::empty()
    } else if flagged(dropped, sheet.len() - 1) {
        compiled_diagnostics(sheet.drop_last(), dropped, variables)
    } else {
        compiled_diagnostics(sheet.drop_last(), dropped, variables) + declaration_diagnostics(
            sheet.last().declarations,
            variables,
        )
    }
}

/// The rules that a sheet compiles to under the system classes: the blocks
/// that are not written for `variables`, read under the variables in scope.
pub open spec fn rules_of(sheet: Seq<StyleRuleView>, classes: Seq<Seq<char>>) -> Seq<RuleView> {
    compiled(sheet, variable_blocks_of(sheet), variables_of(sheet, classes))
}

/// The warnings that a sheet gives rise to under the system classes.
pub open spec fn diagnostics_of(sheet: Seq<StyleRuleView>, classes: Seq<Seq<char>>) -> Seq<
    DiagnosticView,
> {
    compiled_diagnostics(sheet, variable_blocks_of(sheet), variables_of(sheet, classes))
}

/// The rule set that a sheet compiles to under the system classes.
pub open spec fn rule_set(
    source: Seq<char>,
    sheet: Seq<StyleRuleView>,
    classes: Seq<Seq<char>>,
) -> RulesView {
    RulesView { source, rules: rules_of(sheet, classes) }
}

/// Whether a declaration of `declarations` is named `name`.
pub open spec fn defines(declarations: Seq<DeclarationView>, name: Seq<char>) -> bool {
    exists|i: int| 0 <= i < declarations.len() && (#[trigger] declarations[i]).name == name
}

/// Declarations that do not define a name leave its binding as it was.
pub proof fn lemma_bind_all_keeps(
    variables: Map<Seq<char>, Seq<char>>,
    declarations: Seq<DeclarationView>,
    name: Seq<char>,
)
    requires
        !defines(declarations, name),
    ensures
        bind_all(variables, declarations).contains_key(name) == variables.contains_key(name),
        bind_all(variables, declarations)[name] == variables[name],
    decreases declarations.len(),
{
    if declarations.len() > 0 {
        let rest = declarations.drop_last();
        assert(declarations[declarations.len() - 1].name != name);
        assert(!defines(rest, name)) by {
            if defines(rest, name) {
                let i = choose|i: int| 0 <= i < rest.len() && (#[trigger] rest[i]).name == name;
                assert(declarations[i].name == name);
            }
        }
        lemma_bind_all_keeps(variables, rest, name);
    }
}

/// Among the declarations of one block, the last of a name decides what
/// the name is bound to.
pub proof fn lemma_bind_all_last(
    variables: Map<Seq<char>, Seq<char>>,
    declarations: Seq<DeclarationView>,
    i: int,
)
    requires
        0 <= i < declarations.len(),
        forall|k: int|
            i < k < declarations.len() ==> (#[trigger] declarations[k]).name
                != declarations[i].name,
    ensures
        bind_all(variables, declarations).contains_key(declarations[i].name),
        bind_all(variables, declarations)[declarations[i].name] == declarations[i].value,
    decreases declarations.len(),
{
    let last = declarations.len() - 1;
    if i < last {
        let rest = declarations.drop_last();
        assert(rest[i] == declarations[i]);
        assert forall|k: int| i < k < rest.len() implies (#[trigger] rest[k]).name
            != rest[i].name by {
            assert(rest[k] == declarations[k]);
        }
        lemma_bind_all_last(variables, rest, i);
        assert(declarations[last].name != declarations[i].name);
    }
}

/// Of the blocks in scope that define a variable, the last decides: where
/// block `j` is in scope and its declaration `i` is its last of a name, and
/// no later block in scope defines the name, the name is bound to the value
/// of that declaration, whatever earlier blocks bound it to.
pub proof fn lemma_later_block_wins(
    sheet: Seq<StyleRuleView>,
    in_scope: Seq<bool>,
    j: int,
    i: int,
)
    requires
        0 <= j < sheet.len(),
        flagged(in_scope, j),
        0 <= i < sheet[j].declarations.len(),
        forall|k: int|
            i < k < sheet[j].declarations.len() ==> (#[trigger] sheet[j].declarations[k]).name
                != sheet[j].declarations[i].name,
        forall|k: int|
            j < k < sheet.len() && flagged(in_scope, k) ==> !defines(
                (#[trigger] sheet[k]).declarations,
                sheet[j].declarations[i].name,
            ),
    ensures
        bound(sheet, in_scope).contains_key(sheet[j].declarations[i].name),
        bound(sheet, in_scope)[sheet[j].declarations[i].name] == sheet[j].declarations[i].value,
    decreases sheet.len(),
{
    let last = sheet.len() - 1;
    let rest = sheet.drop_last();
    let before = bound(rest, in_scope);
    let name = sheet[j].declarations[i].name;
    if j == last {
        lemma_bind_all_last(before, sheet[last].declarations, i);
    } else {
        assert(rest[j] == sheet[j]);
        assert forall|k: int| j < k < rest.len() && flagged(in_scope, k) implies !defines(
            (#[trigger] rest[k]).declarations,
            name,
        ) by {
            assert(rest[k] == sheet[k]);
        }
        lemma_later_block_wins(rest, in_scope, j, i);
        if flagged(in_scope, last) {
            assert(!defines(sheet[last].declarations, name));
            lemma_bind_all_keeps(before, sheet[last].declarations, name);
        }
    }
}

/// A reference to a variable resolves to the value that the last block in
/// scope gives the variable: where block `j` of the sheet matches the
/// element `variables` with the system classes and its declaration `i` is
/// its last of a name, and no later block in scope defines the name,
/// `var(..)` of the name stands for the value of that declaration.
pub proof fn lemma_reference_takes_later_block(
    sheet: Seq<StyleRuleView>,
    classes: Seq<Seq<char>>,
    j: int,
    i: int,
)
    requires
        0 <= j < sheet.len(),
        selector_match(sheet[j].selector, scoped_variables(classes)),
        0 <= i < sheet[j].declarations.len(),
        forall|k: int|
            i < k < sheet[j].declarations.len() ==> (#[trigger] sheet[j].declarations[k]).name
                != sheet[j].declarations[i].name,
        forall|k: int|
            j < k < sheet.len() && selector_match(
                (#[trigger] sheet[k]).selector,
                scoped_variables(classes),
            ) ==> !defines(sheet[k].declarations, sheet[j].declarations[i].name),
    ensures
        resolve(reference_to(sheet[j].declarations[i].name), variables_of(sheet, classes))
            == Resolution::Text(sheet[j].declarations[i].value),
{
    lemma_later_block_wins(sheet, scope_of(sheet, classes), j, i);
    lemma_reference_resolves(sheet[j].declarations[i].name, variables_of(sheet, classes));
}

/// Flags beyond the blocks are of no account.
proof fn lemma_bound_takes_prefix(sheet: Seq<StyleRuleView>, flags: Seq<bool>, other: Seq<bool>)
    requires
        forall|i: int| 0 <= i < sheet.len() ==> flagged(flags, i) == flagged(other, i),
    ensures
        bound(sheet, flags) == bound(sheet, other),
    decreases sheet.len(),
{
    if sheet.len() > 0 {
        lemma_bound_takes_prefix(sheet.drop_last(), flags, other);
    }
}

/// Only the blocks in scope define variables: without a block that is not
/// flagged, the sheet defines the same variables.
pub proof fn lemma_out_of_scope_binds_nothing(
    sheet: Seq<StyleRuleView>,
    in_scope: Seq<bool>,
    k: int,
)
    requires
        0 <= k < sheet.len(),
        in_scope.len() == sheet.len(),
        !in_scope[k],
    ensures
        bound(sheet.remove(k), in_scope.remove(k)) == bound(sheet, in_scope),
    decreases sheet.len(),
{
    let last = sheet.len() - 1;
    let fewer = sheet.remove(k);
    let flags = in_scope.remove(k);
    if k == last {
        assert(fewer =~= sheet.drop_last());
        lemma_bound_takes_prefix(fewer, flags, in_scope);
    } else {
        assert(fewer.drop_last() =~= sheet.drop_last().remove(k));
        assert(fewer.last() == sheet.last());
        assert(sheet.drop_last()[k] == sheet[k]);
        assert(flagged(flags, fewer.len() - 1) == flagged(in_scope, last));
        lemma_out_of_scope_binds_nothing(sheet.drop_last(), in_scope.drop_last(), k);
        lemma_bound_takes_prefix(sheet.drop_last(), in_scope.drop_last(), in_scope);
        assert(in_scope.drop_last().remove(k) =~= flags.drop_last());
        lemma_bound_takes_prefix(fewer.drop_last(), flags.drop_last(), flags);
    }
}

/// How many of the first `j` blocks of the sheet are rules: where block `j`
/// stands in the compiled list, if it is a rule.
pub open spec fn place(dropped: Seq<bool>, j: int) -> int
    decreases j,
{
    if j <= 0 {
        0
    } else if flagged(dropped, j - 1) {
        place(dropped, j - 1)
    } else {
        place(dropped, j - 1) + 1
    }
}

proof fn lemma_place(
    sheet: Seq<StyleRuleView>,
    dropped: Seq<bool>,
    variables: Map<Seq<char>, Seq<char>>,
    n: int,
)
    requires
        0 <= n <= sheet.len(),
    ensures
        compiled(sheet.take(n), dropped, variables).len() == place(dropped, n),
    decreases n,
{
    if n > 0 {
        lemma_place(sheet, dropped, variables, n - 1);
        assert(sheet.take(n).drop_last() =~= sheet.take(n - 1));
    } else {
        assert(sheet.take(0) =~= Seq::<StyleRuleView>::empty());
    }
}

proof fn lemma_compiled_prefix(
    sheet: Seq<StyleRuleView>,
    dropped: Seq<bool>,
    variables: Map<Seq<char>, Seq<char>>,
    n: int,
    i: int,
)
    requires
        0 <= n <= sheet.len(),
        0 <= i < compiled(sheet.take(n), dropped, variables).len(),
    ensures
        i < compiled(sheet, dropped, variables).len(),
        compiled(sheet.take(n), dropped, variables)[i] == compiled(sheet, dropped, variables)[i],
    decreases sheet.len() - n,
{
    if n == sheet.len() {
        assert(sheet.take(n) =~= sheet);
    } else {
        assert(sheet.take(n + 1).drop_last() =~= sheet.take(n));
        lemma_compiled_prefix(sheet, dropped, variables, n + 1, i);
    }
}

/// The compiled list holds the blocks that are not flagged, in the order of
/// the sheet: a block `j` that is not flagged is the rule at
/// `place(dropped, j)`, and the list has `place(dropped, sheet.len())`
/// rules.
pub proof fn lemma_compiled_in_order(
    sheet: Seq<StyleRuleView>,
    dropped: Seq<bool>,
    variables: Map<Seq<char>, Seq<char>>,
    j: int,
)
    requires
        0 <= j < sheet.len(),
        !flagged(dropped, j),
    ensures
        compiled(sheet, dropped, variables).len() == place(dropped, sheet.len() as int),
        0 <= place(dropped, j) < compiled(sheet, dropped, variables).len(),
        compiled(sheet, dropped, variables)[place(dropped, j)] == compiled_rule(
            sheet[j],
            variables,
        ),
{
    lemma_place(sheet, dropped, variables, sheet.len() as int);
    assert(sheet.take(sheet.len() as int) =~= sheet);
    lemma_place(sheet, dropped, variables, j);
    let head = sheet.take(j + 1);
    assert(head.drop_last() =~= sheet.take(j));
    assert(head.last() == sheet[j]);
    assert(compiled(head, dropped, variables) == compiled(sheet.take(j), dropped, variables).push(
        compiled_rule(sheet[j], variables),
    ));
    lemma_compiled_prefix(sheet, dropped, variables, j + 1, place(dropped, j));
}

/// A later block stands no earlier in the compiled list.
pub proof fn lemma_place_grows(dropped: Seq<bool>, i: int, j: int)
    requires
        0 <= i <= j,
    ensures
        0 <= place(dropped, i) <= place(dropped, j),
        !flagged(dropped, i) && i < j ==> place(dropped, i) < place(dropped, j),
    decreases j,
{
    if i < j {
        lemma_place_grows(dropped, i, j - 1);
    } else {
        lemma_place_grows_from_zero(dropped, i);
    }
}

proof fn lemma_place_grows_from_zero(dropped: Seq<bool>, i: int)
    requires
        0 <= i,
    ensures
        0 <= place(dropped, i),
    decreases i,
{
    if i > 0 {
        lemma_place_grows_from_zero(dropped, i - 1);
    }
}

/// Every rule of the compiled list is the rule of a block that is not
/// flagged, and stands at the place of that block.
pub proof fn lemma_compiled_from_kept(
    sheet: Seq<StyleRuleView>,
    dropped: Seq<bool>,
    variables: Map<Seq<char>, Seq<char>>,
    i: int,
) -> (j: int)
    requires
        0 <= i < compiled(sheet, dropped, variables).len(),
    ensures
        0 <= j < sheet.len(),
        !flagged(dropped, j),
        place(dropped, j) == i,
        compiled(sheet, dropped, variables)[i] == compiled_rule(sheet[j], variables),
    decreases sheet.len(),
{
    let last = sheet.len() - 1;
    let rest = compiled(sheet.drop_last(), dropped, variables);
    if i < rest.len() {
        let j = lemma_compiled_from_kept(sheet.drop_last(), dropped, variables, i);
        assert(sheet.drop_last()[j] == sheet[j]);
        j
    } else {
        lemma_place(sheet, dropped, variables, last);
        assert(sheet.take(last) =~= sheet.drop_last());
        last
    }
}

/// No rule that a sheet compiles to is written for `variables`.
pub proof fn lemma_rules_hold_no_variables(
    sheet: Seq<StyleRuleView>,
    classes: Seq<Seq<char>>,
    i: int,
)
    requires
        0 <= i < rules_of(sheet, classes).len(),
    ensures
        !is_variable_selector(rules_of(sheet, classes)[i].selector),
{
    let j = lemma_compiled_from_kept(
        sheet,
        variable_blocks_of(sheet),
        variables_of(sheet, classes),
        i,
    );
}

/// Every block that is not written for `variables` is a rule that the
/// sheet compiles to, and stands among the rules where it stands among
/// those blocks.
pub proof fn lemma_rules_hold_every_other(
    sheet: Seq<StyleRuleView>,
    classes: Seq<Seq<char>>,
    j: int,
)
    requires
        0 <= j < sheet.len(),
        !is_variable_selector(sheet[j].selector),
    ensures
        0 <= place(variable_blocks_of(sheet), j) < rules_of(sheet, classes).len(),
        rules_of(sheet, classes)[place(variable_blocks_of(sheet), j)] == compiled_rule(
            sheet[j],
            variables_of(sheet, classes),
        ),
{
    lemma_compiled_in_order(sheet, variable_blocks_of(sheet), variables_of(sheet, classes), j);
}

/// The order of the document decides: where block `j` of the sheet is a
/// rule that matches the element and gives property `p` a value, and no
/// later block is a rule that matches the element and gives `p` a value,
/// the element has the value that block `j` gives, whatever blocks come
/// before it and whatever the selectors are.
pub proof fn lemma_later_block_decides(
    sheet: Seq<StyleRuleView>,
    classes: Seq<Seq<char>>,
    element: ElementView,
    j: int,
    p: Property,
)
    requires
        0 <= j < sheet.len(),
        !is_variable_selector(sheet[j].selector),
        selector_match(sheet[j].selector, element),
        declared_value(sheet[j].declarations, variables_of(sheet, classes), p) is Some,
        forall|k: int|
            j < k < sheet.len() ==> !(!is_variable_selector((#[trigger] sheet[k]).selector)
                && selector_match(sheet[k].selector, element) && declared_value(
                sheet[k].declarations,
                variables_of(sheet, classes),
                p,
            ) is Some),
    ensures
        Some(cascade(rules_of(sheet, classes), element).get(p)) == declared_value(
            sheet[j].declarations,
            variables_of(sheet, classes),
            p,
        ),
{
    let dropped = variable_blocks_of(sheet);
    let variables = variables_of(sheet, classes);
    let rules = rules_of(sheet, classes);
    let r = place(dropped, j);
    lemma_compiled_in_order(sheet, dropped, variables, j);
    lemma_declared_get(sheet[j].declarations, variables, p);
    assert forall|k: int| r < k < rules.len() implies !(selector_match(
        (#[trigger] rules[k]).selector,
        element,
    ) && rules[k].properties.get(p) is Some) by {
        let b = lemma_compiled_from_kept(sheet, dropped, variables, k);
        if b <= j {
            lemma_place_grows(dropped, b, j);
        }
        assert(j < b);
        lemma_declared_get(sheet[b].declarations, variables, p);
        assert(!is_variable_selector(sheet[b].selector));
    }
    lemma_last_matching_rule_wins(rules, element, r, p);
}

/// Under the single rule that a block compiles to, where the rule is
/// flagged, every property has the value that the declarations of the block
/// give it, and the default where they give none.
pub proof fn lemma_single_block(
    block: StyleRuleView,
    variables: Map<Seq<char>, Seq<char>>,
    p: Property,
)
    ensures
        cascade_of(seq![compiled_rule(block, variables)], seq![true]).get(p) == prefer(
            declared_value(block.declarations, variables, p),
            default_properties().get(p),
        ),
{
    lemma_single_rule(compiled_rule(block, variables), p);
    lemma_declared_get(block.declarations, variables, p);
}

/// Where a block matches the element, and is the only rule, the element
/// has every property that the declarations of the block name with the
/// value read from them, and every other property with its default; a
/// property whose value cannot be read has its default too.
pub proof fn lemma_single_matching_block(
    block: StyleRuleView,
    variables: Map<Seq<char>, Seq<char>>,
    element: ElementView,
    p: Property,
)
    requires
        selector_match(block.selector, element),
    ensures
        cascade(seq![compiled_rule(block, variables)], element).get(p) == prefer(
            declared_value(block.declarations, variables, p),
            default_properties().get(p),
        ),
        resolution(block.declarations, variables, p.key()) is Absent ==> cascade(
            seq![compiled_rule(block, variables)],
            element,
        ).get(p) == default_properties().get(p),
{
    lemma_single_matching_rule(compiled_rule(block, variables), element, p);
    lemma_declared_get(block.declarations, variables, p);
}

/// A property whose declaration refers to a variable that is not defined
/// keeps its default under the rule that the block compiles to.
pub proof fn lemma_unresolved_keeps_default(
    block: StyleRuleView,
    variables: Map<Seq<char>, Seq<char>>,
    p: Property,
)
    requires
        resolution(block.declarations, variables, p.key()) is Unresolved,
    ensures
        cascade_of(seq![compiled_rule(block, variables)], seq![true]).get(p)
            == default_properties().get(p),
{
    lemma_single_block(block, variables, p);
}

/// Asks for every block whether its variables are in scope under the
/// system classes.
pub fn scope_flags(sheet: &[StyleRule], system_classes: &[&str]) -> (in_scope: Vec<bool>)
    ensures
        in_scope@ == scope_of(sheet.deep_view(), system_classes.deep_view()),
{
    let ghost s = sheet.deep_view();
    let ghost classes = system_classes.deep_view();
    let mut in_scope: Vec<bool> = Vec::new();
    let mut i: usize = 0;
    while i < sheet.len()
        invariant
            i <= sheet.len(),
            s == sheet.deep_view(),
            s.len() == sheet.len(),
            classes == system_classes.deep_view(),
            in_scope.len() == i,
            forall|k: int|
                0 <= k < i ==> in_scope@[k] == selector_match(
                    (#[trigger] s[k]).selector,
                    scoped_variables(classes),
                ),
        decreases sheet.len() - i,
    {
        assert(s[i as int] == sheet[i as int]@);
        in_scope.push(is_in_scope(sheet[i].selector.as_str(), system_classes));
        i += 1;
    }
    assert(in_scope@ =~= scope_of(s, classes));
    in_scope
}

/// Asks for every block whether it is written for `variables`.
pub fn variable_flags(sheet: &[StyleRule]) -> (dropped: Vec<bool>)
    ensures
        dropped@ == variable_blocks_of(sheet.deep_view()),
{
    let ghost s = sheet.deep_view();
    let mut dropped: Vec<bool> = Vec::new();
    let mut i: usize = 0;
    while i < sheet.len()
        invariant
            i <= sheet.len(),
            s == sheet.deep_view(),
            s.len() == sheet.len(),
            dropped.len() == i,
            forall|k: int|
                0 <= k < i ==> dropped@[k] == is_variable_selector((#[trigger] s[k]).selector),
        decreases sheet.len() - i,
    {
        assert(s[i as int] == sheet[i as int]@);
        dropped.push(is_variable_block(sheet[i].selector.as_str()));
        i += 1;
    }
    assert(dropped@ =~= variable_blocks_of(s));
    dropped
}

fn bind_declarations(variables: &mut VariableMap, declarations: &[Declaration])
    ensures
        final(variables)@ == bind_all(old(variables)@, declarations.deep_view()),
{
    let ghost d = declarations.deep_view();
    let mut i: usize = 0;
    assert(d.take(0) =~= Seq::<DeclarationView>::empty());
    while i < declarations.len()
        invariant
            i <= declarations.len(),
            d == declarations.deep_view(),
            d.len() == declarations.len(),
            variables@ == bind_all(old(variables)@, d.take(i as int)),
        decreases declarations.len() - i,
    {
        assert(d[i as int] == declarations[i as int]@);
        assert(d.take(i + 1).drop_last() =~= d.take(i as int));
        assert(d.take(i + 1).last() == d[i as int]);
        variables.insert(declarations[i].name.as_str(), declarations[i].value.as_str());
        i += 1;
    }
    assert(d.take(i as int) =~= d);
}

/// Collects the variables that the blocks flagged in `in_scope` define.
pub fn collect_variables(sheet: &[StyleRule], in_scope: &[bool]) -> (variables: VariableMap)
    ensures
        variables@ == bound(sheet.deep_view(), in_scope@),
{
    let ghost s = sheet.deep_view();
    let mut variables = VariableMap::new();
    let mut i: usize = 0;
    assert(s.take(0) =~= Seq::<StyleRuleView>::empty());
    while i < sheet.len()
        invariant
            i <= sheet.len(),
            s == sheet.deep_view(),
            s.len() == sheet.len(),
            variables@ == bound(s.take(i as int), in_scope@),
        decreases sheet.len() - i,
    {
        assert(s[i as int] == sheet[i as int]@);
        assert(s.take(i + 1).drop_last() =~= s.take(i as int));
        assert(s.take(i + 1).last() == s[i as int]);
        if i < in_scope.len() && in_scope[i] {
            bind_declarations(&mut variables, sheet[i].declarations.as_slice());
        }
        i += 1;
    }
    assert(s.take(i as int) =~= s);
    variables
}

/// What one more block adds to the compiled list and to its warnings.
proof fn lemma_compiled_next(
    sheet: Seq<StyleRuleView>,
    dropped: Seq<bool>,
    variables: Map<Seq<char>, Seq<char>>,
    i: int,
)
    requires
        0 <= i < sheet.len(),
    ensures
        flagged(dropped, i) ==> compiled(sheet.take(i + 1), dropped, variables) == compiled(
            sheet.take(i),
            dropped,
            variables,
        ),
        flagged(dropped, i) ==> compiled_diagnostics(sheet.take(i + 1), dropped, variables)
            == compiled_diagnostics(sheet.take(i), dropped, variables),
        !flagged(dropped, i) ==> compiled(sheet.take(i + 1), dropped, variables) == compiled(
            sheet.take(i),
            dropped,
            variables,
        ).push(compiled_rule(sheet[i], variables)),
        !flagged(dropped, i) ==> compiled_diagnostics(sheet.take(i + 1), dropped, variables)
            == compiled_diagnostics(sheet.take(i), dropped, variables) + declaration_diagnostics(
            sheet[i].declarations,
            variables,
        ),
{
    assert(sheet.take(i + 1).drop_last() =~= sheet.take(i));
    assert(sheet.take(i + 1).last() == sheet[i]);
}

/// Compiles the blocks that are not flagged in `dropped` under a variable
/// map: the rules, and the warnings that their declarations give rise to.
pub fn compile_rules(sheet: &[StyleRule], dropped: &[bool], variables: &VariableMap) -> (r: (
    Vec<Rule>,
    Vec<Diagnostic>,
))
    ensures
        r.0.deep_view() == compiled(sheet.deep_view(), dropped@, variables@),
        r.1.deep_view() == compiled_diagnostics(sheet.deep_view(), dropped@, variables@),
{
    let ghost s = sheet.deep_view();
    let mut rules: Vec<Rule> = Vec::new();
    let mut diagnostics: Vec<Diagnostic> = Vec::new();
    let mut i: usize = 0;
    assert(s.take(0) =~= Seq::<StyleRuleView>::empty());
    assert(rules.deep_view() =~= Seq::<RuleView>::empty());
    assert(diagnostics.deep_view() =~= Seq::<DiagnosticView>::empty());
    while i < sheet.len()
        invariant
            i <= sheet.len(),
            s == sheet.deep_view(),
            s.len() == sheet.len(),
            rules.deep_view() == compiled(s.take(i as int), dropped@, variables@),
            diagnostics.deep_view() == compiled_diagnostics(
                s.take(i as int),
                dropped@,
                variables@,
            ),
        decreases sheet.len() - i,
    {
        proof {
            lemma_compiled_next(s, dropped@, variables@, i as int);
        }
        if !(i < dropped.len() && dropped[i]) {
            let ghost rules_before = rules.deep_view();
            let ghost diagnostics_before = diagnostics.deep_view();
            assert(s[i as int] == sheet[i as int]@);
            let (properties, mut warnings) = parse_declarations(
                sheet[i].declarations.as_slice(),
                variables,
            );
            let ghost added = warnings.deep_view();
            let rule = Rule::new(sheet[i].selector.as_str(), properties);
            rules.push(rule);
            diagnostics.append(&mut warnings);
            assert(rules.deep_view() =~= rules_before.push(compiled_rule(s[i as int], variables@)));
            assert(diagnostics.deep_view() =~= diagnostics_before + added);
        }
        i += 1;
    }
    assert(s.take(i as int) =~= s);
    (rules, diagnostics)
}

/// Compiles a sheet read from `source`: collects the variables that are in
/// scope under the system classes, drops the blocks written for
/// `variables`, and reads the declarations of every other block.
pub fn compile(source: &str, sheet: &[StyleRule], system_classes: &[&str]) -> (r: (
    Rules,
    Vec<Diagnostic>,
))
    ensures
        r.0@ == rule_set(source@, sheet.deep_view(), system_classes.deep_view()),
        r.1.deep_view() == diagnostics_of(sheet.deep_view(), system_classes.deep_view()),
{
    let in_scope = scope_flags(sheet, system_classes);
    let dropped = variable_flags(sheet);
    let variables = collect_variables(sheet, in_scope.as_slice());
    let (rules, diagnostics) = compile_rules(sheet, dropped.as_slice(), &variables);
    (Rules::new(source.to_owned(), rules), diagnostics)
}

/// Reads the blocks of a document in the order of the document: cuts the
/// source into its statements and reads them one by one.
pub fn parse_stylesheet(source: &str) -> (sheet: Vec<StyleRule>)
    ensures
        sheet.deep_view() == stylesheet_of(source@),
{
    let pieces = split_statements(source);
    let ghost all = pieces.deep_view();
    let mut sheet: Vec<StyleRule> = Vec::new();
    let mut i: usize = 0;
    assert(all.take(0) =~= Seq::<Seq<char>>::empty());
    assert(sheet.deep_view() =~= Seq::<StyleRuleView>::empty());
    while i < pieces.len()
        invariant
            i <= pieces.len(),
            all == pieces.deep_view(),
            all.len() == pieces.len(),
            sheet.deep_view() == sheet_of(all.take(i as int)),
        decreases pieces.len() - i,
    {
        assert(all[i as int] == pieces[i as int]@);
        assert(all.take(i + 1).drop_last() =~= all.take(i as int));
        assert(all.take(i + 1).last() == all[i as int]);
        let ghost before = sheet.deep_view();
        let mut blocks = read_blocks(pieces[i]);
        let ghost added = blocks.deep_view();
        sheet.append(&mut blocks);
        assert(sheet.deep_view() =~= before + added);
        i += 1;
    }
    assert(all.take(i as int) =~= all);
    sheet
}

/// Compiles the style sheet written in `source` under the system classes:
/// the rule set, and the warnings that its declarations give rise to.
pub fn parse_css(source: &str, system_classes: &[&str]) -> (r: (Rules, Vec<Diagnostic>))
    ensures
        r.0@ == rule_set(source@, stylesheet_of(source@), system_classes.deep_view()),
        r.1.deep_view() == diagnostics_of(stylesheet_of(source@), system_classes.deep_view()),
{
    let sheet = parse_stylesheet(source);
    compile(source, sheet.as_slice(), system_classes)
}

} // verus!
