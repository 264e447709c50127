//! Gating conditions: their tree, their text, and their canonical form.
use crate::model::column_rule::{clone_rules, rule_views, valid_text, ColumnRule, ColumnRuleView};
use crate::model::rule_filter::canonical_form::lemma_reduced_is_flat;
use crate::model::rule_filter::operator::ComparisonOperator;
use crate::model::rule_traits::{
    ColumnValidationError, ColumnValidationErrorView, ValidColumnRule,
};
use crate::model::table_expr::{ColumnDef, ColumnDefView};
use crate::parser::error_utils::{DDLxParseError, DDLxParseErrorView};
use crate::parser::rule_filter_expr::{condition_of, parse_filter_expr};
use crate::text::{
    append_str, chars_le, chars_of, clone_optional, join, join_strings, lex_le, optional_text,
    string_views,
};
use vstd::prelude::*;
use vstd::std_specs::cmp::PartialEqSpecImpl;

verus! {

/// A gating condition as a mathematical tree.
pub enum ConditionTree {
    And(Seq<ConditionTree>),
    Or(Seq<ConditionTree>),
    Not(Box<ConditionTree>),
    FieldCondition { first_field: Seq<char>, operator: ComparisonOperator, second_field: Seq<char> },
    ValueCondition { field: Seq<char>, operator: ComparisonOperator, value: Seq<char> },
}

/// A gating condition: comparisons joined by `And`, `Or` and `Not`. Each node
/// owns its children.
#[derive(Debug)]
pub enum FilterCondition {
    And(Vec<FilterCondition>),
    Or(Vec<FilterCondition>),
    Not(Box<FilterCondition>),
    FieldCondition { first_field: String, operator: ComparisonOperator, second_field: String },
    ValueCondition { field: String, operator: ComparisonOperator, value: String },
}

impl FilterCondition {
    /// The tree that this condition stands for.
    pub open spec fn tree(&self) -> ConditionTree
        decreases self,
    {
        match self {
            FilterCondition::And(cs) => ConditionTree::And(
                Seq::new(
                    cs.len() as nat,
                    |i: int|
                        if 0 <= i < cs.len() {
                            cs[i].tree()
                        } else {
                            ConditionTree::And(Seq::empty())
                        },
                ),
            ),
            FilterCondition::Or(cs) => ConditionTree::Or(
                Seq::new(
                    cs.len() as nat,
                    |i: int|
                        if 0 <= i < cs.len() {
                            cs[i].tree()
                        } else {
                            ConditionTree::And(Seq::empty())
                        },
                ),
            ),
            FilterCondition::Not(c) => ConditionTree::Not(Box::new(c.tree())),
            FilterCondition::FieldCondition { first_field, operator, second_field } => {
                ConditionTree::FieldCondition {
                    first_field: first_field@,
                    operator: *operator,
                    second_field: second_field@,
                }
            },
            FilterCondition::ValueCondition { field, operator, value } => {
                ConditionTree::ValueCondition { field: field@, operator: *operator, value: value@ }
            },
        }
    }
}

impl View for FilterCondition {
    type V = ConditionTree;

    open spec fn view(&self) -> ConditionTree {
        self.tree()
    }
}

/// The trees of a list of conditions.
pub open spec fn condition_views(cs: Seq<FilterCondition>) -> Seq<ConditionTree> {
    cs.map_values(|c: FilterCondition| c@)
}

/// The children of the tree of an `And` or an `Or` are the trees of its
/// children.
pub proof fn lemma_tree_children(c: FilterCondition)
    ensures
        c matches FilterCondition::And(cs) ==> c@ == ConditionTree::And(condition_views(cs@)),
        c matches FilterCondition::Or(cs) ==> c@ == ConditionTree::Or(condition_views(cs@)),
{
    match c {
        FilterCondition::And(cs) => {
            assert(c@->And_0 =~= condition_views(cs@));
        },
        FilterCondition::Or(cs) => {
            assert(c@->Or_0 =~= condition_views(cs@));
        },
        _ => {},
    }
}

impl ConditionTree {
    /// The text of a comparison.
    pub open spec fn comparison_text(left: Seq<char>, operator: ComparisonOperator, right: Seq<char>) -> Seq<char> {
        "( "@ + left + " "@ + operator.symbol() + " "@ + right + " )"@
    }

    /// The text of the condition: a group is its members between brackets
    /// with ` AND ` or ` OR ` between them, a negation is `NOT` before its
    /// bracketed member, a comparison stands between brackets.
    pub open spec fn rendered(self) -> Seq<char>
        decreases self,
    {
        match self {
            ConditionTree::And(cs) => "( "@ + join(Self::rendered_all(cs), " AND "@) + " )"@,
            ConditionTree::Or(cs) => "( "@ + join(Self::rendered_all(cs), " OR "@) + " )"@,
            ConditionTree::Not(c) => "NOT ( "@ + c.rendered() + " )"@,
            ConditionTree::FieldCondition { first_field, operator, second_field } => {
                Self::comparison_text(first_field, operator, second_field)
            },
            ConditionTree::ValueCondition { field, operator, value } => {
                Self::comparison_text(field, operator, value)
            },
        }
    }

    /// The texts of the conditions of a list.
    pub open spec fn rendered_all(cs: Seq<ConditionTree>) -> Seq<Seq<char>>
        decreases cs,
    {
        Seq::new(
            cs.len(),
            |i: int|
                if 0 <= i < cs.len() {
                    cs[i].rendered()
                } else {
                    Seq::empty()
                },
        )
    }
}

impl Clone for FilterCondition {
    fn clone(&self) -> (r: Self)
        ensures
            r@ == self@,
        decreases self,
    {
        match self {
            FilterCondition::And(cs) => {
                let out = clone_children(cs);
                let r = FilterCondition::And(out);
                proof {
                    lemma_tree_children(r);
                    lemma_tree_children(*self);
                }
                r
            },
            FilterCondition::Or(cs) => {
                let out = clone_children(cs);
                let r = FilterCondition::Or(out);
                proof {
                    lemma_tree_children(r);
                    lemma_tree_children(*self);
                }
                r
            },
            FilterCondition::Not(c) => FilterCondition::Not(Box::new((**c).clone())),
            FilterCondition::FieldCondition { first_field, operator, second_field } => {
                FilterCondition::FieldCondition {
                    first_field: first_field.clone(),
                    operator: *operator,
                    second_field: second_field.clone(),
                }
            },
            FilterCondition::ValueCondition { field, operator, value } => {
                FilterCondition::ValueCondition {
                    field: field.clone(),
                    operator: *operator,
                    value: value.clone(),
                }
            },
        }
    }
}

/// Copies of the conditions of a list.
fn clone_children(cs: &Vec<FilterCondition>) -> (out: Vec<FilterCondition>)
    ensures
        condition_views(out@) == condition_views(cs@),
    decreases cs,
{
    let mut out: Vec<FilterCondition> = Vec::new();
    let mut i: usize = 0;
    while i < cs.len()
        invariant
            i <= cs.len(),
            out.len() == i,
            forall|j: int| 0 <= j < i ==> out@[j]@ == cs@[j]@,
        decreases cs.len() - i,
    {
        let c = cs[i].clone();
        out.push(c);
        i += 1;
    }
    assert(condition_views(out@) =~= condition_views(cs@));
    out
}

impl ConditionTree {
    /// What a reduced child brings into a parent that is an `And` (where
    /// `and_parent` holds) or an `Or`: the children of a child of the
    /// parent's kind, any other child itself.
    pub open spec fn pieces(self, and_parent: bool) -> Seq<ConditionTree> {
        match self {
            ConditionTree::And(ns) => if and_parent {
                ns
            } else {
                seq![self]
            },
            ConditionTree::Or(ns) => if and_parent {
                seq![self]
            } else {
                ns
            },
            _ => seq![self],
        }
    }

    /// The condition with every group that stands directly in a group of
    /// its own kind taken apart into that group.
    pub open spec fn reduced(self) -> ConditionTree
        decreases self,
    {
        match self {
            ConditionTree::And(cs) => ConditionTree::And(Self::spliced(cs, true)),
            ConditionTree::Or(cs) => ConditionTree::Or(Self::spliced(cs, false)),
            ConditionTree::Not(c) => ConditionTree::Not(Box::new(c.reduced())),
            _ => self,
        }
    }

    /// The pieces of the reduced members of `cs`, in order.
    pub open spec fn spliced(cs: Seq<ConditionTree>, and_parent: bool) -> Seq<ConditionTree>
        decreases cs,
    {
        if cs.len() == 0 {
            Seq::empty()
        } else {
            Self::spliced(cs.drop_last(), and_parent) + cs.last().reduced().pieces(and_parent)
        }
    }

    /// Where `x` goes in `list`: behind the last member whose text does not
    /// come after the text of `x`.
    pub open spec fn place_index(list: Seq<ConditionTree>, x: ConditionTree) -> int
        decreases list.len(),
    {
        if list.len() == 0 {
            0
        } else if lex_le(list.last().rendered(), x.rendered()) {
            list.len() as int
        } else {
            Self::place_index(list.drop_last(), x)
        }
    }

    /// `list` with `x` put in at its place.
    pub open spec fn placed(list: Seq<ConditionTree>, x: ConditionTree) -> Seq<ConditionTree> {
        list.insert(Self::place_index(list, x), x)
    }

    /// The sorted members of `cs`, each put in at its place in turn: the
    /// members in the order of their texts, members of one text in the order
    /// in which they stood.
    pub open spec fn ordered(cs: Seq<ConditionTree>) -> Seq<ConditionTree>
        decreases cs,
    {
        if cs.len() == 0 {
            Seq::empty()
        } else {
            Self::placed(Self::ordered(cs.drop_last()), cs.last().sorted())
        }
    }

    /// The condition with the members of every group sorted and put in the
    /// order of their texts.
    pub open spec fn sorted(self) -> ConditionTree
        decreases self,
    {
        match self {
            ConditionTree::And(cs) => ConditionTree::And(Self::ordered(cs)),
            ConditionTree::Or(cs) => ConditionTree::Or(Self::ordered(cs)),
            ConditionTree::Not(c) => ConditionTree::Not(Box::new(c.sorted())),
            _ => self,
        }
    }

    /// The text by which two conditions are compared.
    pub open spec fn canonical_text(self) -> Seq<char> {
        self.sorted().rendered()
    }

}

impl FilterCondition {
    /// The text of the condition.
    pub fn to_string(&self) -> (s: String)
        ensures
            s@ == self@.rendered(),
        decreases self,
    {
        match self {
            FilterCondition::And(cs) => {
                let parts = Self::render_conditions(cs);
                let body = join_strings(&parts, " AND ");
                let mut s = "( ".to_owned();
                append_str(&mut s, body.as_str());
                append_str(&mut s, " )");
                proof {
                    lemma_tree_children(*self);
                }
                s
            },
            FilterCondition::Or(cs) => {
                let parts = Self::render_conditions(cs);
                let body = join_strings(&parts, " OR ");
                let mut s = "( ".to_owned();
                append_str(&mut s, body.as_str());
                append_str(&mut s, " )");
                proof {
                    lemma_tree_children(*self);
                }
                s
            },
            FilterCondition::Not(c) => {
                let inner = c.to_string();
                let mut s = "NOT ( ".to_owned();
                append_str(&mut s, inner.as_str());
                append_str(&mut s, " )");
                s
            },
            FilterCondition::FieldCondition { first_field, operator, second_field } => {
                Self::comparison_string(first_field.as_str(), *operator, second_field.as_str())
            },
            FilterCondition::ValueCondition { field, operator, value } => {
                Self::comparison_string(field.as_str(), *operator, value.as_str())
            },
        }
    }

    fn comparison_string(left: &str, operator: ComparisonOperator, right: &str) -> (s: String)
        ensures
            s@ == ConditionTree::comparison_text(left@, operator, right@),
    {
        let mut s = "( ".to_owned();
        append_str(&mut s, left);
        append_str(&mut s, " ");
        append_str(&mut s, operator.as_str());
        append_str(&mut s, " ");
        append_str(&mut s, right);
        append_str(&mut s, " )");
        s
    }

    /// The texts of the conditions of a list.
    fn render_conditions(cs: &Vec<FilterCondition>) -> (parts: Vec<String>)
        ensures
            string_views(parts@) == ConditionTree::rendered_all(condition_views(cs@)),
        decreases cs,
    {
        let mut parts: Vec<String> = Vec::new();
        let mut i: usize = 0;
        while i < cs.len()
            invariant
                i <= cs.len(),
                parts.len() == i,
                forall|j: int| 0 <= j < i ==> parts@[j]@ == cs@[j]@.rendered(),
            decreases cs.len() - i,
        {
            let part = cs[i].to_string();
            parts.push(part);
            i += 1;
        }
        assert(string_views(parts@) =~= ConditionTree::rendered_all(condition_views(cs@)));
        parts
    }

    /// The condition with nested groups of one kind flattened: a group that
    /// stands directly in a group of its own kind is replaced by its
    /// members.
    pub fn reduce_nesting(&self) -> (r: Self)
        ensures
            r@ == self@.reduced(),
            r@.is_flat(),
        decreases self,
    {
        proof {
            lemma_reduced_is_flat(self@);
        }
        match self {
            FilterCondition::And(cs) => {
                let out = Self::reduce_conditions(cs, true);
                let r = FilterCondition::And(out);
                proof {
                    lemma_tree_children(r);
                    lemma_tree_children(*self);
                }
                r
            },
            FilterCondition::Or(cs) => {
                let out = Self::reduce_conditions(cs, false);
                let r = FilterCondition::Or(out);
                proof {
                    lemma_tree_children(r);
                    lemma_tree_children(*self);
                }
                r
            },
            FilterCondition::Not(c) => FilterCondition::Not(Box::new(c.reduce_nesting())),
            _ => self.clone(),
        }
    }

    /// The reduced members of `cs`, those of the parent's kind taken apart.
    fn reduce_conditions(cs: &Vec<FilterCondition>, and_parent: bool) -> (out: Vec<FilterCondition>)
        ensures
            condition_views(out@) == ConditionTree::spliced(condition_views(cs@), and_parent),
        decreases cs,
    {
        let ghost all = condition_views(cs@);
        let mut out: Vec<FilterCondition> = Vec::new();
        let mut i: usize = 0;
        while i < cs.len()
            invariant
                i <= cs.len(),
                all == condition_views(cs@),
                condition_views(out@) == ConditionTree::spliced(all.take(i as int), and_parent),
            decreases cs.len() - i,
        {
            let reduced = cs[i].reduce_nesting();
            let ghost before = condition_views(out@);
            proof {
                lemma_tree_children(reduced);
                assert(all.take(i + 1).drop_last() == all.take(i as int));
                assert(all.take(i + 1).last() == cs@[i as int]@);
            }
            match reduced {
                FilterCondition::And(mut members) => {
                    if and_parent {
                        let ghost added = condition_views(members@);
                        out.append(&mut members);
                        assert(condition_views(out@) =~= before + added);
                    } else {
                        let ghost whole = FilterCondition::And(members)@;
                        out.push(FilterCondition::And(members));
                        assert(condition_views(out@) =~= before + seq![whole]);
                    }
                },
                FilterCondition::Or(mut members) => {
                    if and_parent {
                        let ghost whole = FilterCondition::Or(members)@;
                        out.push(FilterCondition::Or(members));
                        assert(condition_views(out@) =~= before + seq![whole]);
                    } else {
                        let ghost added = condition_views(members@);
                        out.append(&mut members);
                        assert(condition_views(out@) =~= before + added);
                    }
                },
                other => {
                    let ghost whole = other@;
                    out.push(other);
                    assert(condition_views(out@) =~= before + seq![whole]);
                },
            }
            i += 1;
        }
        assert(all.take(cs.len() as int) == all);
        out
    }

    /// The condition in canonical order: the members of every group sorted,
    /// then put in the order of their texts.
    pub fn sort(&self) -> (r: Self)
        ensures
            r@ == self@.sorted(),
        decreases self,
    {
        match self {
            FilterCondition::And(cs) => {
                let out = Self::sort_conditions(cs);
                let r = FilterCondition::And(out);
                proof {
                    lemma_tree_children(r);
                    lemma_tree_children(*self);
                }
                r
            },
            FilterCondition::Or(cs) => {
                let out = Self::sort_conditions(cs);
                let r = FilterCondition::Or(out);
                proof {
                    lemma_tree_children(r);
                    lemma_tree_children(*self);
                }
                r
            },
            FilterCondition::Not(c) => FilterCondition::Not(Box::new(c.sort())),
            _ => self.clone(),
        }
    }

    /// The sorted members of `conditions` in the order of their texts;
    /// members of one text keep the order in which they stood.
    pub fn sort_conditions(conditions: &Vec<FilterCondition>) -> (out: Vec<FilterCondition>)
        ensures
            condition_views(out@) == ConditionTree::ordered(condition_views(conditions@)),
        decreases conditions,
    {
        let ghost all = condition_views(conditions@);
        let mut out: Vec<FilterCondition> = Vec::new();
        let mut keys: Vec<Vec<char>> = Vec::new();
        let mut i: usize = 0;
        while i < conditions.len()
            invariant
                i <= conditions.len(),
                all == condition_views(conditions@),
                keys.len() == out.len(),
                forall|k: int| 0 <= k < out.len() ==> keys@[k]@ == out@[k]@.rendered(),
                condition_views(out@) == ConditionTree::ordered(all.take(i as int)),
            decreases conditions.len() - i,
        {
            let member = conditions[i].sort();
            let text = member.to_string();
            let key = chars_of(text.as_str());
            let ghost list = condition_views(out@);
            let ghost x = member@;
            proof {
                assert(all.take(i + 1).drop_last() == all.take(i as int));
                assert(all.take(i + 1).last() == conditions@[i as int]@);
                assert(list.take(list.len() as int) == list);
            }
            let mut j: usize = out.len();
            while j > 0 && !chars_le(&keys[j - 1], &key)
                invariant
                    j <= out.len(),
                    keys.len() == out.len(),
                    list == condition_views(out@),
                    key@ == x.rendered(),
                    forall|k: int| 0 <= k < out.len() ==> keys@[k]@ == out@[k]@.rendered(),
                    ConditionTree::place_index(list, x) == ConditionTree::place_index(
                        list.take(j as int),
                        x,
                    ),
                decreases j,
            {
                assert(list.take(j as int).drop_last() == list.take(j - 1));
                assert(list.take(j as int).last() == out@[j - 1]@);
                j -= 1;
            }
            proof {
                if j > 0 {
                    assert(list.take(j as int).last() == out@[j - 1]@);
                }
                assert(ConditionTree::place_index(list, x) == j);
            }
            out.insert(j, member);
            keys.insert(j, key);
            assert(condition_views(out@) =~= list.insert(j as int, x));
            i += 1;
        }
        assert(all.take(conditions.len() as int) == all);
        out
    }
}

/// Two conditions are equal when their canonical texts are: the order of
/// the members of a group does not count. Conditions that say the same in
/// different shapes are not equal.
impl PartialEq for FilterCondition {
    fn eq(&self, other: &Self) -> (r: bool) {
        self.sort().to_string() == other.sort().to_string()
    }
}

impl PartialEqSpecImpl for FilterCondition {
    open spec fn obeys_eq_spec() -> bool {
        true
    }

    open spec fn eq_spec(&self, other: &Self) -> bool {
        self@.canonical_text() == other@.canonical_text()
    }
}

/// The message of a gating condition that is not of the grammar.
pub open spec fn unreadable_filter_text(filter_string: Seq<char>) -> Seq<char> {
    "Failed to parse filter string: "@ + filter_string
}

/// What reading the gating condition `filter_string` gives: the condition
/// that it spells, flattened, or the error that names the text.
pub open spec fn condition_from(filter_string: Seq<char>) -> Result<
    ConditionTree,
    DDLxParseErrorView,
> {
    match condition_of(filter_string) {
        Some(tree) => Ok(tree.reduced()),
        None => Err(
            DDLxParseErrorView::InvalidFilterCondition(unreadable_filter_text(filter_string)),
        ),
    }
}

impl FilterCondition {
    /// Reads a gating condition and flattens it.
    pub fn from_str(filter_string: String) -> (r: Result<FilterCondition, DDLxParseError>)
        ensures
            match r {
                Ok(condition) => condition_from(filter_string@) == Ok::<
                    ConditionTree,
                    DDLxParseErrorView,
                >(condition@),
                Err(e) => condition_from(filter_string@) == Err::<
                    ConditionTree,
                    DDLxParseErrorView,
                >(e@),
            },
    {
        match parse_filter_expr(filter_string.as_str()) {
            Some(condition) => Ok(condition.reduce_nesting()),
            None => {
                let mut message = "Failed to parse filter string: ".to_owned();
                append_str(&mut message, filter_string.as_str());
                Err(DDLxParseError::InvalidFilterCondition(message))
            },
        }
    }
}

/// What a `ColumnRuleFilter` holds, as plain values.
pub struct ColumnRuleFilterView {
    pub filter_string: Option<Seq<char>>,
    pub rules: Seq<ColumnRuleView>,
    pub filter_condition: Option<ConditionTree>,
}

/// A group of rules under one gating condition, or under none.
///
/// `filter_condition` is what `filter_string` spells, once `parse` has read
/// it.
#[derive(Debug, PartialEq)]
pub struct ColumnRuleFilter {
    pub filter_string: Option<String>,
    pub rules: Vec<ColumnRule>,
    pub filter_condition: Option<FilterCondition>,
}

/// The tree of an optional condition.
pub open spec fn optional_tree(c: Option<FilterCondition>) -> Option<ConditionTree> {
    match c {
        Some(c) => Some(c@),
        None => None,
    }
}

impl View for ColumnRuleFilter {
    type V = ColumnRuleFilterView;

    open spec fn view(&self) -> ColumnRuleFilterView {
        ColumnRuleFilterView {
            filter_string: optional_text(self.filter_string),
            rules: rule_views(self.rules@),
            filter_condition: optional_tree(self.filter_condition),
        }
    }
}

/// The first objection that a rule of `rules` has against `column`, or the
/// word of approval where none has any.
pub open spec fn group_verdict(rules: Seq<ColumnRuleView>, column: ColumnDefView) -> Result<
    Seq<char>,
    ColumnValidationErrorView,
>
    decreases rules.len(),
{
    if rules.len() == 0 {
        Ok(valid_text())
    } else {
        match rules[0].verdict(column) {
            Err(e) => Err(e),
            Ok(_) => group_verdict(rules.drop_first(), column),
        }
    }
}

impl ColumnRuleFilterView {
    /// A group that was not read yet.
    pub open spec fn fresh(
        filter_string: Option<Seq<char>>,
        rules: Seq<ColumnRuleView>,
    ) -> ColumnRuleFilterView {
        ColumnRuleFilterView { filter_string, rules, filter_condition: None }
    }

    /// Whether the group names a gating condition that was not read yet.
    pub open spec fn is_unread(self) -> bool {
        self.filter_condition.is_none() && self.filter_string.is_some()
            && self.filter_string.unwrap().len() > 0
    }

    /// The text by which groups are told apart: the text of the gating
    /// condition, and the empty text where there is none.
    pub open spec fn key(self) -> Seq<char> {
        match self.filter_condition {
            Some(c) => c.rendered(),
            None => Seq::empty(),
        }
    }

    /// The group with its gating condition read: a group that names none,
    /// or an empty one, has none; a text that is not of the grammar is an
    /// error.
    pub open spec fn parsed(self) -> Result<ColumnRuleFilterView, DDLxParseErrorView> {
        match self.filter_string {
            None => Ok(ColumnRuleFilterView::fresh(None, self.rules)),
            Some(text) => if text.len() == 0 {
                Ok(ColumnRuleFilterView::fresh(Some(text), self.rules))
            } else {
                match condition_from(text) {
                    Ok(tree) => Ok(
                        ColumnRuleFilterView {
                            filter_string: Some(text),
                            rules: self.rules,
                            filter_condition: Some(tree),
                        },
                    ),
                    Err(e) => Err(e),
                }
            },
        }
    }
}

impl Clone for ColumnRuleFilter {
    fn clone(&self) -> (r: Self)
        ensures
            r@ == self@,
    {
        ColumnRuleFilter {
            filter_string: clone_optional(&self.filter_string),
            rules: clone_rules(&self.rules),
            filter_condition: match &self.filter_condition {
                Some(c) => Some(c.clone()),
                None => None,
            },
        }
    }
}

impl ColumnRuleFilter {
    /// The text of the gating condition, and the empty text where there is
    /// none. The group must not name a condition that was not read yet.
    pub fn to_string(&self) -> (s: String)
        requires
            !self@.is_unread(),
        ensures
            s@ == self@.key(),
    {
        self.key()
    }

    /// The text by which groups are told apart.
    pub fn key(&self) -> (s: String)
        ensures
            s@ == self@.key(),
    {
        match &self.filter_condition {
            Some(c) => c.to_string(),
            None => String::new(),
        }
    }

    /// A group under no gating condition.
    pub fn empty_fr_rules(rules: Vec<ColumnRule>) -> (r: ColumnRuleFilter)
        ensures
            r@ == ColumnRuleFilterView::fresh(None, rule_views(rules@)),
    {
        ColumnRuleFilter { filter_string: None, rules, filter_condition: None }
    }

    /// A group of one rule.
    pub fn from_rule(filter_string: Option<String>, rule: ColumnRule) -> (r: ColumnRuleFilter)
        ensures
            r@ == ColumnRuleFilterView::fresh(optional_text(filter_string), seq![rule@]),
    {
        let mut rules: Vec<ColumnRule> = Vec::new();
        rules.push(rule);
        assert(rule_views(rules@) =~= seq![rule@]);
        ColumnRuleFilter::new(filter_string, rules)
    }

    /// A group whose gating condition, if it names one, is not read yet.
    pub fn new(filter_string: Option<String>, rules: Vec<ColumnRule>) -> (r: ColumnRuleFilter)
        ensures
            r@ == ColumnRuleFilterView::fresh(optional_text(filter_string), rule_views(rules@)),
    {
        ColumnRuleFilter { filter_string, rules, filter_condition: None }
    }

    /// The group with its gating condition read.
    pub fn parse(&self) -> (r: Result<Self, DDLxParseError>)
        ensures
            match r {
                Ok(group) => self@.parsed() == Ok::<ColumnRuleFilterView, DDLxParseErrorView>(
                    group@,
                ),
                Err(e) => self@.parsed() == Err::<ColumnRuleFilterView, DDLxParseErrorView>(e@),
            },
    {
        match &self.filter_string {
            None => Ok(
                ColumnRuleFilter {
                    filter_string: None,
                    rules: clone_rules(&self.rules),
                    filter_condition: None,
                },
            ),
            Some(text) => {
                if text.as_str().is_empty() {
                    return Ok(
                        ColumnRuleFilter {
                            filter_string: Some(text.clone()),
                            rules: clone_rules(&self.rules),
                            filter_condition: None,
                        },
                    );
                }
                match FilterCondition::from_str(text.clone()) {
                    Ok(condition) => Ok(
                        ColumnRuleFilter {
                            filter_string: Some(text.clone()),
                            rules: clone_rules(&self.rules),
                            filter_condition: Some(condition),
                        },
                    ),
                    Err(e) => Err(e),
                }
            },
        }
    }
}

impl ValidColumnRule for ColumnRuleFilter {
    open spec fn verdict(&self, column: ColumnDefView) -> Result<Seq<char>, ColumnValidationErrorView> {
        group_verdict(self@.rules, column)
    }

    fn validate_col_type(&self, column: &ColumnDef) -> (r: Result<String, ColumnValidationError>) {
        let ghost all = rule_views(self.rules@);
        let mut i: usize = 0;
        assert(all.skip(0) == all);
        while i < self.rules.len()
            invariant
                i <= self.rules.len(),
                all == rule_views(self.rules@),
                group_verdict(all, column@) == group_verdict(all.skip(i as int), column@),
            decreases self.rules.len() - i,
        {
            assert(all.skip(i as int)[0] == self.rules@[i as int]@);
            assert(all.skip(i as int).drop_first() == all.skip(i + 1));
            match self.rules[i].validate_col_type(column) {
                Err(e) => {
                    return Err(e);
                },
                Ok(_) => {},
            }
            i += 1;
        }
        Ok("valid".to_owned())
    }
}

/// The views of a list of groups.
pub open spec fn filter_views(filters: Seq<ColumnRuleFilter>) -> Seq<ColumnRuleFilterView> {
    filters.map_values(|f: ColumnRuleFilter| f@)
}

/// A copy of a list of groups.
pub fn clone_filters(filters: &Vec<ColumnRuleFilter>) -> (r: Vec<ColumnRuleFilter>)
    ensures
        filter_views(r@) == filter_views(filters@),
{
    let mut out: Vec<ColumnRuleFilter> = Vec::new();
    let mut i: usize = 0;
    while i < filters.len()
        invariant
            i <= filters.len(),
            out.len() == i,
            forall|j: int| 0 <= j < i ==> out@[j]@ == filters@[j]@,
        decreases filters.len() - i,
    {
        out.push(filters[i].clone());
        i += 1;
    }
    assert(filter_views(out@) =~= filter_views(filters@));
    out
}

} // verus!
