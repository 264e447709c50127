//! The grammar of gating conditions.
//!
//! A condition is a chain of terms joined by `||`; each of them is a chain of
//! terms joined by `&&`, which binds tighter. A chain is read from the left:
//! `a && b && c` is the conjunction of `a && b` and `c`. A term is a
//! condition between brackets, a condition between `!(` and `)`, or a
//! comparison of a field with a field or with a number.
use crate::model::rule_filter::filter::{
    condition_views, lemma_tree_children, ConditionTree, FilterCondition,
};
use crate::model::rule_filter::operator::ComparisonOperator;
use crate::parser::cursor::{Source, SourceView};
use crate::parser::lexer::TokenKind;
use vstd::prelude::*;

verus! {

/// The comparison that a token of the kind `kind` stands for.
pub open spec fn operator_of(kind: Option<TokenKind>) -> Option<ComparisonOperator> {
    match kind {
        Some(TokenKind::Greater) => Some(ComparisonOperator::GreaterThan),
        Some(TokenKind::Less) => Some(ComparisonOperator::LessThan),
        Some(TokenKind::Equal) => Some(ComparisonOperator::Equal),
        Some(TokenKind::NotEqual) => Some(ComparisonOperator::NotEqual),
        Some(TokenKind::GreaterEqual) => Some(ComparisonOperator::GreaterThanOrEqual),
        Some(TokenKind::LessEqual) => Some(ComparisonOperator::LessThanOrEqual),
        _ => None,
    }
}

/// The comparison that begins with the token with the index `pos`: a word,
/// an operator, and a word or a number.
pub open spec fn comparison_at(src: SourceView, pos: int) -> Option<(ConditionTree, int)> {
    if src.kind_at(pos) != Some(TokenKind::Word) {
        None
    } else {
        match operator_of(src.kind_at(pos + 1)) {
            None => None,
            Some(operator) => {
                if src.kind_at(pos + 2) == Some(TokenKind::Word) {
                    Some(
                        (
                            ConditionTree::FieldCondition {
                                first_field: src.text_at(pos),
                                operator,
                                second_field: src.text_at(pos + 2),
                            },
                            pos + 3,
                        ),
                    )
                } else if src.kind_at(pos + 2) == Some(TokenKind::Number) {
                    Some(
                        (
                            ConditionTree::ValueCondition {
                                field: src.text_at(pos),
                                operator,
                                value: src.text_at(pos + 2),
                            },
                            pos + 3,
                        ),
                    )
                } else {
                    None
                }
            },
        }
    }
}

/// The term that begins with the token with the index `pos`, and the index
/// behind it.
pub open spec fn term_at(src: SourceView, pos: int) -> Option<(ConditionTree, int)>
    decreases src.tokens.len() - pos, 0nat,
{
    if src.kind_at(pos) == Some(TokenKind::LeftParen) {
        match or_at(src, pos + 1) {
            Some((inner, p)) => if src.kind_at(p) == Some(TokenKind::RightParen) {
                Some((inner, p + 1))
            } else {
                None
            },
            None => None,
        }
    } else if src.kind_at(pos) == Some(TokenKind::NotParen) {
        match or_at(src, pos + 1) {
            Some((inner, p)) => if src.kind_at(p) == Some(TokenKind::RightParen) {
                Some((ConditionTree::Not(Box::new(inner)), p + 1))
            } else {
                None
            },
            None => None,
        }
    } else {
        comparison_at(src, pos)
    }
}

/// What follows the conjunction `left`, which ends before the token with
/// the index `pos`: as long as `&&` and a term follow, the conjunction of
/// what was read and that term.
pub open spec fn and_tail(src: SourceView, pos: int, left: ConditionTree) -> Option<
    (ConditionTree, int),
>
    decreases src.tokens.len() - pos, 1nat,
{
    if src.kind_at(pos) == Some(TokenKind::AndAnd) {
        match term_at(src, pos + 1) {
            Some((right, p)) => if pos < p <= src.tokens.len() {
                and_tail(src, p, ConditionTree::And(seq![left, right]))
            } else {
                None
            },
            None => None,
        }
    } else {
        Some((left, pos))
    }
}

/// The chain of terms joined by `&&` that begins with the token with the
/// index `pos`.
pub open spec fn and_at(src: SourceView, pos: int) -> Option<(ConditionTree, int)>
    decreases src.tokens.len() - pos, 2nat,
{
    match term_at(src, pos) {
        Some((first, p)) => if pos < p <= src.tokens.len() {
            and_tail(src, p, first)
        } else {
            None
        },
        None => None,
    }
}

/// What follows the disjunction `left`, which ends before the token with
/// the index `pos`.
pub open spec fn or_tail(src: SourceView, pos: int, left: ConditionTree) -> Option<
    (ConditionTree, int),
>
    decreases src.tokens.len() - pos, 3nat,
{
    if src.kind_at(pos) == Some(TokenKind::OrOr) {
        match and_at(src, pos + 1) {
            Some((right, p)) => if pos < p <= src.tokens.len() {
                or_tail(src, p, ConditionTree::Or(seq![left, right]))
            } else {
                None
            },
            None => None,
        }
    } else {
        Some((left, pos))
    }
}

/// The condition that begins with the token with the index `pos`: a chain
/// of conjunctions joined by `||`.
pub open spec fn or_at(src: SourceView, pos: int) -> Option<(ConditionTree, int)>
    decreases src.tokens.len() - pos, 4nat,
{
    match and_at(src, pos) {
        Some((first, p)) => if pos < p <= src.tokens.len() {
            or_tail(src, p, first)
        } else {
            None
        },
        None => None,
    }
}

/// The condition that `text` spells, as it is written: no group is
/// flattened. `None` where `text` spells none.
pub open spec fn condition_of(text: Seq<char>) -> Option<ConditionTree> {
    let src = SourceView::of(text);
    match or_at(src, 0) {
        Some((tree, end)) => if src.finish(end).is_none() {
            Some(tree)
        } else {
            None
        },
        None => None,
    }
}

/// Whether the computed condition and index are those of `spec`, and the
/// index lies behind `pos` and within the tokens.
pub open spec fn read_matches(
    r: Option<(FilterCondition, usize)>,
    spec: Option<(ConditionTree, int)>,
    src: SourceView,
    pos: usize,
) -> bool {
    match r {
        Some((condition, end)) => spec == Some((condition@, end as int)) && pos < end
            <= src.tokens.len(),
        None => spec.is_none(),
    }
}

fn read_operator(src: &Source, pos: usize) -> (r: Option<ComparisonOperator>)
    ensures
        r == operator_of(src@.kind_at(pos as int)),
{
    match src.kind(pos) {
        Some(TokenKind::Greater) => Some(ComparisonOperator::GreaterThan),
        Some(TokenKind::Less) => Some(ComparisonOperator::LessThan),
        Some(TokenKind::Equal) => Some(ComparisonOperator::Equal),
        Some(TokenKind::NotEqual) => Some(ComparisonOperator::NotEqual),
        Some(TokenKind::GreaterEqual) => Some(ComparisonOperator::GreaterThanOrEqual),
        Some(TokenKind::LessEqual) => Some(ComparisonOperator::LessThanOrEqual),
        _ => None,
    }
}

fn read_comparison(src: &Source, pos: usize) -> (r: Option<(FilterCondition, usize)>)
    requires
        src@.wf(),
    ensures
        read_matches(r, comparison_at(src@, pos as int), src@, pos),
{
    if !src.is_kind(pos, TokenKind::Word) {
        return None;
    }
    let operator = match read_operator(src, pos + 1) {
        Some(operator) => operator,
        None => {
            return None;
        },
    };
    if src.is_kind(pos + 2, TokenKind::Word) {
        Some(
            (
                FilterCondition::FieldCondition {
                    first_field: src.text(pos),
                    operator,
                    second_field: src.text(pos + 2),
                },
                pos + 3,
            ),
        )
    } else if src.is_kind(pos + 2, TokenKind::Number) {
        Some(
            (
                FilterCondition::ValueCondition {
                    field: src.text(pos),
                    operator,
                    value: src.text(pos + 2),
                },
                pos + 3,
            ),
        )
    } else {
        None
    }
}

fn pair(left: FilterCondition, right: FilterCondition) -> (v: Vec<FilterCondition>)
    ensures
        condition_views(v@) == seq![left@, right@],
{
    let mut v: Vec<FilterCondition> = Vec::new();
    v.push(left);
    v.push(right);
    assert(condition_views(v@) =~= seq![left@, right@]);
    v
}

fn read_term(src: &Source, pos: usize) -> (r: Option<(FilterCondition, usize)>)
    requires
        src@.wf(),
    ensures
        read_matches(r, term_at(src@, pos as int), src@, pos),
    decreases src@.tokens.len() - pos, 0nat,
{
    if src.is_kind(pos, TokenKind::LeftParen) {
        match read_or(src, pos + 1) {
            Some((inner, p)) => if src.is_kind(p, TokenKind::RightParen) {
                Some((inner, p + 1))
            } else {
                None
            },
            None => None,
        }
    } else if src.is_kind(pos, TokenKind::NotParen) {
        match read_or(src, pos + 1) {
            Some((inner, p)) => if src.is_kind(p, TokenKind::RightParen) {
                Some((FilterCondition::Not(Box::new(inner)), p + 1))
            } else {
                None
            },
            None => None,
        }
    } else {
        read_comparison(src, pos)
    }
}

fn read_and(src: &Source, pos: usize) -> (r: Option<(FilterCondition, usize)>)
    requires
        src@.wf(),
    ensures
        read_matches(r, and_at(src@, pos as int), src@, pos),
    decreases src@.tokens.len() - pos, 2nat,
{
    let (mut left, mut at) = match read_term(src, pos) {
        Some(read) => read,
        None => {
            return None;
        },
    };
    loop
        invariant
            src@.wf(),
            pos < at <= src@.tokens.len(),
            and_at(src@, pos as int) == and_tail(src@, at as int, left@),
        decreases src@.tokens.len() - at,
    {
        if !src.is_kind(at, TokenKind::AndAnd) {
            return Some((left, at));
        }
        match read_term(src, at + 1) {
            Some((right, next)) => {
                let both = FilterCondition::And(pair(left, right));
                proof {
                    lemma_tree_children(both);
                }
                left = both;
                at = next;
            },
            None => {
                return None;
            },
        }
    }
}

fn read_or(src: &Source, pos: usize) -> (r: Option<(FilterCondition, usize)>)
    requires
        src@.wf(),
    ensures
        read_matches(r, or_at(src@, pos as int), src@, pos),
    decreases src@.tokens.len() - pos, 4nat,
{
    let (mut left, mut at) = match read_and(src, pos) {
        Some(read) => read,
        None => {
            return None;
        },
    };
    loop
        invariant
            src@.wf(),
            pos < at <= src@.tokens.len(),
            or_at(src@, pos as int) == or_tail(src@, at as int, left@),
        decreases src@.tokens.len() - at,
    {
        if !src.is_kind(at, TokenKind::OrOr) {
            return Some((left, at));
        }
        match read_and(src, at + 1) {
            Some((right, next)) => {
                let both = FilterCondition::Or(pair(left, right));
                proof {
                    lemma_tree_children(both);
                }
                left = both;
                at = next;
            },
            None => {
                return None;
            },
        }
    }
}

/// Reads the condition that `text` spells, as it is written.
pub fn parse_filter_expr(text: &str) -> (r: Option<FilterCondition>)
    ensures
        match r {
            Some(condition) => condition_of(text@) == Some(condition@),
            None => condition_of(text@).is_none(),
        },
{
    let src = Source::new(text);
    match read_or(&src, 0) {
        Some((condition, end)) => if src.finish(end).is_none() {
            Some(condition)
        } else {
            None
        },
        None => None,
    }
}

} // verus!
