//! The grammar of table declarations.
//!
//! `CREATE TABLE`, optionally `IF NOT EXISTS`, the table name with an
//! optional schema before it and an optional quoted label behind it, the
//! columns between braces, and a semicolon. A column is a name, a type,
//! optionally `PRIMARY KEY`, optionally `NOT NULL`, and optionally rules
//! between braces. A rule is a dash, the name of the rule, and what the
//! rule takes: a quoted text for `LIKE`, `REGEX` and `CONTAINS`, and a
//! threshold for these and for `not_empty`. Columns and rules are separated
//! by commas; a comma may follow the last. Letter case does not count in
//! the words of the grammar.
use crate::model::column_rule::{
    ColumnRule, ColumnRuleView, ContainsValue, ContainsValueView, LikePattern, LikePatternView,
    NotEmpty, NotEmptyView, RegexPattern, RegexPatternView, Uniqueness, UniquenessView,
};
use crate::model::rule_ext_config::RuleExtConfigView;
use crate::model::rule_filter::filter::{filter_views, ColumnRuleFilter, ColumnRuleFilterView};
use crate::model::table_expr::{
    column_views, ColumnDef, ColumnDefView, TableDef, TableDefView, TableRef, TableRefView,
};
use crate::model::threshold::{canonical, Threshold};
use crate::parser::cursor::{Expected, Failure, Miss, Source, SourceView};
use crate::parser::data_class_parsing::{data_type_at, miss, missed, read_data_type};
use crate::parser::lexer::TokenKind;
use vstd::prelude::*;

verus! {

/// The rules that can be written.
#[derive(Clone, Copy, Debug, PartialEq, Eq, Structural)]
pub enum RuleKind {
    Like,
    Regex,
    Contains,
    Unique,
    NotEmpty,
}

impl RuleKind {
    /// Whether the rule takes a quoted text.
    pub open spec fn takes_text(self) -> bool {
        self == RuleKind::Like || self == RuleKind::Regex || self == RuleKind::Contains
    }

    /// The rule of this kind with the text `text` and the threshold
    /// `threshold`, where the kind takes them.
    pub open spec fn rule(self, text: Seq<char>, threshold: Seq<char>) -> ColumnRuleView {
        match self {
            RuleKind::Like => ColumnRuleView::LikePattern(
                LikePatternView {
                    name: Seq::empty(),
                    pattern: text,
                    rule_ext_config: RuleExtConfigView::empty(),
                    threshold,
                },
            ),
            RuleKind::Regex => ColumnRuleView::RegexPattern(
                RegexPatternView {
                    name: Seq::empty(),
                    pattern: text,
                    rule_ext_config: RuleExtConfigView::empty(),
                    threshold,
                },
            ),
            RuleKind::Contains => ColumnRuleView::ContainsValue(
                ContainsValueView {
                    name: Seq::empty(),
                    value: text,
                    rule_ext_config: RuleExtConfigView::empty(),
                    threshold,
                },
            ),
            RuleKind::Unique => ColumnRuleView::Uniqueness(UniquenessView::initial()),
            RuleKind::NotEmpty => ColumnRuleView::NotEmpty(
                NotEmptyView {
                    name: Seq::empty(),
                    rule_ext_config: RuleExtConfigView::empty(),
                    threshold,
                },
            ),
        }
    }

    fn has_text(self) -> (r: bool)
        ensures
            r == self.takes_text(),
    {
        match self {
            RuleKind::Like => true,
            RuleKind::Regex => true,
            RuleKind::Contains => true,
            _ => false,
        }
    }

    fn make(self, text: String, threshold: Option<Threshold>) -> (r: ColumnRule)
        ensures
            r@ == self.rule(
                text@,
                match threshold {
                    Some(t) => t@,
                    None => "1"@,
                },
            ),
    {
        match self {
            RuleKind::Like => ColumnRule::LikePattern(LikePattern::new(None, text, None, threshold)),
            RuleKind::Regex => ColumnRule::RegexPattern(
                RegexPattern::new(None, text, None, threshold),
            ),
            RuleKind::Contains => ColumnRule::ContainsValue(
                ContainsValue::new(None, text, None, threshold),
            ),
            RuleKind::Unique => ColumnRule::Uniqueness(Uniqueness::new(None, None)),
            RuleKind::NotEmpty => ColumnRule::NotEmpty(NotEmpty::new(None, None, threshold)),
        }
    }
}

/// The rule that the word with the index `pos` names.
pub open spec fn rule_kind_at(src: SourceView, pos: int) -> Option<RuleKind> {
    if src.keyword_at(pos, "like"@) {
        Some(RuleKind::Like)
    } else if src.keyword_at(pos, "regex"@) {
        Some(RuleKind::Regex)
    } else if src.keyword_at(pos, "contains"@) {
        Some(RuleKind::Contains)
    } else if src.keyword_at(pos, "unique"@) {
        Some(RuleKind::Unique)
    } else if src.keyword_at(pos, "not_empty"@) {
        Some(RuleKind::NotEmpty)
    } else {
        None
    }
}

/// What reading a rule gives: the rule, the index behind it, and what may
/// follow it.
pub struct RuleRead {
    pub rule: ColumnRuleView,
    pub end: int,
    pub tail: Expected,
}

/// The rule that begins with the token with the index `pos`. `lead` is
/// what is expected where no dash stands there.
pub open spec fn rule_at(src: SourceView, pos: int, lead: Expected) -> Result<RuleRead, Miss> {
    if src.kind_at(pos) != Some(TokenKind::Dash) {
        Err(miss(pos, lead))
    } else {
        match rule_kind_at(src, pos + 1) {
            None => Err(miss(pos + 1, Expected::RuleName)),
            Some(kind) => {
                if kind == RuleKind::Unique {
                    Ok(
                        RuleRead {
                            rule: kind.rule(Seq::empty(), "1"@),
                            end: pos + 2,
                            tail: Expected::CommaOrRightBrace,
                        },
                    )
                } else if kind.takes_text() && src.kind_at(pos + 2) != Some(TokenKind::Quoted) {
                    Err(miss(pos + 2, Expected::Pattern))
                } else {
                    let text = if kind.takes_text() {
                        src.quoted_at(pos + 2)
                    } else {
                        Seq::empty()
                    };
                    let p = if kind.takes_text() {
                        pos + 3
                    } else {
                        pos + 2
                    };
                    if src.kind_at(p) == Some(TokenKind::Number) {
                        match canonical(src.text_at(p)) {
                            None => Err(miss(p, Expected::Threshold)),
                            Some(threshold) => Ok(
                                RuleRead {
                                    rule: kind.rule(text, threshold),
                                    end: p + 1,
                                    tail: Expected::CommaOrRightBrace,
                                },
                            ),
                        }
                    } else {
                        Ok(
                            RuleRead {
                                rule: kind.rule(text, "1"@),
                                end: p,
                                tail: Expected::ThresholdCommaOrRightBrace,
                            },
                        )
                    }
                }
            },
        }
    }
}

/// The rules from the token with the index `pos` on, up to the closing
/// brace, each as a group of its own under no gating condition, and the
/// index behind the brace.
pub open spec fn rules_at(src: SourceView, pos: int, lead: Expected) -> Result<
    (Seq<ColumnRuleFilterView>, int),
    Miss,
>
    decreases src.tokens.len() - pos,
{
    match rule_at(src, pos, lead) {
        Err(m) => Err(m),
        Ok(read) => {
            let group = ColumnRuleFilterView::fresh(None, seq![read.rule]);
            if src.kind_at(read.end) == Some(TokenKind::RightBrace) {
                Ok((seq![group], read.end + 1))
            } else if src.kind_at(read.end) == Some(TokenKind::Comma) {
                if src.kind_at(read.end + 1) == Some(TokenKind::RightBrace) {
                    Ok((seq![group], read.end + 2))
                } else if pos < read.end + 1 <= src.tokens.len() {
                    match rules_at(src, read.end + 1, Expected::DashOrRightBrace) {
                        Err(m) => Err(m),
                        Ok((rest, end)) => Ok((seq![group] + rest, end)),
                    }
                } else {
                    Err(miss(read.end + 1, Expected::DashOrRightBrace))
                }
            } else {
                Err(miss(read.end, read.tail))
            }
        },
    }
}

/// What reading a column gives: the column, the index behind it, and what
/// may follow it.
pub struct ColumnRead {
    pub column: ColumnDefView,
    pub end: int,
    pub tail: Expected,
}

/// The column that begins with the token with the index `pos`. `lead` is
/// what is expected where no name stands there. A column that is the key
/// must be present.
#[verifier::opaque]
pub open spec fn column_at(src: SourceView, pos: int, lead: Expected) -> Result<ColumnRead, Miss> {
    if !src.identifier_at(pos) {
        Err(miss(pos, lead))
    } else {
        match data_type_at(src, pos + 1) {
            Err(m) => Err(m),
            Ok((data_type, p1)) => {
                let key = src.keyword_at(p1, "primary"@);
                let p2 = if key {
                    p1 + 2
                } else {
                    p1
                };
                let present = src.keyword_at(p2, "not"@);
                let p3 = if present {
                    p2 + 2
                } else {
                    p2
                };
                if key && !src.keyword_at(p1 + 1, "key"@) {
                    Err(miss(p1 + 1, Expected::Key))
                } else if present && !src.keyword_at(p2 + 1, "null"@) {
                    Err(miss(p2 + 1, Expected::Null))
                } else if src.kind_at(p3) == Some(TokenKind::LeftBrace) {
                    match rules_at(src, p3 + 1, Expected::Dash) {
                        Err(m) => Err(m),
                        Ok((groups, end)) => Ok(
                            ColumnRead {
                                column: ColumnDefView::declared_with(
                                    src.text_at(pos),
                                    data_type,
                                    present || key,
                                    key,
                                    groups,
                                ),
                                end,
                                tail: Expected::CommaOrRightBrace,
                            },
                        ),
                    }
                } else {
                    Ok(
                        ColumnRead {
                            column: ColumnDefView::declared_with(
                                src.text_at(pos),
                                data_type,
                                present || key,
                                key,
                                Seq::empty(),
                            ),
                            end: p3,
                            tail: if present {
                                Expected::AfterNotNull
                            } else if key {
                                Expected::AfterPrimaryKey
                            } else {
                                Expected::AfterType
                            },
                        },
                    )
                }
            },
        }
    }
}

/// The columns from the token with the index `pos` on, up to the closing
/// brace, and the index behind the brace.
pub open spec fn columns_at(src: SourceView, pos: int, lead: Expected) -> Result<
    (Seq<ColumnDefView>, int),
    Miss,
>
    decreases src.tokens.len() - pos,
{
    match column_at(src, pos, lead) {
        Err(m) => Err(m),
        Ok(read) => {
            if src.kind_at(read.end) == Some(TokenKind::RightBrace) {
                Ok((seq![read.column], read.end + 1))
            } else if src.kind_at(read.end) == Some(TokenKind::Comma) {
                if src.kind_at(read.end + 1) == Some(TokenKind::RightBrace) {
                    Ok((seq![read.column], read.end + 2))
                } else if pos < read.end + 1 <= src.tokens.len() {
                    match columns_at(src, read.end + 1, Expected::IdentifierOrRightBrace) {
                        Err(m) => Err(m),
                        Ok((rest, end)) => Ok((seq![read.column] + rest, end)),
                    }
                } else {
                    Err(miss(read.end + 1, Expected::IdentifierOrRightBrace))
                }
            } else {
                Err(miss(read.end, read.tail))
            }
        },
    }
}

/// The name of the table, which begins with the token with the index
/// `pos`, and the index behind it: a name, or a schema, a point and a
/// name, and optionally a quoted label.
pub open spec fn table_ref_at(src: SourceView, pos: int, lead: Expected) -> Result<
    (TableRefView, int, Expected),
    Miss,
> {
    let dotted = src.kind_at(pos + 1) == Some(TokenKind::Dot);
    let p2 = if dotted {
        pos + 3
    } else {
        pos + 1
    };
    let labelled = src.kind_at(p2) == Some(TokenKind::Quoted);
    if !src.identifier_at(pos) {
        Err(miss(pos, lead))
    } else if dotted && !src.identifier_at(pos + 2) {
        Err(miss(pos + 2, Expected::Identifier))
    } else {
        Ok(
            (
                TableRefView {
                    table_name: if dotted {
                        src.text_at(pos + 2)
                    } else {
                        src.text_at(pos)
                    },
                    schema_name: if dotted {
                        Some(src.text_at(pos))
                    } else {
                        None
                    },
                    alias: if labelled {
                        Some(src.quoted_at(p2))
                    } else {
                        None
                    },
                },
                if labelled {
                    p2 + 1
                } else {
                    p2
                },
                if labelled {
                    Expected::LeftBrace
                } else if dotted {
                    Expected::AliasOrLeftBrace
                } else {
                    Expected::DotAliasOrLeftBrace
                },
            ),
        )
    }
}

/// The table that the tokens declare, and the index behind the semicolon.
pub open spec fn table_at(src: SourceView) -> Result<(TableDefView, int), Miss> {
    let guarded = src.keyword_at(2, "if"@);
    let p = if guarded {
        5int
    } else {
        2int
    };
    if !src.keyword_at(0, "create"@) {
        Err(miss(0, Expected::Create))
    } else if !src.keyword_at(1, "table"@) {
        Err(miss(1, Expected::Table))
    } else if guarded && !src.keyword_at(3, "not"@) {
        Err(miss(3, Expected::Not))
    } else if guarded && !src.keyword_at(4, "exists"@) {
        Err(miss(4, Expected::Exists))
    } else {
        match table_ref_at(
            src,
            p,
            if guarded {
                Expected::Identifier
            } else {
                Expected::IfOrIdentifier
            },
        ) {
            Err(m) => Err(m),
            Ok((table_ref, p3, tail)) => {
                if src.kind_at(p3) != Some(TokenKind::LeftBrace) {
                    Err(miss(p3, tail))
                } else {
                    match columns_at(src, p3 + 1, Expected::Identifier) {
                        Err(m) => Err(m),
                        Ok((columns, p4)) => {
                            if src.kind_at(p4) != Some(TokenKind::Semicolon) {
                                Err(miss(p4, Expected::Semicolon))
                            } else {
                                Ok((TableDefView { table_ref, columns }, p4 + 1))
                            }
                        },
                    }
                }
            },
        }
    }
}

/// The table that `src` declares as it is written, before its rules are
/// checked and merged, or why it declares none.
pub open spec fn table_in(src: SourceView) -> Result<TableDefView, Failure> {
    match table_at(src) {
        Err(m) => Err(src.failure(m)),
        Ok((table, end)) => match src.finish(end) {
            Some(failure) => Err(failure),
            None => Ok(table),
        },
    }
}

/// The table that `text` declares as it is written.
pub open spec fn table_of(text: Seq<char>) -> Result<TableDefView, Failure> {
    table_in(SourceView::of(text))
}

/// The column that `text` declares, or why it declares none.
pub open spec fn column_of(text: Seq<char>) -> Result<ColumnDefView, Failure> {
    let src = SourceView::of(text);
    match column_at(src, 0, Expected::Identifier) {
        Err(m) => Err(src.failure(m)),
        Ok(read) => match src.finish(read.end) {
            Some(failure) => Err(failure),
            None => Ok(read.column),
        },
    }
}

fn read_rule_kind(src: &Source, pos: usize) -> (r: Option<RuleKind>)
    requires
        src@.wf(),
    ensures
        r == rule_kind_at(src@, pos as int),
{
    if src.is_keyword(pos, "like") {
        Some(RuleKind::Like)
    } else if src.is_keyword(pos, "regex") {
        Some(RuleKind::Regex)
    } else if src.is_keyword(pos, "contains") {
        Some(RuleKind::Contains)
    } else if src.is_keyword(pos, "unique") {
        Some(RuleKind::Unique)
    } else if src.is_keyword(pos, "not_empty") {
        Some(RuleKind::NotEmpty)
    } else {
        None
    }
}

fn read_rule(src: &Source, pos: usize, lead: Expected) -> (r: Result<
    (ColumnRule, usize, Expected),
    Miss,
>)
    requires
        src@.wf(),
    ensures
        match r {
            Ok((rule, end, tail)) => rule_at(src@, pos as int, lead) == Ok::<RuleRead, Miss>(
                RuleRead { rule: rule@, end: end as int, tail },
            ) && pos < end <= src@.tokens.len(),
            Err(m) => rule_at(src@, pos as int, lead) == Err::<RuleRead, Miss>(m),
        },
{
    if !src.is_kind(pos, TokenKind::Dash) {
        return Err(missed(pos, lead));
    }
    let kind = match read_rule_kind(src, pos + 1) {
        Some(kind) => kind,
        None => {
            return Err(missed(pos + 1, Expected::RuleName));
        },
    };
    if matches!(kind, RuleKind::Unique) {
        return Ok((kind.make(String::new(), None), pos + 2, Expected::CommaOrRightBrace));
    }
    let with_text = kind.has_text();
    if with_text && !src.is_kind(pos + 2, TokenKind::Quoted) {
        return Err(missed(pos + 2, Expected::Pattern));
    }
    let text = if with_text {
        src.quoted(pos + 2)
    } else {
        String::new()
    };
    let p = if with_text {
        pos + 3
    } else {
        pos + 2
    };
    if src.is_kind(p, TokenKind::Number) {
        let literal = src.text(p);
        match Threshold::from_literal(literal.as_str()) {
            None => Err(missed(p, Expected::Threshold)),
            Some(threshold) => Ok(
                (kind.make(text, Some(threshold)), p + 1, Expected::CommaOrRightBrace),
            ),
        }
    } else {
        Ok((kind.make(text, None), p, Expected::ThresholdCommaOrRightBrace))
    }
}

/// The result `r` with the groups `front` put before its groups.
pub open spec fn groups_behind(
    front: Seq<ColumnRuleFilterView>,
    r: Result<(Seq<ColumnRuleFilterView>, int), Miss>,
) -> Result<(Seq<ColumnRuleFilterView>, int), Miss> {
    match r {
        Err(m) => Err(m),
        Ok((rest, end)) => Ok((front + rest, end)),
    }
}

fn read_rules(src: &Source, pos: usize, lead: Expected) -> (r: Result<
    (Vec<ColumnRuleFilter>, usize),
    Miss,
>)
    requires
        src@.wf(),
        pos <= src@.tokens.len(),
    ensures
        match r {
            Ok((groups, end)) => rules_at(src@, pos as int, lead) == Ok::<
                (Seq<ColumnRuleFilterView>, int),
                Miss,
            >((filter_views(groups@), end as int)) && pos < end <= src@.tokens.len(),
            Err(m) => rules_at(src@, pos as int, lead) == Err::<
                (Seq<ColumnRuleFilterView>, int),
                Miss,
            >(m),
        },
{
    let mut groups: Vec<ColumnRuleFilter> = Vec::new();
    let mut at: usize = pos;
    let mut expected = lead;
    assert(filter_views(groups@) =~= Seq::empty());
    assert(groups_behind(Seq::empty(), rules_at(src@, pos as int, lead)) == rules_at(
        src@,
        pos as int,
        lead,
    )) by {
        match rules_at(src@, pos as int, lead) {
            Ok((rest, end)) => {
                assert(Seq::<ColumnRuleFilterView>::empty() + rest =~= rest);
            },
            Err(_) => {},
        }
    }
    loop
        invariant
            src@.wf(),
            pos <= at <= src@.tokens.len(),
            rules_at(src@, pos as int, lead) == groups_behind(
                filter_views(groups@),
                rules_at(src@, at as int, expected),
            ),
        decreases src@.tokens.len() - at,
    {
        let ghost front = filter_views(groups@);
        let (rule, end, tail) = match read_rule(src, at, expected) {
            Ok(read) => read,
            Err(m) => {
                return Err(m);
            },
        };
        let ghost first = ColumnRuleFilterView::fresh(None, seq![rule@]);
        groups.push(ColumnRuleFilter::from_rule(None, rule));
        assert(filter_views(groups@) =~= front + seq![first]);
        if src.is_kind(end, TokenKind::RightBrace) {
            return Ok((groups, end + 1));
        } else if src.is_kind(end, TokenKind::Comma) {
            if src.is_kind(end + 1, TokenKind::RightBrace) {
                return Ok((groups, end + 2));
            }
            proof {
                match rules_at(src@, end + 1, Expected::DashOrRightBrace) {
                    Ok((rest, _)) => {
                        assert(front + (seq![first] + rest) =~= (front + seq![first]) + rest);
                    },
                    Err(_) => {},
                }
            }
            at = end + 1;
            expected = Expected::DashOrRightBrace;
        } else {
            return Err(missed(end, tail));
        }
    }
}

fn read_column(src: &Source, pos: usize, lead: Expected) -> (r: Result<
    (ColumnDef, usize, Expected),
    Miss,
>)
    requires
        src@.wf(),
    ensures
        match r {
            Ok((column, end, tail)) => column_at(src@, pos as int, lead) == Ok::<ColumnRead, Miss>(
                ColumnRead { column: column@, end: end as int, tail },
            ) && pos < end <= src@.tokens.len(),
            Err(m) => column_at(src@, pos as int, lead) == Err::<ColumnRead, Miss>(m),
        },
{
    reveal(column_at);
    if !src.is_identifier(pos) {
        return Err(missed(pos, lead));
    }
    let (data_type, p1) = match read_data_type(src, pos + 1) {
        Ok(read) => read,
        Err(m) => {
            return Err(m);
        },
    };
    let key = src.is_keyword(p1, "primary");
    if key && !src.is_keyword(p1 + 1, "key") {
        return Err(missed(p1 + 1, Expected::Key));
    }
    let p2 = if key {
        p1 + 2
    } else {
        p1
    };
    let present = src.is_keyword(p2, "not");
    if present && !src.is_keyword(p2 + 1, "null") {
        return Err(missed(p2 + 1, Expected::Null));
    }
    let p3 = if present {
        p2 + 2
    } else {
        p2
    };
    let name = src.text(pos);
    if src.is_kind(p3, TokenKind::LeftBrace) {
        match read_rules(src, p3 + 1, Expected::Dash) {
            Err(m) => Err(m),
            Ok((groups, end)) => Ok(
                (
                    ColumnDef::new_with_rules_and_filter(
                        name,
                        data_type,
                        present || key,
                        key,
                        groups,
                    ),
                    end,
                    Expected::CommaOrRightBrace,
                ),
            ),
        }
    } else {
        let groups: Vec<ColumnRuleFilter> = Vec::new();
        assert(filter_views(groups@) =~= Seq::empty());
        let tail = if present {
            Expected::AfterNotNull
        } else if key {
            Expected::AfterPrimaryKey
        } else {
            Expected::AfterType
        };
        Ok(
            (
                ColumnDef::new_with_rules_and_filter(name, data_type, present || key, key, groups),
                p3,
                tail,
            ),
        )
    }
}

/// The result `r` with the columns `front` put before its columns.
pub open spec fn columns_behind(
    front: Seq<ColumnDefView>,
    r: Result<(Seq<ColumnDefView>, int), Miss>,
) -> Result<(Seq<ColumnDefView>, int), Miss> {
    match r {
        Err(m) => Err(m),
        Ok((rest, end)) => Ok((front + rest, end)),
    }
}

fn read_columns(src: &Source, pos: usize, lead: Expected) -> (r: Result<
    (Vec<ColumnDef>, usize),
    Miss,
>)
    requires
        src@.wf(),
        pos <= src@.tokens.len(),
    ensures
        match r {
            Ok((columns, end)) => columns_at(src@, pos as int, lead) == Ok::<
                (Seq<ColumnDefView>, int),
                Miss,
            >((column_views(columns@), end as int)) && pos < end <= src@.tokens.len(),
            Err(m) => columns_at(src@, pos as int, lead) == Err::<(Seq<ColumnDefView>, int), Miss>(
                m,
            ),
        },
{
    let mut columns: Vec<ColumnDef> = Vec::new();
    let mut at: usize = pos;
    let mut expected = lead;
    assert(column_views(columns@) =~= Seq::empty());
    assert(columns_behind(Seq::empty(), columns_at(src@, pos as int, lead)) == columns_at(
        src@,
        pos as int,
        lead,
    )) by {
        match columns_at(src@, pos as int, lead) {
            Ok((rest, end)) => {
                assert(Seq::<ColumnDefView>::empty() + rest =~= rest);
            },
            Err(_) => {},
        }
    }
    loop
        invariant
            src@.wf(),
            pos <= at <= src@.tokens.len(),
            columns_at(src@, pos as int, lead) == columns_behind(
                column_views(columns@),
                columns_at(src@, at as int, expected),
            ),
        decreases src@.tokens.len() - at,
    {
        let ghost front = column_views(columns@);
        let (column, end, tail) = match read_column(src, at, expected) {
            Ok(read) => read,
            Err(m) => {
                return Err(m);
            },
        };
        let ghost first = column@;
        columns.push(column);
        assert(column_views(columns@) =~= front + seq![first]);
        if src.is_kind(end, TokenKind::RightBrace) {
            return Ok((columns, end + 1));
        } else if src.is_kind(end, TokenKind::Comma) {
            if src.is_kind(end + 1, TokenKind::RightBrace) {
                return Ok((columns, end + 2));
            }
            proof {
                match columns_at(src@, end + 1, Expected::IdentifierOrRightBrace) {
                    Ok((rest, _)) => {
                        assert(front + (seq![first] + rest) =~= (front + seq![first]) + rest);
                    },
                    Err(_) => {},
                }
            }
            at = end + 1;
            expected = Expected::IdentifierOrRightBrace;
        } else {
            return Err(missed(end, tail));
        }
    }
}

fn read_table_ref(src: &Source, pos: usize, lead: Expected) -> (r: Result<
    (TableRef, usize, Expected),
    Miss,
>)
    requires
        src@.wf(),
    ensures
        match r {
            Ok((table_ref, end, tail)) => table_ref_at(src@, pos as int, lead) == Ok::<
                (TableRefView, int, Expected),
                Miss,
            >((table_ref@, end as int, tail)) && pos < end <= src@.tokens.len(),
            Err(m) => table_ref_at(src@, pos as int, lead) == Err::<
                (TableRefView, int, Expected),
                Miss,
            >(m),
        },
{
    if !src.is_identifier(pos) {
        return Err(missed(pos, lead));
    }
    let dotted = src.is_kind(pos + 1, TokenKind::Dot);
    if dotted && !src.is_identifier(pos + 2) {
        return Err(missed(pos + 2, Expected::Identifier));
    }
    let p2 = if dotted {
        pos + 3
    } else {
        pos + 1
    };
    let labelled = src.is_kind(p2, TokenKind::Quoted);
    let table_name = if dotted {
        src.text(pos + 2)
    } else {
        src.text(pos)
    };
    let schema_name = if dotted {
        Some(src.text(pos))
    } else {
        None
    };
    let alias = if labelled {
        Some(src.quoted(p2))
    } else {
        None
    };
    let end = if labelled {
        p2 + 1
    } else {
        p2
    };
    let tail = if labelled {
        Expected::LeftBrace
    } else if dotted {
        Expected::AliasOrLeftBrace
    } else {
        Expected::DotAliasOrLeftBrace
    };
    Ok((TableRef { table_name, schema_name, alias }, end, tail))
}

fn read_table(src: &Source) -> (r: Result<(TableDef, usize), Miss>)
    requires
        src@.wf(),
    ensures
        match r {
            Ok((table, end)) => table_at(src@) == Ok::<(TableDefView, int), Miss>(
                (table@, end as int),
            ) && end <= src@.tokens.len(),
            Err(m) => table_at(src@) == Err::<(TableDefView, int), Miss>(m),
        },
{
    if !src.is_keyword(0, "create") {
        return Err(missed(0, Expected::Create));
    }
    if !src.is_keyword(1, "table") {
        return Err(missed(1, Expected::Table));
    }
    let guarded = src.is_keyword(2, "if");
    if guarded && !src.is_keyword(3, "not") {
        return Err(missed(3, Expected::Not));
    }
    if guarded && !src.is_keyword(4, "exists") {
        return Err(missed(4, Expected::Exists));
    }
    let (p, lead) = if guarded {
        (5usize, Expected::Identifier)
    } else {
        (2usize, Expected::IfOrIdentifier)
    };
    let (table_ref, p3, tail) = match read_table_ref(src, p, lead) {
        Ok(read) => read,
        Err(m) => {
            return Err(m);
        },
    };
    if !src.is_kind(p3, TokenKind::LeftBrace) {
        return Err(missed(p3, tail));
    }
    let (columns, p4) = match read_columns(src, p3 + 1, Expected::Identifier) {
        Ok(read) => read,
        Err(m) => {
            return Err(m);
        },
    };
    if !src.is_kind(p4, TokenKind::Semicolon) {
        return Err(missed(p4, Expected::Semicolon));
    }
    Ok((TableDef { table_ref, columns }, p4 + 1))
}

/// Reads the table that `src` declares, as it is written.
pub fn read_create_table(src: &Source) -> (r: Result<TableDef, Failure>)
    requires
        src@.wf(),
    ensures
        match r {
            Ok(table) => table_in(src@) == Ok::<TableDefView, Failure>(table@),
            Err(failure) => table_in(src@) == Err::<TableDefView, Failure>(failure),
        },
{
    match read_table(src) {
        Err(m) => Err(src.fail(m)),
        Ok((table, end)) => match src.finish(end) {
            Some(failure) => Err(failure),
            None => Ok(table),
        },
    }
}

/// Reads the table that `text` declares, as it is written: its rules are
/// neither checked nor merged.
pub fn parse_create_table(text: &str) -> (r: Result<TableDef, Failure>)
    ensures
        match r {
            Ok(table) => table_of(text@) == Ok::<TableDefView, Failure>(table@),
            Err(failure) => table_of(text@) == Err::<TableDefView, Failure>(failure),
        },
{
    let src = Source::new(text);
    read_create_table(&src)
}

/// Reads the column that `text` declares.
pub fn parse_column_def(text: &str) -> (r: Result<ColumnDef, Failure>)
    ensures
        match r {
            Ok(column) => column_of(text@) == Ok::<ColumnDefView, Failure>(column@),
            Err(failure) => column_of(text@) == Err::<ColumnDefView, Failure>(failure),
        },
{
    let src = Source::new(text);
    match read_column(&src, 0, Expected::Identifier) {
        Err(m) => Err(src.fail(m)),
        Ok((column, end, _)) => match src.finish(end) {
            Some(failure) => Err(failure),
            None => Ok(column),
        },
    }
}

} // verus!
