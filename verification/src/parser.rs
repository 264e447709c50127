//! From source text to a validated table.
//!
//! The text is read by the table grammar; the gating condition of every
//! group of rules is read and every rule is held against the type of its
//! column; the groups of a column that stand under one condition are
//! merged.
use crate::model::rule_filter::combine_itentical_filters;
use crate::model::rule_filter::combined;
use crate::model::rule_filter::filter::{
    filter_views, group_verdict, ColumnRuleFilter, ColumnRuleFilterView,
};
use crate::model::rule_traits::ValidColumnRule;
use crate::model::table_expr::{column_views, ColumnDef, ColumnDefView, TableDef, TableDefView};
use crate::parser::create_table::{read_create_table, table_in};
use crate::parser::cursor::{Failure, Source, SourceView};
use crate::parser::error_utils::{
    expected_words, gen_syntax_error_message, gen_unexpected_end_message,
    gen_unknown_token_error_message, located, quoted_names, syntax_error_text,
    unexpected_end_text, unknown_token_text, words_of, DDLxParseError, DDLxParseErrorView,
};
use crate::parser::lines::{
    lemma_line_index_found, lemma_line_texts_span, line_index, line_texts, line_views, spans, Line,
    LineView,
};
use crate::text::{byte_len, byte_length, byte_offset, debug_text, lemma_byte_len_take};
use vstd::prelude::*;

pub mod create_table;
pub mod cursor;
pub mod data_class_parsing;
pub mod error_utils;
pub mod lexer;
pub mod lines;
pub mod rule_filter_expr;

verus! {

/// The longest source text that is read, in bytes. It keeps the positions
/// of the lines within 32 bits.
pub const MAX_SOURCE_LEN: usize = 1_000_000_000;

/// The message for a source text that is longer than `MAX_SOURCE_LEN`.
pub open spec fn too_long_text() -> Seq<char> {
    "SyntaxError: the source text is too long"@
}

/// The token's first position, or the start of the line in which the token
/// ends where the token began in a line before.
pub open spec fn clipped_start(start: int, line: LineView) -> int {
    if start < line.start {
        line.start as int
    } else {
        start
    }
}

/// The position of the character with the index `k` of the text: the
/// number of bytes before it.
pub open spec fn byte_at(text: Seq<char>, k: int) -> int {
    byte_len(text.take(k)) as int
}

/// The error that stands for the failure `failure` of the grammar on the
/// text of `src`, with its message. The message shows the line in which
/// the offending character stands or the offending token ends.
pub open spec fn syntax_error(src: SourceView, failure: Failure) -> DDLxParseErrorView {
    let lines = spans(line_texts(src.chars, 0));
    match failure {
        Failure::InvalidToken { location } => {
            let at = byte_at(src.chars, location as int);
            DDLxParseErrorView::UnknownToken(
                unknown_token_text(at, line_index(lines, at as u32, 0), located(at, lines)),
            )
        },
        Failure::UnrecognizedToken { index, expected } => {
            let token = src.tokens[index as int];
            let start = byte_at(src.chars, token.start as int);
            let end = byte_at(src.chars, token.end as int);
            DDLxParseErrorView::SyntaxError(
                syntax_error_text(
                    clipped_start(start, located(end, lines)),
                    end,
                    line_index(lines, end as u32, 0),
                    located(end, lines),
                    debug_text(src.text_at(index as int)),
                    quoted_names(expected_words(expected)),
                ),
            )
        },
        Failure::UnexpectedEnd { expected } => DDLxParseErrorView::SyntaxError(
            unexpected_end_text(quoted_names(expected_words(expected))),
        ),
    }
}

/// The groups with their gating conditions read and their rules held
/// against `column`, or the first error in the order of the groups; in a
/// group, an unreadable condition comes before a rule that does not fit.
pub open spec fn checked_groups(groups: Seq<ColumnRuleFilterView>, column: ColumnDefView) -> Result<
    Seq<ColumnRuleFilterView>,
    DDLxParseErrorView,
>
    decreases groups.len(),
{
    if groups.len() == 0 {
        Ok(Seq::empty())
    } else {
        match checked_groups(groups.drop_last(), column) {
            Err(e) => Err(e),
            Ok(front) => match groups.last().parsed() {
                Err(e) => Err(e),
                Ok(group) => match group_verdict(group.rules, column) {
                    Err(e) => Err(DDLxParseErrorView::ColumnValidationError(e.printed())),
                    Ok(_) => Ok(front.push(group)),
                },
            },
        }
    }
}

/// The column with its groups checked and those under one condition
/// merged.
pub open spec fn checked_column(column: ColumnDefView) -> Result<ColumnDefView, DDLxParseErrorView> {
    match checked_groups(column.rules, column) {
        Err(e) => Err(e),
        Ok(groups) => Ok(
            ColumnDefView {
                name: column.name,
                data_type: column.data_type,
                not_null: column.not_null,
                primary_key: column.primary_key,
                rules: combined(groups),
            },
        ),
    }
}

/// The columns checked, or the first error in the order of the columns.
pub open spec fn checked_columns(columns: Seq<ColumnDefView>) -> Result<
    Seq<ColumnDefView>,
    DDLxParseErrorView,
>
    decreases columns.len(),
{
    if columns.len() == 0 {
        Ok(Seq::empty())
    } else {
        match checked_columns(columns.drop_last()) {
            Err(e) => Err(e),
            Ok(front) => match checked_column(columns.last()) {
                Err(e) => Err(e),
                Ok(column) => Ok(front.push(column)),
            },
        }
    }
}

/// The table as it was read, with its columns checked.
pub open spec fn checked_table(table: TableDefView) -> Result<TableDefView, DDLxParseErrorView> {
    match checked_columns(table.columns) {
        Err(e) => Err(e),
        Ok(columns) => Ok(TableDefView { table_ref: table.table_ref, columns }),
    }
}

/// What compiling the front half of `text` gives: the validated table, or
/// the error. A text that is too long is an error; a text that is not of
/// the table grammar is an error that shows the place; then the columns
/// are checked.
pub open spec fn parse_result(text: Seq<char>) -> Result<TableDefView, DDLxParseErrorView> {
    if byte_len(text) > MAX_SOURCE_LEN {
        Err(DDLxParseErrorView::SyntaxError(too_long_text()))
    } else {
        match table_in(SourceView::of(text)) {
            Err(failure) => Err(syntax_error(SourceView::of(text), failure)),
            Ok(table) => checked_table(table),
        }
    }
}

/// The error with its message for a failure of the grammar on the text
/// `text`, which `src` holds with its tokens.
pub fn report(text: &str, src: &Source, failure: Failure) -> (e: DDLxParseError)
    requires
        src@ == SourceView::of(text@),
        src@.wf(),
        byte_len(text@) <= MAX_SOURCE_LEN,
        failure matches Failure::InvalidToken { location } ==> location < text@.len(),
        failure matches Failure::UnrecognizedToken { index, .. } ==> index < src@.tokens.len(),
    ensures
        e@ == syntax_error(src@, failure),
{
    let ghost texts = line_texts(text@, 0);
    proof {
        lemma_line_texts_span(text@, 0);
        assert(text@.skip(0) == text@);
        assert(texts.take(texts.len() as int) == texts);
    }
    match failure {
        Failure::InvalidToken { location } => {
            let at = byte_offset(&src.chars, location);
            let lines = Line::from_string(text.to_owned());
            proof {
                lemma_byte_len_take(text@, 0, location as int);
                lemma_line_index_found(texts, at as int, 0);
                let idx = line_index(spans(texts), at as u32, 0);
                assert(spans(texts)[idx].start >= 0);
            }
            DDLxParseError::UnknownToken(gen_unknown_token_error_message(at, lines))
        },
        Failure::UnrecognizedToken { index, expected } => {
            let token = src.tokens[index];
            let first = byte_offset(&src.chars, token.start);
            let end = byte_offset(&src.chars, token.end);
            let lines = Line::from_string(text.to_owned());
            proof {
                lemma_byte_len_take(text@, token.start as int, token.end as int);
                lemma_line_index_found(texts, end as int, 0);
                assert(line_views(lines@).last() == lines@.last()@);
            }
            let line_number = Line::get_line(end as u32, &lines);
            assert(line_views(lines@)[line_number as int] == lines@[line_number as int]@);
            let line_start = lines[line_number].start as usize;
            let start = if first < line_start {
                line_start
            } else {
                first
            };
            let words = words_of(expected);
            DDLxParseError::SyntaxError(
                gen_syntax_error_message((start, src.text(index), end), lines, words),
            )
        },
        Failure::UnexpectedEnd { expected } => {
            let words = words_of(expected);
            DDLxParseError::SyntaxError(gen_unexpected_end_message(words))
        },
    }
}

/// Whether the computed result is `spec`.
pub open spec fn groups_match(
    r: Result<Vec<ColumnRuleFilter>, DDLxParseError>,
    spec: Result<Seq<ColumnRuleFilterView>, DDLxParseErrorView>,
) -> bool {
    match r {
        Ok(groups) => spec == Ok::<Seq<ColumnRuleFilterView>, DDLxParseErrorView>(
            filter_views(groups@),
        ),
        Err(e) => spec == Err::<Seq<ColumnRuleFilterView>, DDLxParseErrorView>(e@),
    }
}

/// Reads the gating conditions of the groups of `column` and holds their
/// rules against the column.
pub fn check_groups(column: &ColumnDef) -> (r: Result<Vec<ColumnRuleFilter>, DDLxParseError>)
    ensures
        groups_match(r, checked_groups(column@.rules, column@)),
{
    let ghost all = column@.rules;
    let mut parsed_filters: Vec<ColumnRuleFilter> = Vec::new();
    let mut i: usize = 0;
    assert(filter_views(parsed_filters@) =~= Seq::empty());
    assert(all.take(0) =~= Seq::empty());
    while i < column.rules.len()
        invariant
            i <= column.rules.len(),
            all == column@.rules,
            all == filter_views(column.rules@),
            checked_groups(all.take(i as int), column@) == Ok::<
                Seq<ColumnRuleFilterView>,
                DDLxParseErrorView,
            >(filter_views(parsed_filters@)),
        decreases column.rules.len() - i,
    {
        proof {
            assert(all.take(i + 1).drop_last() == all.take(i as int));
            assert(all.take(i + 1).last() == column.rules@[i as int]@);
        }
        let ghost before = filter_views(parsed_filters@);
        match column.rules[i].parse() {
            Err(e) => {
                proof {
                    lemma_checked_groups_error(all, column@, i + 1);
                }
                return Err(e);
            },
            Ok(group) => {
                match group.validate_col_type(column) {
                    Err(e) => {
                        proof {
                            lemma_checked_groups_error(all, column@, i + 1);
                        }
                        return Err(DDLxParseError::ColumnValidationError(e.to_debug_string()));
                    },
                    Ok(_) => {},
                }
                let ghost added = group@;
                parsed_filters.push(group);
                assert(filter_views(parsed_filters@) =~= before.push(added));
            },
        }
        i += 1;
    }
    assert(all.take(column.rules.len() as int) == all);
    Ok(parsed_filters)
}

/// An error among the first `k` groups is the error of all groups.
pub proof fn lemma_checked_groups_error(
    groups: Seq<ColumnRuleFilterView>,
    column: ColumnDefView,
    k: int,
)
    requires
        0 <= k <= groups.len(),
        checked_groups(groups.take(k), column) is Err,
    ensures
        checked_groups(groups, column) == checked_groups(groups.take(k), column),
    decreases groups.len() - k,
{
    if k < groups.len() {
        assert(groups.take(k + 1).drop_last() == groups.take(k));
        lemma_checked_groups_error(groups, column, k + 1);
    } else {
        assert(groups.take(k) == groups);
    }
}

/// An error among the first `k` columns is the error of all columns.
pub proof fn lemma_checked_columns_error(columns: Seq<ColumnDefView>, k: int)
    requires
        0 <= k <= columns.len(),
        checked_columns(columns.take(k)) is Err,
    ensures
        checked_columns(columns) == checked_columns(columns.take(k)),
    decreases columns.len() - k,
{
    if k < columns.len() {
        assert(columns.take(k + 1).drop_last() == columns.take(k));
        lemma_checked_columns_error(columns, k + 1);
    } else {
        assert(columns.take(k) == columns);
    }
}

/// Checks the columns of a table as it was read, and merges the groups of
/// each column that stand under one gating condition.
pub fn check_table(table: TableDef) -> (r: Result<TableDef, DDLxParseError>)
    ensures
        match r {
            Ok(checked) => checked_table(table@) == Ok::<TableDefView, DDLxParseErrorView>(
                checked@,
            ),
            Err(e) => checked_table(table@) == Err::<TableDefView, DDLxParseErrorView>(e@),
        },
{
    let ghost all = column_views(table.columns@);
    let mut columns: Vec<ColumnDef> = Vec::new();
    let mut i: usize = 0;
    assert(column_views(columns@) =~= Seq::empty());
    assert(all.take(0) =~= Seq::empty());
    while i < table.columns.len()
        invariant
            i <= table.columns.len(),
            all == column_views(table.columns@),
            checked_columns(all.take(i as int)) == Ok::<Seq<ColumnDefView>, DDLxParseErrorView>(
                column_views(columns@),
            ),
        decreases table.columns.len() - i,
    {
        let column = &table.columns[i];
        proof {
            assert(all.take(i + 1).drop_last() == all.take(i as int));
            assert(all.take(i + 1).last() == column@);
        }
        let parsed_filters = match check_groups(column) {
            Ok(groups) => groups,
            Err(e) => {
                proof {
                    lemma_checked_columns_error(all, i + 1);
                }
                return Err(e);
            },
        };
        let merged = combine_itentical_filters(parsed_filters);
        let ghost before = column_views(columns@);
        let checked = ColumnDef {
            name: column.name.clone(),
            data_type: column.data_type,
            primary_key: column.primary_key,
            not_null: column.not_null,
            rules: merged,
        };
        let ghost added = checked@;
        columns.push(checked);
        assert(column_views(columns@) =~= before.push(added));
        i += 1;
    }
    assert(all.take(table.columns.len() as int) == all);
    Ok(TableDef { table_ref: table.table_ref.clone(), columns })
}

/// Compiles the front half: reads the table that `input_string` declares,
/// checks its rules, and merges the groups of rules that stand under one
/// gating condition.
pub fn parse(input_string: &str) -> (r: Result<Box<TableDef>, DDLxParseError>)
    ensures
        match r {
            Ok(table) => parse_result(input_string@) == Ok::<TableDefView, DDLxParseErrorView>(
                table@,
            ),
            Err(e) => parse_result(input_string@) == Err::<TableDefView, DDLxParseErrorView>(e@),
        },
{
    if byte_length(input_string) > MAX_SOURCE_LEN {
        return Err(
            DDLxParseError::SyntaxError("SyntaxError: the source text is too long".to_owned()),
        );
    }
    let src = Source::new(input_string);
    match read_create_table(&src) {
        Err(failure) => {
            proof {
                lemma_failure_in_range(src@, failure);
            }
            Err(report(input_string, &src, failure))
        },
        Ok(table) => match check_table(table) {
            Ok(checked) => Ok(Box::new(checked)),
            Err(e) => Err(e),
        },
    }
}

/// A failure of the table grammar names a position of the text or a token
/// of it.
pub proof fn lemma_failure_in_range(src: SourceView, failure: Failure)
    requires
        src.wf(),
        table_in(src) == Err::<TableDefView, Failure>(failure),
    ensures
        failure matches Failure::InvalidToken { location } ==> location < src.chars.len(),
        failure matches Failure::UnrecognizedToken { index, .. } ==> index < src.tokens.len(),
{
}

} // verus!
