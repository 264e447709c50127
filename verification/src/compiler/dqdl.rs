//! The emitter of rule lines, one line for each rule.
//!
//! Gating conditions are not part of this target: a rule that stands under
//! one is emitted as if it stood under none. `has_gated_rules` tells whether
//! a table holds such rules.
use crate::model::column_rule::{rule_views, ColumnRule, ColumnRuleView};
use crate::model::rule_filter::filter::{filter_views, ColumnRuleFilterView};
use crate::model::table_expr::{column_views, ColumnDefView, TableDef, TableDefView};
use crate::text::append_str;
use vstd::prelude::*;

verus! {

/// The line that counts the rows in which the column is like `pattern`.
pub open spec fn like_line(table_name: Seq<char>, column_name: Seq<char>, pattern: Seq<char>) -> Seq<
    char,
> {
    "CustomSql \"select count() from "@ + table_name + " where "@ + column_name + " like '"@
        + pattern + "' \""@
}

/// The line of one rule on the column `column_name` of the table
/// `table_name`.
pub open spec fn rule_line(rule: ColumnRuleView, table_name: Seq<char>, column_name: Seq<char>) -> Seq<
    char,
> {
    match rule {
        ColumnRuleView::RegexPattern(r) => like_line(table_name, column_name, r.pattern),
        ColumnRuleView::LikePattern(r) => like_line(table_name, column_name, r.pattern),
        ColumnRuleView::ContainsValue(r) => "CustomSql \"select count() from "@ + table_name
            + " where "@ + column_name + " like '%"@ + r.value + "%' \""@,
        ColumnRuleView::Uniqueness(_) => "IsPrimaryKey \""@ + column_name + "\""@,
        ColumnRuleView::NotEmpty(_) => "ColumnLength \""@ + column_name + "\" > 0"@,
        ColumnRuleView::NonNull(_) => "IsComplete \""@ + column_name + "\""@,
        ColumnRuleView::IsType(r) => "ColumnDataType \""@ + column_name + "\" = \""@
            + r.data_type.class.name() + "\""@,
    }
}

/// The lines of the rules `rules`, each closed by a comma and a line feed.
pub open spec fn rules_text(
    rules: Seq<ColumnRuleView>,
    table_name: Seq<char>,
    column_name: Seq<char>,
) -> Seq<char>
    decreases rules.len(),
{
    if rules.len() == 0 {
        Seq::empty()
    } else {
        rules_text(rules.drop_last(), table_name, column_name) + rule_line(
            rules.last(),
            table_name,
            column_name,
        ) + ",\n"@
    }
}

/// The lines of the rules of the groups `groups`, in order.
pub open spec fn groups_text(
    groups: Seq<ColumnRuleFilterView>,
    table_name: Seq<char>,
    column_name: Seq<char>,
) -> Seq<char>
    decreases groups.len(),
{
    if groups.len() == 0 {
        Seq::empty()
    } else {
        groups_text(groups.drop_last(), table_name, column_name) + rules_text(
            groups.last().rules,
            table_name,
            column_name,
        )
    }
}

/// The lines of the rules of the columns `columns`, in order.
pub open spec fn columns_text(columns: Seq<ColumnDefView>, table_name: Seq<char>) -> Seq<char>
    decreases columns.len(),
{
    if columns.len() == 0 {
        Seq::empty()
    } else {
        columns_text(columns.drop_last(), table_name) + groups_text(
            columns.last().rules,
            table_name,
            columns.last().name,
        )
    }
}

/// The text of the table: one line for each rule, in the order of the
/// columns, of their groups, and of the rules in them.
pub open spec fn compiled(table: TableDefView) -> Seq<char> {
    columns_text(table.columns, table.table_ref.qualified())
}

/// Whether a group of the table names a gating condition.
pub open spec fn gated(table: TableDefView) -> bool {
    exists|i: int, j: int|
        0 <= i < table.columns.len() && 0 <= j < table.columns[i].rules.len() && (
        #[trigger] table.columns[i].rules[j]).filter_string.is_some()
}

fn like_string(table_name: &str, column_name: &str, pattern: &str) -> (s: String)
    ensures
        s@ == like_line(table_name@, column_name@, pattern@),
{
    let mut s = "CustomSql \"select count() from ".to_owned();
    append_str(&mut s, table_name);
    append_str(&mut s, " where ");
    append_str(&mut s, column_name);
    append_str(&mut s, " like '");
    append_str(&mut s, pattern);
    append_str(&mut s, "' \"");
    s
}

fn rule_string(rule: &ColumnRule, table_name: &str, column_name: &str) -> (s: String)
    ensures
        s@ == rule_line(rule@, table_name@, column_name@),
{
    match rule {
        ColumnRule::RegexPattern(r) => like_string(table_name, column_name, r.pattern.as_str()),
        ColumnRule::LikePattern(r) => like_string(table_name, column_name, r.pattern.as_str()),
        ColumnRule::ContainsValue(r) => {
            let mut s = "CustomSql \"select count() from ".to_owned();
            append_str(&mut s, table_name);
            append_str(&mut s, " where ");
            append_str(&mut s, column_name);
            append_str(&mut s, " like '%");
            append_str(&mut s, r.value.as_str());
            append_str(&mut s, "%' \"");
            s
        },
        ColumnRule::Uniqueness(_) => {
            let mut s = "IsPrimaryKey \"".to_owned();
            append_str(&mut s, column_name);
            append_str(&mut s, "\"");
            s
        },
        ColumnRule::NotEmpty(_) => {
            let mut s = "ColumnLength \"".to_owned();
            append_str(&mut s, column_name);
            append_str(&mut s, "\" > 0");
            s
        },
        ColumnRule::NonNull(_) => {
            let mut s = "IsComplete \"".to_owned();
            append_str(&mut s, column_name);
            append_str(&mut s, "\"");
            s
        },
        ColumnRule::IsType(r) => {
            let class_name = r.data_type.class.to_string();
            let mut s = "ColumnDataType \"".to_owned();
            append_str(&mut s, column_name);
            append_str(&mut s, "\" = \"");
            append_str(&mut s, class_name.as_str());
            append_str(&mut s, "\"");
            s
        },
    }
}

/// The line of one rule on the column `column_name` of the table
/// `table_name`.
pub fn compile_column_rule(column_rule: ColumnRule, table_name: String, column_name: String) -> (s:
    String)
    ensures
        s@ == rule_line(column_rule@, table_name@, column_name@),
{
    rule_string(&column_rule, table_name.as_str(), column_name.as_str())
}

/// The text of the table: one line for each rule, closed by a comma and a
/// line feed. Gating conditions are left out.
pub fn compile(table_def: TableDef) -> (s: String)
    ensures
        s@ == compiled(table_def@),
{
    let table_name = table_def.table_ref.to_string();
    let ghost columns = column_views(table_def.columns@);
    let mut compiled = String::new();
    let mut i: usize = 0;
    assert(columns.take(0) =~= Seq::empty());
    while i < table_def.columns.len()
        invariant
            i <= table_def.columns.len(),
            columns == column_views(table_def.columns@),
            table_name@ == table_def@.table_ref.qualified(),
            compiled@ == columns_text(columns.take(i as int), table_name@),
        decreases table_def.columns.len() - i,
    {
        let column_def = &table_def.columns[i];
        let ghost groups = filter_views(column_def.rules@);
        let ghost before_column = compiled@;
        proof {
            assert(columns.take(i + 1).drop_last() == columns.take(i as int));
            assert(columns.take(i + 1).last() == column_def@);
            assert(groups.take(0) =~= Seq::empty());
        }
        let mut j: usize = 0;
        while j < column_def.rules.len()
            invariant
                j <= column_def.rules.len(),
                groups == filter_views(column_def.rules@),
                compiled@ == before_column + groups_text(
                    groups.take(j as int),
                    table_name@,
                    column_def.name@,
                ),
            decreases column_def.rules.len() - j,
        {
            let filter = &column_def.rules[j];
            let ghost rules = rule_views(filter.rules@);
            let ghost before_group = compiled@;
            proof {
                assert(groups.take(j + 1).drop_last() == groups.take(j as int));
                assert(groups.take(j + 1).last() == filter@);
                assert(rules.take(0) =~= Seq::empty());
            }
            let mut k: usize = 0;
            while k < filter.rules.len()
                invariant
                    k <= filter.rules.len(),
                    rules == rule_views(filter.rules@),
                    compiled@ == before_group + rules_text(
                        rules.take(k as int),
                        table_name@,
                        column_def.name@,
                    ),
                decreases filter.rules.len() - k,
            {
                proof {
                    assert(rules.take(k + 1).drop_last() == rules.take(k as int));
                    assert(rules.take(k + 1).last() == filter.rules@[k as int]@);
                }
                let ghost so_far = rules_text(rules.take(k as int), table_name@, column_def.name@);
                let compiled_rule = rule_string(
                    &filter.rules[k],
                    table_name.as_str(),
                    column_def.name.as_str(),
                );
                append_str(&mut compiled, compiled_rule.as_str());
                append_str(&mut compiled, ",\n");
                assert(compiled@ == before_group + (so_far + compiled_rule@ + ",\n"@));
                k += 1;
            }
            proof {
                assert(rules.take(filter.rules.len() as int) == rules);
                let head = groups_text(groups.take(j as int), table_name@, column_def.name@);
                let tail = rules_text(rules, table_name@, column_def.name@);
                assert(compiled@ == before_column + (head + tail));
            }
            j += 1;
        }
        proof {
            assert(groups.take(column_def.rules.len() as int) == groups);
        }
        i += 1;
    }
    assert(columns.take(table_def.columns.len() as int) == columns);
    compiled
}

/// Whether a group of the table names a gating condition, which this
/// target leaves out.
pub fn has_gated_rules(table_def: &TableDef) -> (r: bool)
    ensures
        r == gated(table_def@),
{
    let mut i: usize = 0;
    while i < table_def.columns.len()
        invariant
            i <= table_def.columns.len(),
            forall|a: int, b: int|
                0 <= a < i && 0 <= b < table_def@.columns[a].rules.len() ==> (
                #[trigger] table_def@.columns[a].rules[b]).filter_string.is_none(),
        decreases table_def.columns.len() - i,
    {
        let column_def = &table_def.columns[i];
        assert(table_def@.columns[i as int] == column_def@);
        let mut j: usize = 0;
        while j < column_def.rules.len()
            invariant
                j <= column_def.rules.len(),
                i < table_def.columns.len(),
                table_def@.columns[i as int] == column_def@,
                forall|b: int|
                    0 <= b < j ==> (#[trigger] column_def@.rules[b]).filter_string.is_none(),
            decreases column_def.rules.len() - j,
        {
            assert(column_def@.rules[j as int] == column_def.rules@[j as int]@);
            if column_def.rules[j].filter_string.is_some() {
                assert(table_def@.columns[i as int].rules[j as int].filter_string.is_some());
                return true;
            }
            j += 1;
        }
        i += 1;
    }
    false
}

} // verus!
