//! The emitter of check records: for each column one record, and in it one
//! record for each group of rules, with one check call for each rule.
//!
//! The records are what a template is filled with.
use crate::compiler::pydeequ::pydeequ_rule::{can_compile, check_text, compile_column_rule, lowerable};
use crate::model::column_rule::{rule_views, ColumnRuleView};
use crate::model::rule_filter::filter::{filter_views, ColumnRuleFilter, ColumnRuleFilterView};
use crate::model::table_expr::{column_views, ColumnDef, ColumnDefView, TableDef, TableDefView};
use crate::text::{append_str, lowercase_text, string_views, to_lowercase};
use vstd::prelude::*;

pub mod pydeequ_rule;

verus! {

/// What a `ColumnLevelFilter` holds, as plain values.
pub struct ColumnLevelFilterView {
    pub has_filter: bool,
    pub checks: Seq<Seq<char>>,
    pub filter: Seq<char>,
    pub description: Seq<char>,
}

/// The checks of one group of rules.
#[derive(Debug, PartialEq)]
pub struct ColumnLevelFilter {
    /// Whether the group stands under a gating condition.
    pub has_filter: bool,
    /// One check call for each rule.
    pub checks: Vec<String>,
    /// The gating condition as it was written, or the empty text.
    pub filter: String,
    pub description: String,
}

impl View for ColumnLevelFilter {
    type V = ColumnLevelFilterView;

    open spec fn view(&self) -> ColumnLevelFilterView {
        ColumnLevelFilterView {
            has_filter: self.has_filter,
            checks: string_views(self.checks@),
            filter: self.filter@,
            description: self.description@,
        }
    }
}

/// Whether there is a check call for every rule of the group.
pub open spec fn group_lowerable(group: ColumnRuleFilterView) -> bool {
    forall|i: int| 0 <= i < group.rules.len() ==> lowerable(#[trigger] group.rules[i])
}

/// Whether there is a check call for every rule of the column.
pub open spec fn column_lowerable(column: ColumnDefView) -> bool {
    forall|i: int| 0 <= i < column.rules.len() ==> group_lowerable(#[trigger] column.rules[i])
}

/// Whether there is a check call for every rule of the columns.
pub open spec fn columns_lowerable(columns: Seq<ColumnDefView>) -> bool {
    forall|i: int| 0 <= i < columns.len() ==> column_lowerable(#[trigger] columns[i])
}

/// The check calls of the rules `rules`.
pub open spec fn checks_of(rules: Seq<ColumnRuleView>, table_name: Seq<char>, column_name: Seq<char>) -> Seq<
    Seq<char>,
> {
    Seq::new(rules.len(), |i: int| check_text(rules[i], table_name, column_name))
}

/// The gating condition of a group as it was written, or the empty text.
pub open spec fn filter_text(group: ColumnRuleFilterView) -> Seq<char> {
    match group.filter_string {
        Some(text) => text,
        None => Seq::empty(),
    }
}

/// The record of the group `group` of the column `column` of `table`.
pub open spec fn filter_record(
    group: ColumnRuleFilterView,
    column: ColumnDefView,
    table: TableDefView,
) -> ColumnLevelFilterView {
    ColumnLevelFilterView {
        has_filter: filter_text(group).len() > 0,
        checks: checks_of(group.rules, table.table_ref.qualified(), column.name),
        filter: filter_text(group),
        description: "Autogenerated check for column level rules for table "@
            + table.table_ref.qualified() + " and column "@ + column.name + " with filter "@
            + filter_text(group),
    }
}

impl ColumnLevelFilter {
    /// The record of a group of rules of `column`. There must be a check
    /// call for every rule of the group.
    pub fn new(filter_rules: ColumnRuleFilter, column: &ColumnDef, table: &TableDef) -> (r: Self)
        requires
            group_lowerable(filter_rules@),
        ensures
            r@ == filter_record(filter_rules@, column@, table@),
    {
        let table_name = table.table_ref.to_string();
        let ghost rules = rule_views(filter_rules.rules@);
        let mut checks: Vec<String> = Vec::new();
        let mut i: usize = 0;
        while i < filter_rules.rules.len()
            invariant
                i <= filter_rules.rules.len(),
                rules == rule_views(filter_rules.rules@),
                group_lowerable(filter_rules@),
                table_name@ == table@.table_ref.qualified(),
                checks.len() == i,
                forall|k: int|
                    0 <= k < i ==> (#[trigger] checks@[k])@ == check_text(
                        rules[k],
                        table_name@,
                        column.name@,
                    ),
            decreases filter_rules.rules.len() - i,
        {
            assert(rules[i as int] == filter_rules.rules@[i as int]@);
            assert(lowerable(filter_rules@.rules[i as int]));
            let rule_copy = filter_rules.rules[i].clone();
            let check = compile_column_rule(rule_copy, table_name.clone(), column.name.clone());
            checks.push(check);
            i += 1;
        }
        assert(string_views(checks@) =~= checks_of(rules, table_name@, column.name@));
        let filter = match filter_rules.filter_string {
            Some(text) => text,
            None => String::new(),
        };
        let mut description = "Autogenerated check for column level rules for table ".to_owned();
        append_str(&mut description, table_name.as_str());
        append_str(&mut description, " and column ");
        append_str(&mut description, column.name.as_str());
        append_str(&mut description, " with filter ");
        append_str(&mut description, filter.as_str());
        Self { has_filter: !filter.as_str().is_empty(), checks, filter, description }
    }
}

/// What a `ColumnLevelCheck` holds, as plain values.
pub struct ColumnLevelCheckView {
    pub column_name: Seq<char>,
    pub description: Seq<char>,
    pub ext_column_name: Seq<char>,
    pub filter_checks: Seq<ColumnLevelFilterView>,
}

/// The checks of one column.
#[derive(Debug, PartialEq)]
pub struct ColumnLevelCheck {
    /// The name of the column in small letters.
    pub column_name: String,
    pub description: String,
    /// The name of the column behind the name of the table and a point.
    pub ext_column_name: String,
    /// One record for each group of rules.
    pub filter_checks: Vec<ColumnLevelFilter>,
}

/// The views of a list of group records.
pub open spec fn filter_record_views(records: Seq<ColumnLevelFilter>) -> Seq<ColumnLevelFilterView> {
    records.map_values(|r: ColumnLevelFilter| r@)
}

impl View for ColumnLevelCheck {
    type V = ColumnLevelCheckView;

    open spec fn view(&self) -> ColumnLevelCheckView {
        ColumnLevelCheckView {
            column_name: self.column_name@,
            description: self.description@,
            ext_column_name: self.ext_column_name@,
            filter_checks: filter_record_views(self.filter_checks@),
        }
    }
}

/// The records of the groups of `column`.
pub open spec fn filter_records(column: ColumnDefView, table: TableDefView) -> Seq<
    ColumnLevelFilterView,
> {
    Seq::new(column.rules.len(), |i: int| filter_record(column.rules[i], column, table))
}

/// The record of the column `column` of `table`, given the name of the
/// column in small letters.
pub open spec fn column_record_with(
    column: ColumnDefView,
    table: TableDefView,
    lowered: Seq<char>,
) -> ColumnLevelCheckView {
    ColumnLevelCheckView {
        column_name: lowered,
        description: "Autogenerated check for column level rules for table "@
            + table.table_ref.qualified() + " and column "@ + column.name,
        ext_column_name: table.table_ref.qualified() + "."@ + column.name,
        filter_checks: filter_records(column, table),
    }
}

/// The record of the column `column` of `table`.
pub open spec fn column_record(column: ColumnDefView, table: TableDefView) -> ColumnLevelCheckView {
    column_record_with(column, table, lowercase_text(column.name))
}

impl ColumnLevelCheck {
    /// The record of a column, given the name of the column in small
    /// letters. There must be a check call for every rule of the column.
    pub fn with_lowered_name(column: ColumnDef, table: &TableDef, lowered: String) -> (r: Self)
        requires
            column_lowerable(column@),
        ensures
            r@ == column_record_with(column@, table@, lowered@),
    {
        let table_name = table.table_ref.to_string();
        let ghost groups = filter_views(column.rules@);
        let mut filter_checks: Vec<ColumnLevelFilter> = Vec::new();
        let mut i: usize = 0;
        while i < column.rules.len()
            invariant
                i <= column.rules.len(),
                groups == filter_views(column.rules@),
                column_lowerable(column@),
                filter_checks.len() == i,
                forall|k: int|
                    0 <= k < i ==> (#[trigger] filter_checks@[k])@ == filter_record(
                        groups[k],
                        column@,
                        table@,
                    ),
            decreases column.rules.len() - i,
        {
            assert(groups[i as int] == column.rules@[i as int]@);
            assert(group_lowerable(column@.rules[i as int]));
            let record = ColumnLevelFilter::new(column.rules[i].clone(), &column, table);
            filter_checks.push(record);
            i += 1;
        }
        assert(filter_record_views(filter_checks@) =~= filter_records(column@, table@));
        let mut description = "Autogenerated check for column level rules for table ".to_owned();
        append_str(&mut description, table_name.as_str());
        append_str(&mut description, " and column ");
        append_str(&mut description, column.name.as_str());
        let mut ext_column_name = table_name.clone();
        append_str(&mut ext_column_name, ".");
        append_str(&mut ext_column_name, column.name.as_str());
        Self { description, column_name: lowered, filter_checks, ext_column_name }
    }

    /// The record of a column. There must be a check call for every rule
    /// of the column.
    pub fn new(column: ColumnDef, table: &TableDef) -> (r: Self)
        requires
            column_lowerable(column@),
        ensures
            r@ == column_record(column@, table@),
    {
        let lowered = to_lowercase(column.name.as_str());
        Self::with_lowered_name(column, table, lowered)
    }
}

/// The views of a list of column records.
pub open spec fn record_views(records: Seq<ColumnLevelCheck>) -> Seq<ColumnLevelCheckView> {
    records.map_values(|r: ColumnLevelCheck| r@)
}

/// The records of the columns that have a group of rules, in order.
pub open spec fn column_records(columns: Seq<ColumnDefView>, table: TableDefView) -> Seq<
    ColumnLevelCheckView,
>
    decreases columns.len(),
{
    if columns.len() == 0 {
        Seq::empty()
    } else if columns.last().rules.len() == 0 {
        column_records(columns.drop_last(), table)
    } else {
        column_records(columns.drop_last(), table).push(column_record(columns.last(), table))
    }
}

/// Whether there is a check call for every rule of the columns.
pub fn can_compile_columns(columns: &Vec<ColumnDef>) -> (r: bool)
    ensures
        r == columns_lowerable(column_views(columns@)),
{
    let mut i: usize = 0;
    while i < columns.len()
        invariant
            i <= columns.len(),
            forall|a: int| 0 <= a < i ==> column_lowerable(#[trigger] column_views(columns@)[a]),
        decreases columns.len() - i,
    {
        let column = &columns[i];
        assert(column_views(columns@)[i as int] == column@);
        let mut j: usize = 0;
        while j < column.rules.len()
            invariant
                j <= column.rules.len(),
                i < columns.len(),
                column_views(columns@)[i as int] == column@,
                forall|b: int| 0 <= b < j ==> group_lowerable(#[trigger] column@.rules[b]),
            decreases column.rules.len() - j,
        {
            let group = &column.rules[j];
            assert(column@.rules[j as int] == group@);
            let mut k: usize = 0;
            while k < group.rules.len()
                invariant
                    k <= group.rules.len(),
                    i < columns.len(),
                    j < column.rules.len(),
                    column_views(columns@)[i as int] == column@,
                    column@.rules[j as int] == group@,
                    forall|c: int| 0 <= c < k ==> lowerable(#[trigger] group@.rules[c]),
                decreases group.rules.len() - k,
            {
                assert(group@.rules[k as int] == group.rules@[k as int]@);
                if !can_compile(&group.rules[k]) {
                    assert(!group_lowerable(column@.rules[j as int]));
                    assert(!column_lowerable(column_views(columns@)[i as int]));
                    return false;
                }
                k += 1;
            }
            j += 1;
        }
        i += 1;
    }
    true
}

/// The records of the columns that have a group of rules. There must be a
/// check call for every rule.
pub fn compile_column_level_checks(columns: Vec<ColumnDef>, table: &TableDef) -> (r: Vec<
    ColumnLevelCheck,
>)
    requires
        columns_lowerable(column_views(columns@)),
    ensures
        record_views(r@) == column_records(column_views(columns@), table@),
{
    let ghost all = column_views(columns@);
    let mut column_level_checks: Vec<ColumnLevelCheck> = Vec::new();
    let mut i: usize = 0;
    assert(record_views(column_level_checks@) =~= Seq::empty());
    assert(all.take(0) =~= Seq::empty());
    while i < columns.len()
        invariant
            i <= columns.len(),
            all == column_views(columns@),
            columns_lowerable(all),
            record_views(column_level_checks@) == column_records(all.take(i as int), table@),
        decreases columns.len() - i,
    {
        proof {
            assert(all.take(i + 1).drop_last() == all.take(i as int));
            assert(all.take(i + 1).last() == columns@[i as int]@);
            assert(column_lowerable(all[i as int]));
        }
        if columns[i].rules.len() > 0 {
            let ghost before = record_views(column_level_checks@);
            let record = ColumnLevelCheck::new(columns[i].clone(), table);
            let ghost added = record@;
            column_level_checks.push(record);
            assert(record_views(column_level_checks@) =~= before.push(added));
        }
        i += 1;
    }
    assert(all.take(columns.len() as int) == all);
    column_level_checks
}

/// The records of the table, which a template is filled with. There must
/// be a check call for every rule.
pub fn compile(table: TableDef) -> (r: Vec<ColumnLevelCheck>)
    requires
        columns_lowerable(table@.columns),
    ensures
        record_views(r@) == column_records(table@.columns, table@),
{
    let columns = crate::model::table_expr::clone_columns(&table.columns);
    compile_column_level_checks(columns, &table)
}

} // verus!
