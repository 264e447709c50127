use ddlx::compiler::dqdl::{compile, compile_column_rule, has_gated_rules};
use ddlx::compiler::{strip_carriage_returns, CompilationTarget};
use ddlx::model::column_rule::{
    ColumnRule, ContainsValue, IsType, LikePattern, NonNull, NotEmpty, RegexPattern, Uniqueness,
};
use ddlx::model::rule_filter::filter::ColumnRuleFilter;
use ddlx::model::table_expr::{ColumnDef, DataType, TableDef, TableRef};

fn line_of(rule: ColumnRule) -> String {
    compile_column_rule(rule, "Test".to_owned(), "Id".to_owned())
}

#[test]
fn compile_column_rule_test_uniqueness() {
    assert_eq!(line_of(ColumnRule::Uniqueness(Uniqueness::new(None, None))), "IsPrimaryKey \"Id\"");
}

#[test]
fn compile_column_rule_test_is_type() {
    let rule = ColumnRule::IsType(IsType::new(None, DataType::new("Int", Some(3), None), None));
    assert_eq!(line_of(rule), "ColumnDataType \"Id\" = \"Int\"");
}

#[test]
fn compile_column_rule_test_non_null() {
    assert_eq!(line_of(ColumnRule::NonNull(NonNull::new(None, None, None))), "IsComplete \"Id\"");
}

#[test]
fn compile_column_rule_test_not_empty() {
    assert_eq!(
        line_of(ColumnRule::NotEmpty(NotEmpty::new(None, None, None))),
        "ColumnLength \"Id\" > 0"
    );
}

#[test]
fn compile_column_rule_test_contains_value() {
    let rule = ColumnRule::ContainsValue(ContainsValue::new(None, "test".to_owned(), None, None));
    assert_eq!(line_of(rule), "CustomSql \"select count() from Test where Id like '%test%' \"");
}

#[test]
fn compile_column_rule_test_like_pattern() {
    let rule = ColumnRule::LikePattern(LikePattern::new(None, "test".to_owned(), None, None));
    assert_eq!(line_of(rule), "CustomSql \"select count() from Test where Id like 'test' \"");
}

#[test]
fn compile_column_rule_test_regex_pattern() {
    let rule = ColumnRule::RegexPattern(RegexPattern::new(None, "test".to_owned(), None, None));
    assert_eq!(line_of(rule), "CustomSql \"select count() from Test where Id like 'test' \"");
}

#[test]
fn compile_test_no_columns() {
    let table = TableDef { table_ref: TableRef::new("Test", None, None), columns: vec![] };
    assert_eq!(compile(table), "");
}

#[test]
fn compile_test_one_declared_column() {
    let table = TableDef {
        table_ref: TableRef::new("Test", None, None),
        columns: vec![ColumnDef::new(
            "Id".to_owned(),
            DataType::new("INT", Some(3), None),
            false,
            false,
        )],
    };
    assert_eq!(compile(table), "ColumnDataType \"Id\" = \"Int\",\n");
}

#[test]
fn compile_test_four_rules() {
    let table = TableDef {
        table_ref: TableRef::new("Test", None, None),
        columns: vec![ColumnDef {
            name: "Id".to_owned(),
            data_type: DataType::new("INT", Some(3), None),
            not_null: false,
            primary_key: false,
            rules: vec![ColumnRuleFilter::new(
                None,
                vec![
                    ColumnRule::Uniqueness(Uniqueness::new(None, None)),
                    ColumnRule::NonNull(NonNull::new(None, None, None)),
                    ColumnRule::NotEmpty(NotEmpty::new(None, None, None)),
                    ColumnRule::ContainsValue(ContainsValue::new(
                        None,
                        "test".to_owned(),
                        None,
                        None,
                    )),
                ],
            )],
        }],
    };
    assert_eq!(
        compile(table),
        "IsPrimaryKey \"Id\",\nIsComplete \"Id\",\nColumnLength \"Id\" > 0,\nCustomSql \"select count() from Test where Id like '%test%' \",\n"
    );
}

#[test]
fn compile_uses_the_schema_and_leaves_gating_out() {
    let table = TableDef {
        table_ref: TableRef::new("T", Some("S"), None),
        columns: vec![
            ColumnDef {
                name: "a".to_owned(),
                data_type: DataType::new("text", Some(3), None),
                not_null: false,
                primary_key: false,
                rules: vec![
                    ColumnRuleFilter::new(
                        Some("b > 1".to_owned()),
                        vec![ColumnRule::LikePattern(LikePattern::new(
                            None,
                            "x%".to_owned(),
                            None,
                            None,
                        ))],
                    ),
                    ColumnRuleFilter::new(None, vec![]),
                ],
            },
            ColumnDef::new("b".to_owned(), DataType::new("date", None, None), true, false),
        ],
    };
    assert!(has_gated_rules(&table));
    assert_eq!(
        compile(table),
        "CustomSql \"select count() from S.T where a like 'x%' \",\nIsComplete \"b\",\n"
    );
}

#[test]
fn a_table_without_gating_has_no_gated_rules() {
    let table = TableDef {
        table_ref: TableRef::new("T", None, None),
        columns: vec![ColumnDef::new(
            "b".to_owned(),
            DataType::new("date", None, None),
            true,
            false,
        )],
    };
    assert!(!has_gated_rules(&table));
}

#[test]
fn carriage_returns_are_taken_out() {
    assert_eq!(strip_carriage_returns("a\r\nb\r\r\n\rc"), "a\nb\nc");
    assert_eq!(strip_carriage_returns(""), "");
    assert_eq!(CompilationTarget::default(), CompilationTarget::Unset);
}
