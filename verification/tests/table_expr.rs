use ddlx::model::column_rule::{ColumnRule, IsType, NonNull, Uniqueness};
use ddlx::model::data_class::{DataClass, SizeArity};
use ddlx::model::rule_filter::filter::ColumnRuleFilter;
use ddlx::model::table_expr::{ColumnDef, DataType, TableDef, TableRef};
use ddlx::parser::cursor::{Expected, Failure};

fn int3() -> DataType {
    DataType::new("Int", Some(3), None)
}

fn is_type_int3() -> ColumnRule {
    ColumnRule::IsType(IsType { name: "".to_owned(), data_type: int3(), ..Default::default() })
}

#[test]
fn test_col_def_init_not_null_and_primary_key() {
    let desired = ColumnDef {
        name: "Example".to_owned(),
        data_type: DataType::new("INT", Some(3), None),
        not_null: true,
        primary_key: true,
        rules: vec![ColumnRuleFilter::empty_fr_rules(vec![
            ColumnRule::NonNull(NonNull::new(None, None, None)),
            ColumnRule::Uniqueness(Uniqueness::new(None, None)),
            is_type_int3(),
        ])],
    };
    let col_def = ColumnDef::new("Example".to_owned(), desired.data_type.clone(), true, true);
    assert_eq!(desired, col_def);
}

#[test]
fn test_col_def_init_not_null() {
    let desired = ColumnDef {
        name: "Example".to_owned(),
        data_type: DataType::new("INT", Some(3), None),
        not_null: true,
        primary_key: false,
        rules: vec![ColumnRuleFilter::empty_fr_rules(vec![
            ColumnRule::NonNull(NonNull::new(None, None, None)),
            is_type_int3(),
        ])],
    };
    let col_def = ColumnDef::new("Example".to_owned(), desired.data_type.clone(), true, false);
    assert_eq!(desired, col_def);
}

#[test]
fn test_col_def_init_plain() {
    let desired = ColumnDef {
        name: "Example".to_owned(),
        data_type: DataType::new("INT", Some(3), None),
        not_null: false,
        primary_key: false,
        rules: vec![ColumnRuleFilter::empty_fr_rules(vec![is_type_int3()])],
    };
    let col_def = ColumnDef::new("Example".to_owned(), desired.data_type.clone(), false, false);
    assert_eq!(desired, col_def);
}

#[test]
fn default_rules_of_a_key_column() {
    let column = ColumnDef::new("Id".to_owned(), int3(), true, true);
    assert_eq!(column.rules.len(), 1);
    assert_eq!(column.rules[0].filter_string, None);
    assert!(column.rules[0].filter_condition.is_none());
    assert_eq!(
        column.rules[0].rules,
        vec![
            ColumnRule::NonNull(NonNull::default()),
            ColumnRule::Uniqueness(Uniqueness::default()),
            ColumnRule::IsType(IsType::new(
                None,
                DataType { class: DataClass::Int, size: Some([Some(3), None]) },
                None
            )),
        ]
    );
}

#[test]
fn a_date_column_has_no_type_rule() {
    let column = ColumnDef::new("d".to_owned(), DataType::new("DateTime", None, None), false, true);
    assert_eq!(column.rules[0].rules, vec![ColumnRule::Uniqueness(Uniqueness::default())]);
    assert!(!column.not_null);
    let bare = ColumnDef::new("d".to_owned(), DataType::new("year", None, None), false, false);
    assert_eq!(bare.rules.len(), 1);
    assert!(bare.rules[0].rules.is_empty());
}

#[test]
fn further_groups_stand_behind_the_implied_one() {
    let more = vec![
        ColumnRuleFilter::new(Some("a > 1".to_owned()), vec![]),
        ColumnRuleFilter::new(None, vec![ColumnRule::Uniqueness(Uniqueness::default())]),
    ];
    let column = ColumnDef::new_with_rules_and_filter("c".to_owned(), int3(), false, false, more);
    assert_eq!(column.rules.len(), 3);
    assert_eq!(column.rules[0], ColumnRuleFilter::empty_fr_rules(vec![is_type_int3()]));
    assert_eq!(column.rules[1].filter_string, Some("a > 1".to_owned()));
    assert_eq!(column.rules[2].rules, vec![ColumnRule::Uniqueness(Uniqueness::default())]);
    assert_eq!(column.clone(), column);
}

#[test]
fn data_type_new_reads_name_and_sizes() {
    assert_eq!(
        DataType::new("INT", Some(10), None),
        DataType { class: DataClass::Int, size: Some([Some(10), None]) }
    );
    assert_eq!(
        DataType::new("DOUBLE", Some(1), Some(2)),
        DataType { class: DataClass::Double, size: Some([Some(1), Some(2)]) }
    );
    assert_eq!(
        DataType::new("TinyText", None, None),
        DataType { class: DataClass::TinyText, size: None }
    );
    // a second size without a first is left out
    assert_eq!(
        DataType::new("bool", None, Some(4)),
        DataType { class: DataClass::Bool, size: None }
    );
    assert_eq!(DataType::write("x", Some(4294967295), Some(0)), "x (4294967295, 0)");
    assert_eq!(DataType::write("x", Some(12), None), "x (12)");
    assert_eq!(DataType::write("x", None, Some(12)), "x");
    assert_eq!(DataType::default(), DataType { class: DataClass::Unknown, size: None });
}

#[test]
fn data_type_parse_reports_failures() {
    assert_eq!(
        DataType::parse("varchar"),
        Err(Failure::UnexpectedEnd { expected: Expected::LeftParen })
    );
    assert_eq!(
        DataType::parse("nothing(3)"),
        Err(Failure::UnrecognizedToken { index: 0, expected: Expected::TypeName })
    );
    assert_eq!(
        DataType::parse("int(4294967296)"),
        Err(Failure::UnrecognizedToken { index: 2, expected: Expected::Size })
    );
    assert_eq!(
        DataType::parse("int(4294967295)"),
        Ok(DataType { class: DataClass::Int, size: Some([Some(4294967295), None]) })
    );
    assert_eq!(DataType::parse("int(3) %"), Err(Failure::InvalidToken { location: 7 }));
    assert_eq!(
        DataType::parse("Double Precision (3, 4)"),
        Ok(DataType { class: DataClass::DoublePrecision, size: Some([Some(3), Some(4)]) })
    );
}

#[test]
fn table_ref_is_written_with_its_schema() {
    assert_eq!(TableRef::new("Test", None, None).to_string(), "Test");
    assert_eq!(TableRef::new("Test", Some("Schema"), Some("label")).to_string(), "Schema.Test");
    let r = TableRef::new("Test", Some("Schema"), Some("label"));
    assert_eq!(r.table_name, "Test");
    assert_eq!(r.schema_name, Some("Schema".to_owned()));
    assert_eq!(r.alias, Some("label".to_owned()));
    assert_eq!(r.clone(), r);
    assert_eq!(TableRef::default(), TableRef::new("", None, None));
}

#[test]
fn table_ref_from_a_dotted_name() {
    assert_eq!(TableRef::from_str("a"), Ok(TableRef::new("a", None, None)));
    assert_eq!(TableRef::from_str("a.b"), Ok(TableRef::new("a", Some("b"), None)));
    assert_eq!(TableRef::from_str("a.b.c"), Ok(TableRef::new("a", Some("b"), None)));
    assert_eq!(TableRef::from_str("a."), Ok(TableRef::new("a", Some(""), None)));
    assert_eq!(TableRef::from_str(""), Ok(TableRef::new("", None, None)));
}

#[test]
fn families_of_the_classes() {
    assert!(DataClass::VarChar.is_string_like());
    assert!(DataClass::LongBlob.is_string_like());
    assert!(DataClass::String.is_string_like());
    assert!(!DataClass::Int.is_string_like());
    assert!(DataClass::Bit.is_boolean_like() && DataClass::Bool.is_boolean_like());
    assert!(!DataClass::Int.is_boolean_like());
    for class in [DataClass::Float, DataClass::Double, DataClass::Decimal, DataClass::Dec,
        DataClass::DoublePrecision]
    {
        assert!(class.is_fraction_like() && class.is_numeric_like());
    }
    assert!(DataClass::BigInt.is_numeric_like() && !DataClass::BigInt.is_fraction_like());
    for class in [DataClass::Date, DataClass::Time, DataClass::DateTime, DataClass::Timestamp,
        DataClass::Year]
    {
        assert!(class.is_date_like());
        assert!(!class.is_numeric_like() && !class.is_string_like() && !class.is_boolean_like());
    }
    assert!(!DataClass::Unknown.is_date_like() && !DataClass::Unknown.is_string_like());
    assert_eq!(DataClass::default(), DataClass::Unknown);
}

#[test]
fn names_and_arities_of_the_classes() {
    assert_eq!(DataClass::Int.to_string(), "Int");
    assert_eq!(DataClass::DoublePrecision.to_string(), "DoublePrecision");
    assert_eq!(DataClass::Unknown.to_string(), "Unknown");
    assert_eq!(DataClass::from_name("vArChAr"), Some(DataClass::VarChar));
    assert_eq!(DataClass::from_name("string"), None);
    assert_eq!(DataClass::from_name("unknown"), None);
    assert_eq!(DataClass::from_name(""), None);
    assert_eq!(DataClass::TinyBlob.size_arity(), Some(SizeArity::NoSize));
    assert_eq!(DataClass::Text.size_arity(), Some(SizeArity::OneSize));
    assert_eq!(DataClass::Decimal.size_arity(), Some(SizeArity::TwoSizes));
    assert_eq!(DataClass::Float.size_arity(), Some(SizeArity::BothSizes));
    assert_eq!(DataClass::Unknown.size_arity(), None);
    assert!(SizeArity::BothSizes.accepts(0) && SizeArity::BothSizes.accepts(2));
    assert!(!SizeArity::BothSizes.accepts(3));
    assert!(SizeArity::OneSize.accepts(1) && !SizeArity::OneSize.accepts(0));
    assert!(SizeArity::TwoSizes.accepts(2) && !SizeArity::TwoSizes.accepts(1));
    assert!(SizeArity::NoSize.accepts(0) && !SizeArity::NoSize.accepts(1));
}

#[test]
fn a_table_is_copied_whole() {
    let table = TableDef {
        table_ref: TableRef::new("t", None, None),
        columns: vec![ColumnDef::new("c".to_owned(), int3(), true, false), ColumnDef::default()],
    };
    assert_eq!(table.clone(), table);
    assert!(ColumnDef::default().rules.is_empty());
}
