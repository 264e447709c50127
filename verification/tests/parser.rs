use ddlx::model::column_rule::{
    ColumnRule, ContainsValue, IsType, LikePattern, NonNull, NotEmpty, RegexPattern, Uniqueness,
};
use ddlx::model::data_class::DataClass;
use ddlx::model::rule_ext_config::RuleExtConfig;
use ddlx::model::rule_filter::filter::ColumnRuleFilter;
use ddlx::model::table_expr::{ColumnDef, DataType, TableDef, TableRef};
use ddlx::model::threshold::Threshold;
use ddlx::parser::create_table::{parse_column_def, parse_create_table};
use ddlx::parser::cursor::{Expected, Failure};
use ddlx::parser::error_utils::DDLxParseError;
use ddlx::parser::{check_table, parse};

fn is_type(class: DataClass, size: u32) -> ColumnRule {
    ColumnRule::IsType(IsType {
        name: "".to_owned(),
        data_type: DataType { class, size: Some([Some(size), None]) },
        ..Default::default()
    })
}

fn typed(name: &str, type_word: &str, class: DataClass, size: u32) -> ColumnDef {
    ColumnDef {
        name: String::from(name),
        data_type: DataType::new(type_word, Some(size), None),
        rules: vec![ColumnRuleFilter::new(None, vec![is_type(class, size)])],
        ..Default::default()
    }
}

fn table_is(input: &str, table_ref: TableRef, cols: Vec<ColumnDef>) {
    let parsed = parse_create_table(input);
    assert!(parsed.is_ok(), "{:?}", parsed.as_ref().err());
    let table = parsed.unwrap();
    assert_eq!(table.table_ref.schema_name, table_ref.schema_name);
    assert_eq!(table.table_ref.table_name, table_ref.table_name);
    assert_eq!(table.table_ref.alias, table_ref.alias);
    assert_eq!(table.columns.len(), cols.len());
    for (i, column) in table.columns.iter().enumerate() {
        assert_eq!(column, &cols[i]);
    }
}

#[test]
fn test_create_table_success_two_columns_and_trailing_comma() {
    table_is(
        "CREATE TABLE IF NOT EXISTS Inventory {Id INT(10),Title VARCHAR(3),  };",
        TableRef::new("Inventory", None, None),
        vec![
            typed("Id", "INT", DataClass::Int, 10),
            typed("Title", "VARCHAR", DataClass::VarChar, 3),
        ],
    );
}

#[test]
fn test_create_table_success_line_feed_in_the_head() {
    table_is(
        "CREATE TABLE IF NOT EXISTS\n Test {Id FLOAT(10)};",
        TableRef::new("Test", None, None),
        vec![typed("Id", "FLOAT", DataClass::Float, 10)],
    );
}

#[test]
fn test_create_table_success_line_feeds_everywhere() {
    table_is(
        " CREATE TABLE IF NOT EXISTS\n Test \n{\nId FLOAT(2)\n,}\n;\n",
        TableRef::new("Test", None, None),
        vec![typed("Id", "FLOAT", DataClass::Float, 2)],
    );
}

#[test]
fn test_create_table_success_small_letters() {
    table_is(
        " create table if not exists\n Test \n{\nId FLOAT(3)\n,}\n;\n",
        TableRef::new("Test", None, None),
        vec![typed("Id", "FLOAT", DataClass::Float, 3)],
    );
}

#[test]
fn test_create_table_success_schema() {
    table_is(
        " create table if not exists\n Schema.Test \n{\nId FLOAT(1)\n,}\n;\n",
        TableRef::new("Test", Some("Schema"), None),
        vec![typed("Id", "FLOAT", DataClass::Float, 1)],
    );
}

#[test]
fn test_create_table_success_single_quoted_alias() {
    table_is(
        " create table if not exists\n Schema.Test \'jlk asdf19(**\' \n{\nId FLOAT(3)\n,}\n;\n",
        TableRef::new("Test", Some("Schema"), Some("jlk asdf19(**")),
        vec![typed("Id", "FLOAT", DataClass::Float, 3)],
    );
}

#[test]
fn test_create_table_success_double_quoted_alias() {
    table_is(
        " create table if not exists\n Schema.Test \"jlk asdf19(**\" \n{\nId FLOAT(9)\n,}\n;\n",
        TableRef::new("Test", Some("Schema"), Some("jlk asdf19(**")),
        vec![typed("Id", "FLOAT", DataClass::Float, 9)],
    );
}

#[test]
fn test_create_table_success_no_schema() {
    table_is(
        " create table if not exists\n Test \n{\nId FLOAT(2)\n,}\n;\n",
        TableRef::new("Test", None, None),
        vec![typed("Id", "FLOAT", DataClass::Float, 2)],
    );
}

#[test]
fn test_create_table_success_three_columns() {
    table_is(
        " CREATE TABLE IF NOT EXISTS\n Test33 \n{\nId FLOAT(2),\nPrice FLOAT(3),\nNotes TEXT(10)\n}\n;\n",
        TableRef::new("Test33", None, None),
        vec![
            typed("Id", "FLOAT", DataClass::Float, 2),
            typed("Price", "FLOAT", DataClass::Float, 3),
            typed("Notes", "TEXT", DataClass::Text, 10),
        ],
    );
}

#[test]
fn test_create_table_success_key_and_not_null() {
    table_is(
        " create table\n Test33 \n{\nId FLOAT(1) PRIMARY KEY,\nPrice FLOAT(2),\nNotes TEXT(10) not null\n}\n;\n",
        TableRef::new("Test33", None, None),
        vec![
            ColumnDef {
                name: String::from("Id"),
                data_type: DataType::new("FLOAT", Some(1), None),
                primary_key: true,
                not_null: true,
                rules: vec![ColumnRuleFilter::new(
                    None,
                    vec![
                        ColumnRule::NonNull(NonNull::new(None, None, None)),
                        ColumnRule::Uniqueness(Uniqueness::new(None, None)),
                        is_type(DataClass::Float, 1),
                    ],
                )],
            },
            typed("Price", "FLOAT", DataClass::Float, 2),
            ColumnDef {
                name: String::from("Notes"),
                data_type: DataType::new("TEXT", Some(10), None),
                not_null: true,
                rules: vec![ColumnRuleFilter::new(
                    None,
                    vec![
                        ColumnRule::NonNull(NonNull::new(None, None, None)),
                        is_type(DataClass::Text, 10),
                    ],
                )],
                ..Default::default()
            },
        ],
    );
}

#[test]
fn test_create_table_success_rule() {
    table_is(
        " create table if not exists\n Test \n{\nId FLOAT(100)\n { -LIKE \"%test%\" },}\n;\n",
        TableRef::new("Test", None, None),
        vec![ColumnDef {
            name: String::from("Id"),
            data_type: DataType::new("FLOAT", Some(100), None),
            rules: vec![
                ColumnRuleFilter::new(None, vec![is_type(DataClass::Float, 100)]),
                ColumnRuleFilter::new(
                    None,
                    vec![ColumnRule::LikePattern(LikePattern {
                        name: String::new(),
                        rule_ext_config: RuleExtConfig::new_empty(),
                        pattern: "%test%".to_owned(),
                        ..Default::default()
                    })],
                ),
            ],
            ..Default::default()
        }],
    );
}

#[test]
fn test_create_table_failure_no_semicolon() {
    assert_eq!(
        parse_create_table("CREATE TABLE IF NOT EXISTS Inventory {Id INT,Title VARCHAR,  }"),
        Err(Failure::UnrecognizedToken { index: 9, expected: Expected::LeftParen })
    );
    assert_eq!(
        parse_create_table("CREATE TABLE IF NOT EXISTS Inventory {Id INT(1),Title VARCHAR(2),  }"),
        Err(Failure::UnexpectedEnd { expected: Expected::Semicolon })
    );
}

#[test]
fn test_create_table_failure_no_comma() {
    assert_eq!(
        parse_create_table("CREATE TABLE IF NOT EXISTS Inventory {Id INT(1) Title VARCHAR(2),  };"),
        Err(Failure::UnrecognizedToken { index: 12, expected: Expected::AfterType })
    );
}

#[test]
fn test_create_table_failure_no_table_name() {
    assert_eq!(
        parse_create_table("CREATE TABLE IF NOT EXISTS {Id INT(1),Title VARCHAR(2),  };"),
        Err(Failure::UnrecognizedToken { index: 5, expected: Expected::Identifier })
    );
}

#[test]
fn test_create_table_failure_dash_before_column() {
    assert_eq!(
        parse_create_table("CREATE TABLE IF NOT EXISTS Inventory {-Id INT(1),Title VARCHAR(2),  };"),
        Err(Failure::UnrecognizedToken { index: 7, expected: Expected::Identifier })
    );
}

#[test]
fn test_create_table_failure_quote_in_alias() {
    assert_eq!(
        parse_create_table(
            " create table if not exists\n Schema.Test \"jlk \'asdf19(**\" \n{\nId FLOAT\n,}\n;\n"
        ),
        Err(Failure::InvalidToken { location: 41 })
    );
}

fn column_is(input: &str, name: &str, data_type: DataType, not_null: bool, primary_key: bool) {
    let parsed = parse_column_def(input);
    assert!(parsed.is_ok(), "{:?}", parsed.as_ref().err());
    let column = parsed.unwrap();
    assert_eq!(column.data_type, data_type);
    assert_eq!(column.name, name);
    assert_eq!(column.not_null, not_null);
    assert_eq!(column.primary_key, primary_key);
}

#[test]
fn test_column_def_success_plain() {
    column_is("Id INT(10)", "Id", DataType::new("INT", Some(10), None), false, false);
    assert_eq!(
        parse_column_def("Id INT(10)").unwrap().data_type,
        DataType { class: DataClass::Int, size: Some([Some(10), None]) }
    );
}

#[test]
fn test_column_def_success_blanks() {
    column_is("Id  INT(5) ", "Id", DataType::new("INT", Some(5), None), false, false);
    column_is(" Id INT(3)", "Id", DataType::new("INT", Some(3), None), false, false);
    column_is(" Id33 INT(1)", "Id33", DataType::new("INT", Some(1), None), false, false);
}

#[test]
fn test_column_def_success_primary_key() {
    column_is(" Id33 INT(1) PRIMARY KEY", "Id33", DataType::new("INT", Some(1), None), true, true);
    column_is(
        " Id33 TinyText primaRY KeY",
        "Id33",
        DataType::new("TinyText", None, None),
        true,
        true,
    );
}

#[test]
fn test_column_def_success_not_null() {
    column_is(" Id33 TinyText NOT NULL", "Id33", DataType::new("TinyText", None, None), true, false);
    column_is(
        "_Id-3_3 TinyText NOT NULL",
        "_Id-3_3",
        DataType::new("TinyText", None, None),
        true,
        false,
    );
    column_is(
        " Id33 DOUBLE(1,2) not null",
        "Id33",
        DataType::new("DOUBLE", Some(1), Some(2)),
        true,
        false,
    );
    column_is(" Id33 TinyText not NuLL", "Id33", DataType::new("TinyText", None, None), true, false);
    column_is(
        " Id33 DOUBLE(30,2) not NuLL",
        "Id33",
        DataType::new("DOUBLE", Some(30), Some(2)),
        true,
        false,
    );
    column_is(
        " Id33 DOUBLE(30,5) not NuLL",
        "Id33",
        DataType { class: DataClass::Double, size: Some([Some(30), Some(5)]) },
        true,
        false,
    );
}

#[test]
fn a_key_may_be_declared_present_as_well() {
    column_is("k int(1) primary key not null", "k", DataType::new("int", Some(1), None), true, true);
    assert_eq!(
        parse_column_def("k int(1) not null primary key"),
        Err(Failure::UnrecognizedToken { index: 7, expected: Expected::End })
    );
}

#[test]
fn test_column_def_failure() {
    assert_eq!(parse_column_def("'22"), Err(Failure::InvalidToken { location: 0 }));
    assert_eq!(
        parse_column_def("'22''"),
        Err(Failure::UnrecognizedToken { index: 0, expected: Expected::Identifier })
    );
    assert_eq!(
        parse_column_def("3Id INT"),
        Err(Failure::UnrecognizedToken { index: 0, expected: Expected::Identifier })
    );
    assert_eq!(
        parse_column_def("Id, INT"),
        Err(Failure::UnrecognizedToken { index: 1, expected: Expected::TypeName })
    );
    assert!(parse_column_def("Id INT PRIMARY").is_err());
    assert!(parse_column_def("Id INT NOT").is_err());
    assert!(parse_column_def("Id TEXT NULL").is_err());
    assert_eq!(
        parse_column_def("Id tinytext PRIMARY"),
        Err(Failure::UnexpectedEnd { expected: Expected::Key })
    );
    assert_eq!(
        parse_column_def("Id tinytext NOT"),
        Err(Failure::UnexpectedEnd { expected: Expected::Null })
    );
    assert_eq!(
        parse_column_def("Id tinytext NULL"),
        Err(Failure::UnrecognizedToken { index: 2, expected: Expected::End })
    );
    assert_eq!(
        parse_column_def("ISBN VARCHAR(20) { -LIKE \"%test%\" "),
        Err(Failure::UnexpectedEnd { expected: Expected::ThresholdCommaOrRightBrace })
    );
    assert_eq!(
        parse_column_def("ISBN VARCHAR(20) { LIKE \"%test%\" }"),
        Err(Failure::UnrecognizedToken { index: 6, expected: Expected::Dash })
    );
    assert_eq!(
        parse_column_def("table VARCHAR(20)"),
        Err(Failure::UnrecognizedToken { index: 0, expected: Expected::Identifier })
    );
}

fn isbn(rule: ColumnRule) -> ColumnDef {
    ColumnDef {
        name: String::from("ISBN"),
        data_type: DataType::new("VARCHAR", Some(20), None),
        not_null: false,
        primary_key: false,
        rules: vec![
            ColumnRuleFilter::new(None, vec![is_type(DataClass::VarChar, 20)]),
            ColumnRuleFilter::new(None, vec![rule]),
        ],
    }
}

#[test]
fn test_column_with_rule_expr_success_regex() {
    let input = "ISBN VARCHAR(20) { -REGEX \"^(?=(?:\\D*\\d){10}(?:(?:\\D*\\d){3})?$)[\\d-]+$\" }";
    let desired = isbn(ColumnRule::RegexPattern(RegexPattern {
        name: String::new(),
        rule_ext_config: RuleExtConfig::new_empty(),
        pattern: "^(?=(?:\\D*\\d){10}(?:(?:\\D*\\d){3})?$)[\\d-]+$".to_owned(),
        ..Default::default()
    }));
    assert_eq!(parse_column_def(input), Ok(desired));
}

#[test]
fn test_column_with_rule_expr_success_like() {
    let desired = isbn(ColumnRule::LikePattern(LikePattern {
        pattern: "%test%".to_owned(),
        ..Default::default()
    }));
    assert_eq!(parse_column_def("ISBN VARCHAR(20) { -LIKE \"%test%\" }"), Ok(desired));
}

#[test]
fn test_column_with_rule_expr_success_contains() {
    let desired = isbn(ColumnRule::ContainsValue(ContainsValue {
        value: "test".to_owned(),
        ..Default::default()
    }));
    assert_eq!(parse_column_def("ISBN VARCHAR(20) { -CONTAINS \"test\" }"), Ok(desired));
}

#[test]
fn test_column_with_rule_expr_success_contains_with_threshold() {
    let desired = isbn(ColumnRule::ContainsValue(ContainsValue {
        threshold: Threshold::from_literal("0.01").unwrap(),
        value: "test".to_owned(),
        ..Default::default()
    }));
    assert_eq!(parse_column_def("ISBN VARCHAR(20) { -CONTAINS \"test\" 0.01 }"), Ok(desired));
}

#[test]
fn test_column_with_rule_expr_success_contains_with_threshold_one() {
    let desired = isbn(ColumnRule::ContainsValue(ContainsValue {
        value: "test".to_owned(),
        ..Default::default()
    }));
    assert_eq!(parse_column_def("ISBN VARCHAR(20) { -CONTAINS \"test\" 1. }"), Ok(desired));
}

#[test]
fn test_column_with_rule_expr_success_primary_key() {
    let desired = ColumnDef {
        name: String::from("ISBN"),
        data_type: DataType::new("VARCHAR", Some(20), None),
        not_null: true,
        primary_key: true,
        rules: vec![ColumnRuleFilter::new(
            None,
            vec![
                ColumnRule::NonNull(NonNull::new(None, None, None)),
                ColumnRule::Uniqueness(Uniqueness::new(None, None)),
                is_type(DataClass::VarChar, 20),
            ],
        )],
    };
    assert_eq!(parse_column_def("ISBN VARCHAR(20) PRIMARY KEY "), Ok(desired));
}

#[test]
fn test_column_with_rule_expr_success_unique() {
    let desired = isbn(ColumnRule::Uniqueness(Uniqueness::new(None, None)));
    assert_eq!(parse_column_def("ISBN VARCHAR(20) { -unique} "), Ok(desired));
}

#[test]
fn test_column_with_rule_expr_success_not_empty() {
    let desired = isbn(ColumnRule::NotEmpty(NotEmpty::new(None, None, None)));
    assert_eq!(parse_column_def("ISBN VARCHAR(20) { -not_empty} "), Ok(desired));
}

#[test]
fn every_rule_is_a_group_of_its_own() {
    let column = parse_column_def(
        "c text(9) { -like 'a%' 0.50, -Regex \"b\", -not_empty 0.9, -UNIQUE, -contains 'c', }",
    )
    .unwrap();
    assert_eq!(column.rules.len(), 6);
    let threshold = |s: &str| Threshold::from_literal(s);
    assert_eq!(
        column.rules[1].rules,
        vec![ColumnRule::LikePattern(LikePattern::new(None, "a%".to_owned(), None, threshold("0.5")))]
    );
    assert_eq!(
        column.rules[2].rules,
        vec![ColumnRule::RegexPattern(RegexPattern::new(None, "b".to_owned(), None, None))]
    );
    assert_eq!(
        column.rules[3].rules,
        vec![ColumnRule::NotEmpty(NotEmpty::new(None, None, threshold("0.9")))]
    );
    assert_eq!(column.rules[4].rules, vec![ColumnRule::Uniqueness(Uniqueness::default())]);
    assert_eq!(
        column.rules[5].rules,
        vec![ColumnRule::ContainsValue(ContainsValue::new(None, "c".to_owned(), None, None))]
    );
    for group in &column.rules {
        assert_eq!(group.filter_string, None);
        assert!(group.filter_condition.is_none());
    }
}

#[test]
fn what_is_no_rule() {
    let failure = |text: &str| parse_column_def(text).unwrap_err();
    assert_eq!(
        failure("c text(9) { }"),
        Failure::UnrecognizedToken { index: 6, expected: Expected::Dash }
    );
    assert_eq!(
        failure("c text(9) { -like }"),
        Failure::UnrecognizedToken { index: 8, expected: Expected::Pattern }
    );
    assert_eq!(
        failure("c text(9) { -matches 'a' }"),
        Failure::UnrecognizedToken { index: 7, expected: Expected::RuleName }
    );
    assert_eq!(
        failure("c text(9) { -unique 0.5 }"),
        Failure::UnrecognizedToken { index: 8, expected: Expected::CommaOrRightBrace }
    );
    assert_eq!(
        failure("c text(9) { -not_empty -0.5 }"),
        Failure::UnrecognizedToken { index: 8, expected: Expected::Threshold }
    );
    assert_eq!(
        failure("c text(9) { -not_empty 'a' }"),
        Failure::UnrecognizedToken { index: 8, expected: Expected::ThresholdCommaOrRightBrace }
    );
    assert_eq!(
        failure("c text(9) { -unique, , }"),
        Failure::UnrecognizedToken { index: 9, expected: Expected::DashOrRightBrace }
    );
}

#[test]
fn what_is_no_table() {
    let failure = |text: &str| parse_create_table(text).unwrap_err();
    assert_eq!(failure(""), Failure::UnexpectedEnd { expected: Expected::Create });
    assert_eq!(
        failure("make"),
        Failure::UnrecognizedToken { index: 0, expected: Expected::Create }
    );
    assert_eq!(failure("create"), Failure::UnexpectedEnd { expected: Expected::Table });
    assert_eq!(
        failure("create table {"),
        Failure::UnrecognizedToken { index: 2, expected: Expected::IfOrIdentifier }
    );
    assert_eq!(
        failure("create table if exists t"),
        Failure::UnrecognizedToken { index: 3, expected: Expected::Not }
    );
    assert_eq!(
        failure("create table if not t"),
        Failure::UnrecognizedToken { index: 4, expected: Expected::Exists }
    );
    assert_eq!(
        failure("create table t ;"),
        Failure::UnrecognizedToken { index: 3, expected: Expected::DotAliasOrLeftBrace }
    );
    assert_eq!(
        failure("create table s.t ;"),
        Failure::UnrecognizedToken { index: 5, expected: Expected::AliasOrLeftBrace }
    );
    assert_eq!(
        failure("create table s.t 'a' ;"),
        Failure::UnrecognizedToken { index: 6, expected: Expected::LeftBrace }
    );
    assert_eq!(
        failure("create table s. {"),
        Failure::UnrecognizedToken { index: 4, expected: Expected::Identifier }
    );
    assert_eq!(
        failure("create table t {}"),
        Failure::UnrecognizedToken { index: 4, expected: Expected::Identifier }
    );
    assert_eq!(
        failure("create table t {a bool, 7}"),
        Failure::UnrecognizedToken { index: 7, expected: Expected::IdentifierOrRightBrace }
    );
    assert_eq!(
        failure("create table t {a bool primary key;"),
        Failure::UnrecognizedToken { index: 8, expected: Expected::AfterPrimaryKey }
    );
    assert_eq!(
        failure("create table t {a bool not null;"),
        Failure::UnrecognizedToken { index: 8, expected: Expected::AfterNotNull }
    );
    assert_eq!(
        failure("create table t {a bool}; create"),
        Failure::UnrecognizedToken { index: 8, expected: Expected::End }
    );
    assert_eq!(failure("create table t {a bool}; %"), Failure::InvalidToken { location: 25 });
    assert_eq!(failure("create table t {a bool} %"), Failure::InvalidToken { location: 24 });
}

#[test]
fn test_parse() {
    let table = parse("CREATE TABLE test {id INT(3), name VARCHAR(255) {-not_empty}};");
    assert!(table.is_ok());
}

#[test]
fn test_parse_error() {
    assert!(parse("CREATE TABLE test {id INT(3)., name VARCHAR(255)};").is_err());
}

#[test]
fn parse_merges_the_groups_of_a_column() {
    let table = parse("CREATE TABLE test {id INT(3), name VARCHAR(255) {-not_empty, -like 'a%' 0.5}};")
        .unwrap();
    let desired = TableDef {
        table_ref: TableRef::new("test", None, None),
        columns: vec![
            ColumnDef {
                name: "id".to_owned(),
                data_type: DataType::new("int", Some(3), None),
                not_null: false,
                primary_key: false,
                rules: vec![ColumnRuleFilter::new(None, vec![is_type(DataClass::Int, 3)])],
            },
            ColumnDef {
                name: "name".to_owned(),
                data_type: DataType::new("varchar", Some(255), None),
                not_null: false,
                primary_key: false,
                rules: vec![ColumnRuleFilter::new(
                    None,
                    vec![
                        is_type(DataClass::VarChar, 255),
                        ColumnRule::NotEmpty(NotEmpty::default()),
                        ColumnRule::LikePattern(LikePattern::new(
                            None,
                            "a%".to_owned(),
                            None,
                            Threshold::from_literal("0.5"),
                        )),
                    ],
                )],
            },
        ],
    };
    assert_eq!(*table, desired);
}

#[test]
fn parse_rejects_a_rule_that_does_not_fit_its_column() {
    assert_eq!(
        parse("create table t { price float(3) { -regex \"[0-9]\" } };"),
        Err(DDLxParseError::ColumnValidationError(
            "InvalidType(\"Column price is not a string-like type for contains regex rule\")"
                .to_owned()
        ))
    );
    assert!(parse("create table t { price varchar(3) { -regex \"[0-9]\" } };").is_ok());
}

#[test]
fn parse_shows_the_place_of_a_syntax_error() {
    assert_eq!(
        parse("CREATE TABLE test {id INT(3)., name VARCHAR(255)};"),
        Err(DDLxParseError::SyntaxError(
            "SyntaxError in line 1: Unrecognized token \".\" expected [\"PRIMARY\", \"NOT\", \"{\", \",\", \"}\"]\n\t\tline 1: CREATE TABLE test {id INT(3)., name VARCHAR(255)};\n\t\t                                     ~"
                .to_owned()
        ))
    );
    assert_eq!(
        parse("create table test case{\n    Quantity INT(.3)\n};"),
        Err(DDLxParseError::SyntaxError(
            "SyntaxError in line 1: Unrecognized token \"case\" expected [\".\", \"string\", \"{\"]\n\t\tline 1: create table test case{\n\t\t                           ~~~~"
                .to_owned()
        ))
    );
    assert_eq!(
        parse("create table test {\n    Quantity INT(.3)\n};"),
        Err(DDLxParseError::SyntaxError(
            "SyntaxError in line 2: Unrecognized token \".\" expected [\"size\"]\n\t\tline 2:     Quantity INT(.3)\n\t\t                        ~"
                .to_owned()
        ))
    );
}

#[test]
fn parse_shows_the_place_of_an_invalid_character() {
    assert_eq!(
        parse("create table test {\n    Quantity INT(%)\n};"),
        Err(DDLxParseError::UnknownToken(
            "InvalidToken in line 2:     Quantity INT(%), \n                                       ~~"
                .to_owned()
        ))
    );
}

#[test]
fn parse_reports_an_early_end() {
    assert_eq!(
        parse("create table test {a bool}"),
        Err(DDLxParseError::SyntaxError(
            "SyntaxError: Unexpected end of input expected [\";\"]".to_owned()
        ))
    );
    assert_eq!(
        parse(""),
        Err(DDLxParseError::SyntaxError(
            "SyntaxError: Unexpected end of input expected [\"CREATE\"]".to_owned()
        ))
    );
}

#[test]
fn parse_clips_a_token_that_began_in_an_earlier_line() {
    let result = parse("create table 'a\nb' {a bool};");
    assert_eq!(
        result,
        Err(DDLxParseError::SyntaxError(
            "SyntaxError in line 2: Unrecognized token \"'a\\nb'\" expected [\"IF\", \"identifier\"]\n\t\tline 2: b' {a bool};\n\t\t         "
                .to_owned()
        ))
    );
}

#[test]
fn check_table_reads_conditions_and_merges_groups() {
    let like = |p: &str| ColumnRule::LikePattern(LikePattern::new(None, p.to_owned(), None, None));
    let table = TableDef {
        table_ref: TableRef::new("t", None, None),
        columns: vec![ColumnDef::new_with_rules_and_filter(
            "c".to_owned(),
            DataType::new("text", Some(3), None),
            false,
            false,
            vec![
                ColumnRuleFilter::new(Some("b > 1 && a = 2".to_owned()), vec![like("x")]),
                ColumnRuleFilter::new(Some("(a > 0)".to_owned()), vec![like("y")]),
                ColumnRuleFilter::new(Some("b > 1 && (a = 2)".to_owned()), vec![like("z")]),
            ],
        )],
    };
    let checked = check_table(table).unwrap();
    let groups = &checked.columns[0].rules;
    assert_eq!(groups.len(), 3);
    assert_eq!(groups[0].to_string(), "");
    assert_eq!(groups[1].to_string(), "( ( b > 1 ) AND ( a = 2 ) )");
    assert_eq!(groups[1].filter_string, Some("b > 1 && a = 2".to_owned()));
    assert_eq!(groups[1].rules, vec![like("x"), like("z")]);
    assert_eq!(groups[2].to_string(), "( a > 0 )");
    assert_eq!(groups[2].rules, vec![like("y")]);
}

#[test]
fn check_table_reports_the_first_error() {
    let like = ColumnRule::LikePattern(LikePattern::default());
    let table = TableDef {
        table_ref: TableRef::new("t", None, None),
        columns: vec![
            ColumnDef::new_with_rules_and_filter(
                "a".to_owned(),
                DataType::new("int", Some(3), None),
                false,
                false,
                vec![
                    ColumnRuleFilter::new(Some("x > ".to_owned()), vec![like.clone()]),
                    ColumnRuleFilter::new(None, vec![like.clone()]),
                ],
            ),
            ColumnDef::new_with_rules_and_filter(
                "b".to_owned(),
                DataType::new("int", Some(3), None),
                false,
                false,
                vec![ColumnRuleFilter::new(None, vec![like.clone()])],
            ),
        ],
    };
    assert_eq!(
        check_table(table),
        Err(DDLxParseError::InvalidFilterCondition(
            "Failed to parse filter string: x > ".to_owned()
        ))
    );
}

#[test]
fn parse_counts_bytes_before_the_place_of_an_error() {
    assert_eq!(
        parse("create table t '\u{e9}\u{e9}' ;"),
        Err(DDLxParseError::SyntaxError(
            "SyntaxError in line 1: Unrecognized token \";\" expected [\"{\"]\n\t\tline 1: create table t '\u{e9}\u{e9}' ;\n\t\t                               ~"
                .to_owned()
        ))
    );
    assert_eq!(
        parse("create table \u{e9}"),
        Err(DDLxParseError::UnknownToken(
            "InvalidToken in line 1: create table \u{e9}, \n                                     ~~"
                .to_owned()
        ))
    );
    assert_eq!(
        parse("create table t '\u{20ac}' \u{20ac}"),
        Err(DDLxParseError::UnknownToken(
            "InvalidToken in line 1: create table t '\u{20ac}' \u{20ac}, \n                                             ~~"
                .to_owned()
        ))
    );
}
