use ddlx::model::column_rule::{
    ColumnRule, ContainsValue, IsType, LikePattern, NonNull, NotEmpty, RegexPattern, Uniqueness,
};
use ddlx::model::data_class::DataClass;
use ddlx::model::rule_ext_config::RuleExtConfig;
use ddlx::model::rule_filter::filter::ColumnRuleFilter;
use ddlx::model::rule_traits::{ColumnValidationError, ValidColumnRule};
use ddlx::model::table_expr::{ColumnDef, DataType};
use ddlx::model::threshold::Threshold;

fn column(kind: &str, size: Option<u32>) -> ColumnDef {
    ColumnDef::new(String::from("test"), DataType::new(kind, size, None), false, false)
}

#[test]
fn test_rule_type_validation_success_regex_on_varchar() {
    let rule = ColumnRule::RegexPattern(RegexPattern::new(None, "".to_owned(), None, None));
    assert!(rule.validate_col_type(&column("Varchar", Some(3))).is_ok());
}

#[test]
fn test_rule_type_validation_success_like_on_text() {
    let rule = ColumnRule::LikePattern(LikePattern::new(None, "".to_owned(), None, None));
    assert!(rule.validate_col_type(&column("text", Some(3))).is_ok());
}

#[test]
fn test_rule_type_validation_success_uniqueness_on_int() {
    let rule = ColumnRule::Uniqueness(Uniqueness::new(None, None));
    assert!(rule.validate_col_type(&column("int", Some(3))).is_ok());
}

#[test]
fn test_rule_type_validation_success_contains_on_longtext() {
    let rule = ColumnRule::ContainsValue(ContainsValue::new(None, "".to_owned(), None, None));
    assert!(rule.validate_col_type(&column("LongText", None)).is_ok());
}

#[test]
fn test_rule_type_validation_failure_regex_on_float() {
    let rule = ColumnRule::RegexPattern(RegexPattern::new(None, "".to_owned(), None, None));
    let is_valid = rule.validate_col_type(&column("Float", Some(3))).is_ok();
    assert!(!is_valid);
}

#[test]
fn test_rule_type_validation_failure_like_on_int() {
    let rule = ColumnRule::LikePattern(LikePattern::new(None, "".to_owned(), None, None));
    let is_valid = rule.validate_col_type(&column("Int", Some(3))).is_ok();
    assert!(!is_valid);
}

#[test]
fn test_rule_type_validation_failure_contains_on_bool() {
    let rule = ColumnRule::ContainsValue(ContainsValue::new(None, "".to_owned(), None, None));
    let is_valid = rule.validate_col_type(&column("bool", None)).is_ok();
    assert!(!is_valid);
}

#[test]
fn validation_answers_valid_or_names_column_and_rule() {
    let text = column("Varchar", Some(3));
    let number = column("Int", Some(3));
    let like = ColumnRule::LikePattern(LikePattern::default());
    let regex = ColumnRule::RegexPattern(RegexPattern::default());
    let contains = ColumnRule::ContainsValue(ContainsValue::default());
    let not_empty = ColumnRule::NotEmpty(NotEmpty::default());
    assert_eq!(like.validate_col_type(&text), Ok("valid".to_owned()));
    assert_eq!(
        like.validate_col_type(&number),
        Err(ColumnValidationError::InvalidType(
            "Column test is not a string-like type for like pattern rule".to_owned()
        ))
    );
    assert_eq!(
        regex.validate_col_type(&number),
        Err(ColumnValidationError::InvalidType(
            "Column test is not a string-like type for contains regex rule".to_owned()
        ))
    );
    assert_eq!(
        contains.validate_col_type(&number),
        Err(ColumnValidationError::InvalidType(
            "Column test is not a string-like type for contains value rule".to_owned()
        ))
    );
    assert_eq!(
        not_empty.validate_col_type(&number),
        Err(ColumnValidationError::InvalidType(
            "Column test is not a string-like type for not empty rule".to_owned()
        ))
    );
}

#[test]
fn rules_that_take_any_column() {
    let date = ColumnDef::new(String::from("d"), DataType::new("date", None, None), false, false);
    let non_null = ColumnRule::NonNull(NonNull::default());
    let unique = ColumnRule::Uniqueness(Uniqueness::default());
    let is_type = ColumnRule::IsType(IsType::default());
    assert_eq!(non_null.validate_col_type(&date), Ok("valid".to_owned()));
    assert_eq!(unique.validate_col_type(&date), Ok("valid".to_owned()));
    assert_eq!(is_type.validate_col_type(&date), Ok("valid".to_owned()));
}

#[test]
fn a_group_answers_with_its_first_objection() {
    let number = column("Int", Some(3));
    let group = ColumnRuleFilter::new(
        None,
        vec![
            ColumnRule::NonNull(NonNull::default()),
            ColumnRule::NotEmpty(NotEmpty::default()),
            ColumnRule::LikePattern(LikePattern::default()),
        ],
    );
    assert_eq!(
        group.validate_col_type(&number),
        Err(ColumnValidationError::InvalidType(
            "Column test is not a string-like type for not empty rule".to_owned()
        ))
    );
    assert_eq!(group.validate_col_type(&column("Char", Some(1))), Ok("valid".to_owned()));
    let empty = ColumnRuleFilter::new(None, vec![]);
    assert_eq!(empty.validate_col_type(&number), Ok("valid".to_owned()));
}

#[test]
fn validation_error_prints_its_message_as_a_quoted_literal() {
    let e = ColumnValidationError::InvalidType("Column \"x\" is bad".to_owned());
    assert_eq!(e.to_debug_string(), "InvalidType(\"Column \\\"x\\\" is bad\")");
    assert_eq!(e.print_around("\"m\""), "InvalidType(\"m\")");
}

#[test]
fn defaults_of_the_rules() {
    let like = LikePattern::default();
    assert_eq!(like.name, "");
    assert_eq!(like.pattern, "");
    assert_eq!(like.rule_ext_config, RuleExtConfig::new_empty());
    assert_eq!(like.threshold.to_string(), "1");
    assert_eq!(like, LikePattern::new(None, String::new(), None, None));
    assert_eq!(RegexPattern::default(), RegexPattern::new(None, String::new(), None, None));
    assert_eq!(ContainsValue::default(), ContainsValue::new(None, String::new(), None, None));
    assert_eq!(NonNull::default(), NonNull::new(None, None, None));
    assert_eq!(NotEmpty::default(), NotEmpty::new(None, None, None));
    assert_eq!(Uniqueness::default(), Uniqueness::new(None, None));
    let is_type = IsType::default();
    assert_eq!(
        is_type.data_type,
        DataType { class: DataClass::VarChar, size: Some([Some(3), None]) }
    );
    assert_eq!(RuleExtConfig::default(), RuleExtConfig::new_empty());
}

#[test]
fn new_takes_what_is_given() {
    let rule = ContainsValue::new(
        Some("n".to_owned()),
        "v".to_owned(),
        Some(RuleExtConfig::new_empty()),
        Threshold::from_literal("0.25"),
    );
    assert_eq!(rule.name, "n");
    assert_eq!(rule.value, "v");
    assert_eq!(rule.threshold.to_string(), "0.25");
    let copy = rule.clone();
    assert_eq!(copy, rule);
}

#[test]
fn thresholds_are_shortest_numerals() {
    let text = |s: &str| Threshold::from_literal(s).map(|t| t.to_string());
    assert_eq!(text("1."), Some("1".to_owned()));
    assert_eq!(text("1.0"), Some("1".to_owned()));
    assert_eq!(text("0.50"), Some("0.5".to_owned()));
    assert_eq!(text("0.01"), Some("0.01".to_owned()));
    assert_eq!(text("007.2500"), Some("7.25".to_owned()));
    assert_eq!(text("000"), Some("0".to_owned()));
    assert_eq!(text("12"), Some("12".to_owned()));
    assert_eq!(text(""), None);
    assert_eq!(text(".5"), None);
    assert_eq!(text("-1"), None);
    assert_eq!(text("1.2.3"), None);
    assert_eq!(text("1e3"), None);
    assert_eq!(Threshold::one().to_string(), "1");
    assert_eq!(Threshold::default(), Threshold::one());
    assert_eq!(Threshold::from_literal("0.50"), Threshold::from_literal("0.5"));
}
