use ddlx::model::data_class::{DataClass, SizeArity};
use ddlx::model::table_expr::DataType;
use ddlx::parser::cursor::{Expected, Failure};
use ddlx::parser::data_class_parsing::parse_data_type;

fn named(input: &str, class: DataClass, arity: SizeArity) {
    assert_eq!(DataClass::from_name(input), Some(class));
    assert_eq!(class.size_arity(), Some(arity));
}

#[test]
fn test_no_size_type_tinyblob() {
    named("Tinyblob", DataClass::TinyBlob, SizeArity::NoSize);
    assert_eq!(parse_data_type("Tinyblob"), Ok(DataType { class: DataClass::TinyBlob, size: None }));
}

#[test]
fn test_no_size_type_tinytext() {
    named("Tinytext", DataClass::TinyText, SizeArity::NoSize);
}

#[test]
fn test_one_size_type_char() {
    named("cHar", DataClass::Char, SizeArity::OneSize);
}

#[test]
fn test_one_size_type_varchar() {
    named("VarChaR", DataClass::VarChar, SizeArity::OneSize);
}

#[test]
fn test_one_size_type_binary() {
    named("BINARY", DataClass::Binary, SizeArity::OneSize);
}

#[test]
fn test_one_size_type_int() {
    named("int", DataClass::Int, SizeArity::OneSize);
}

#[test]
fn test_one_size_type_text() {
    named("teXT", DataClass::Text, SizeArity::OneSize);
}

#[test]
fn test_two_size_type_double() {
    named("double", DataClass::Double, SizeArity::TwoSizes);
}

#[test]
fn test_two_size_type_decimal() {
    named("DECIMAL", DataClass::Decimal, SizeArity::TwoSizes);
}

#[test]
fn test_both_size_type_float() {
    named("Float", DataClass::Float, SizeArity::BothSizes);
}

#[test]
fn test_data_type_expr_tinyblob() {
    assert_eq!(parse_data_type("TinyBlob"), Ok(DataType { class: DataClass::TinyBlob, size: None }));
}

#[test]
fn test_data_type_expr_float_one_size() {
    assert_eq!(
        parse_data_type("Float(30)"),
        Ok(DataType { class: DataClass::Float, size: Some([Some(30), None]) })
    );
}

#[test]
fn test_data_type_expr_float_two_sizes() {
    assert_eq!(
        parse_data_type("Float(30,5)"),
        Ok(DataType { class: DataClass::Float, size: Some([Some(30), Some(5)]) })
    );
}

#[test]
fn test_data_type_expr_varchar() {
    assert_eq!(
        parse_data_type("VarChaR(30)"),
        Ok(DataType { class: DataClass::VarChar, size: Some([Some(30), None]) })
    );
}

#[test]
fn test_data_type_expr_double() {
    assert_eq!(
        parse_data_type("double(30,5)"),
        Ok(DataType { class: DataClass::Double, size: Some([Some(30), Some(5)]) })
    );
}

#[test]
fn a_type_of_either_arity_may_stand_bare() {
    assert_eq!(parse_data_type("Float"), Ok(DataType { class: DataClass::Float, size: None }));
    assert_eq!(parse_data_type(" float ( 1 , 2 ) "), Ok(DataType::new("float", Some(1), Some(2))));
}

#[test]
fn test_data_type_expr_failure_size_on_no_size_type() {
    assert_eq!(
        parse_data_type("TinyBlob(30)"),
        Err(Failure::UnrecognizedToken { index: 1, expected: Expected::End })
    );
}

#[test]
fn test_data_type_expr_failure_bare_two_size_type() {
    assert_eq!(
        parse_data_type("double"),
        Err(Failure::UnexpectedEnd { expected: Expected::LeftParen })
    );
}

#[test]
fn test_data_type_expr_failure_two_sizes_on_one_size_type() {
    assert_eq!(
        parse_data_type("VarChaR(30, 4)"),
        Err(Failure::UnrecognizedToken { index: 3, expected: Expected::RightParen })
    );
}

#[test]
fn test_data_type_expr_failure_one_size_on_two_size_type() {
    assert_eq!(
        parse_data_type("double(30)"),
        Err(Failure::UnrecognizedToken { index: 3, expected: Expected::Comma })
    );
}

#[test]
fn test_data_type_expr_failure_open_bracket() {
    assert_eq!(
        parse_data_type("double(30,5"),
        Err(Failure::UnexpectedEnd { expected: Expected::RightParen })
    );
}

#[test]
fn three_sizes_fit_no_type() {
    assert_eq!(
        parse_data_type("float(1,2,3)"),
        Err(Failure::UnrecognizedToken { index: 5, expected: Expected::RightParen })
    );
    assert_eq!(
        parse_data_type("float(1;"),
        Err(Failure::UnrecognizedToken { index: 3, expected: Expected::CommaOrRightParen })
    );
}

#[test]
fn sizes_are_whole_numbers() {
    assert_eq!(
        parse_data_type("int(3.5)"),
        Err(Failure::UnrecognizedToken { index: 2, expected: Expected::Size })
    );
    assert_eq!(
        parse_data_type("int(-3)"),
        Err(Failure::UnrecognizedToken { index: 2, expected: Expected::Size })
    );
    assert_eq!(parse_data_type("int(007)"), Ok(DataType::new("int", Some(7), None)));
    assert_eq!(
        parse_data_type("int(99999999999999999999999999)"),
        Err(Failure::UnrecognizedToken { index: 2, expected: Expected::Size })
    );
}

#[test]
fn every_class_that_can_be_written() {
    let no_size = [
        ("bool", DataClass::Bool),
        ("tinyblob", DataClass::TinyBlob),
        ("tinytext", DataClass::TinyText),
        ("mediumtext", DataClass::MediumText),
        ("mediumblob", DataClass::MediumBlob),
        ("longtext", DataClass::LongText),
        ("longblob", DataClass::LongBlob),
        ("date", DataClass::Date),
        ("time", DataClass::Time),
        ("datetime", DataClass::DateTime),
        ("timestamp", DataClass::Timestamp),
        ("year", DataClass::Year),
    ];
    for (name, class) in no_size {
        assert_eq!(parse_data_type(name), Ok(DataType { class, size: None }));
    }
    let one_size = [
        ("bit", DataClass::Bit),
        ("char", DataClass::Char),
        ("varchar", DataClass::VarChar),
        ("binary", DataClass::Binary),
        ("varbinary", DataClass::VarBinary),
        ("text", DataClass::Text),
        ("blob", DataClass::Blob),
        ("tinyint", DataClass::TinyInt),
        ("smallint", DataClass::SmallInt),
        ("mediumint", DataClass::MediumInt),
        ("int", DataClass::Int),
        ("integer", DataClass::Integer),
        ("bigint", DataClass::BigInt),
    ];
    for (name, class) in one_size {
        let text = format!("{}(8)", name);
        assert_eq!(parse_data_type(&text), Ok(DataType { class, size: Some([Some(8), None]) }));
        assert!(parse_data_type(name).is_err());
    }
    let two_sizes = [
        ("double", DataClass::Double),
        ("double precision", DataClass::DoublePrecision),
        ("decimal", DataClass::Decimal),
        ("dec", DataClass::Dec),
    ];
    for (name, class) in two_sizes {
        let text = format!("{}(8, 2)", name);
        assert_eq!(parse_data_type(&text), Ok(DataType { class, size: Some([Some(8), Some(2)]) }));
    }
}
