use ddlx::compiler::pyspark_class::{
    compile, convert_string_like_type, push_snake_case, to_snake_case, PySparkDataClassColumn,
};
use ddlx::model::data_class::DataClass;
use ddlx::model::table_expr::{ColumnDef, DataType, TableDef, TableRef};

#[test]
fn snake_case_of_id_col() {
    assert_eq!(to_snake_case("IdCol"), "id_col");
}

#[test]
fn snake_case_keeps_what_is_no_uppercase_letter() {
    assert_eq!(to_snake_case("_Id-3_3"), "__id-3_3");
    assert_eq!(to_snake_case("already_snake"), "already_snake");
    assert_eq!(to_snake_case(""), "");
    assert_eq!(to_snake_case("ABC"), "a_b_c");
    assert_eq!(to_snake_case("x9Y"), "x9_y");
}

#[test]
fn snake_case_of_letters_beyond_ascii() {
    assert_eq!(to_snake_case("aÉb"), "a_éb");
    assert_eq!(to_snake_case("İ"), "i\u{307}");
}

#[test]
fn one_character_in_snake_case() {
    let mut out = "x".to_owned();
    push_snake_case(&mut out, 'Q', false, true, &vec!['q', 'q']);
    assert_eq!(out, "x_qq");
    push_snake_case(&mut out, 'Q', true, true, &vec!['r']);
    assert_eq!(out, "x_qqr");
    push_snake_case(&mut out, 'Q', false, false, &vec!['r']);
    assert_eq!(out, "x_qqrQ");
}

#[test]
fn string_like_classes_become_the_generic_string() {
    assert_eq!(convert_string_like_type(DataClass::VarChar), DataClass::String);
    assert_eq!(convert_string_like_type(DataClass::TinyBlob), DataClass::String);
    assert_eq!(convert_string_like_type(DataClass::String), DataClass::String);
    assert_eq!(convert_string_like_type(DataClass::Float), DataClass::Float);
    assert_eq!(convert_string_like_type(DataClass::Date), DataClass::Date);
    assert_eq!(convert_string_like_type(DataClass::Unknown), DataClass::Unknown);
}

#[test]
fn the_schema_of_a_table() {
    let table = TableDef {
        table_ref: TableRef::new("Test", Some("Schema"), None),
        columns: vec![
            ColumnDef::new("IdCol".to_owned(), DataType::new("VarChar", Some(3), None), true, true),
            ColumnDef::new("Price".to_owned(), DataType::new("FLOAT", Some(3), None), false, false),
        ],
    };
    let schema = compile(table);
    assert_eq!(schema.table_name, "SchemaTest");
    assert_eq!(
        schema.columns,
        vec![
            PySparkDataClassColumn {
                name: "IdCol".to_owned(),
                ref_name: "id_col".to_owned(),
                not_null: true,
                data_class: DataClass::String,
            },
            PySparkDataClassColumn {
                name: "Price".to_owned(),
                ref_name: "price".to_owned(),
                not_null: false,
                data_class: DataClass::Float,
            },
        ]
    );
}
