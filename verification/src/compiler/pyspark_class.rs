//! The emitter of typed schema records: for each column its name, a name
//! in snake case, whether it must be present, and its class.
//!
//! The records are what a template is filled with.
use crate::model::data_class::DataClass;
use crate::model::table_expr::{ColumnDefView, TableDef, TableDefView};
use crate::text::{
    append_char, append_chars, char_is_uppercase, char_lowercase, chars_of, is_uppercase,
    lowercase_of, remove_char, without,
};
use vstd::prelude::*;

verus! {

/// What a `PySparkDataClassColumn` holds, as plain values.
pub struct PySparkDataClassColumnView {
    pub name: Seq<char>,
    pub ref_name: Seq<char>,
    pub not_null: bool,
    pub data_class: DataClass,
}

/// The field of one column.
#[derive(Debug, PartialEq)]
pub struct PySparkDataClassColumn {
    pub name: String,
    /// The name in snake case.
    pub ref_name: String,
    pub not_null: bool,
    pub data_class: DataClass,
}

impl View for PySparkDataClassColumn {
    type V = PySparkDataClassColumnView;

    open spec fn view(&self) -> PySparkDataClassColumnView {
        PySparkDataClassColumnView {
            name: self.name@,
            ref_name: self.ref_name@,
            not_null: self.not_null,
            data_class: self.data_class,
        }
    }
}

/// What the character `c` becomes in snake case. `upper` says whether it is
/// an uppercase character, `lower` is its lowercase form, `first` says
/// whether it is the first character of the name. An uppercase character
/// becomes its lowercase form, behind a `_` unless it is the first; any
/// other character stays.
pub open spec fn snake_piece(c: char, first: bool, upper: bool, lower: Seq<char>) -> Seq<char> {
    if upper {
        if first {
            lower
        } else {
            seq!['_'] + lower
        }
    } else {
        seq![c]
    }
}

/// The name in snake case.
pub open spec fn snake_case(name: Seq<char>) -> Seq<char>
    decreases name.len(),
{
    if name.len() == 0 {
        Seq::empty()
    } else {
        snake_case(name.drop_last()) + snake_piece(
            name.last(),
            name.len() == 1,
            char_is_uppercase(name.last()),
            char_lowercase(name.last()),
        )
    }
}

/// Appends to `out` what the character `c` becomes in snake case.
pub fn push_snake_case(out: &mut String, c: char, first: bool, upper: bool, lower: &Vec<char>)
    ensures
        final(out)@ == old(out)@ + snake_piece(c, first, upper, lower@),
{
    if upper {
        if !first {
            append_char(out, '_');
        }
        append_chars(out, lower, 0, lower.len());
        assert(lower@.subrange(0, lower.len() as int) == lower@);
        assert(old(out)@.push('_') + lower@ == old(out)@ + (seq!['_'] + lower@));
    } else {
        append_char(out, c);
        assert(old(out)@.push(c) == old(out)@ + seq![c]);
    }
}

/// The name in snake case: every uppercase character becomes its lowercase
/// form, behind a `_` unless it is the first character.
pub fn to_snake_case(name: &str) -> (s: String)
    ensures
        s@ == snake_case(name@),
{
    let cs = chars_of(name);
    let mut s = String::new();
    let mut i: usize = 0;
    assert(cs@.take(0) =~= Seq::empty());
    while i < cs.len()
        invariant
            i <= cs.len(),
            cs@ == name@,
            s@ == snake_case(cs@.take(i as int)),
        decreases cs.len() - i,
    {
        let c = cs[i];
        proof {
            assert(cs@.take(i + 1).drop_last() == cs@.take(i as int));
            assert(cs@.take(i + 1).last() == c);
        }
        let upper = is_uppercase(c);
        let lower = lowercase_of(c);
        push_snake_case(&mut s, c, i == 0, upper, &lower);
        i += 1;
    }
    assert(cs@.take(cs.len() as int) == cs@);
    s
}

/// The class as the target knows it: every string-like class is the
/// generic string.
pub open spec fn target_class(class: DataClass) -> DataClass {
    if class.string_like() {
        DataClass::String
    } else {
        class
    }
}

/// The class as the target knows it.
pub fn convert_string_like_type(_type: DataClass) -> (r: DataClass)
    ensures
        r == target_class(_type),
{
    if _type.is_string_like() {
        return DataClass::String;
    }
    _type
}

/// The field of the column `column`.
pub open spec fn field_of(column: ColumnDefView) -> PySparkDataClassColumnView {
    PySparkDataClassColumnView {
        name: column.name,
        ref_name: snake_case(column.name),
        not_null: column.not_null,
        data_class: target_class(column.data_type.class),
    }
}

/// The views of a list of fields.
pub open spec fn field_views(fields: Seq<PySparkDataClassColumn>) -> Seq<PySparkDataClassColumnView> {
    fields.map_values(|f: PySparkDataClassColumn| f@)
}

/// What a `PySparkDataClass` holds, as plain values.
pub struct PySparkDataClassView {
    pub table_name: Seq<char>,
    pub columns: Seq<PySparkDataClassColumnView>,
}

/// The schema of a table: its name without points, and its fields.
#[derive(Debug, PartialEq)]
pub struct PySparkDataClass {
    pub table_name: String,
    pub columns: Vec<PySparkDataClassColumn>,
}

impl View for PySparkDataClass {
    type V = PySparkDataClassView;

    open spec fn view(&self) -> PySparkDataClassView {
        PySparkDataClassView { table_name: self.table_name@, columns: field_views(self.columns@) }
    }
}

/// The schema of the table `table`.
pub open spec fn schema_of(table: TableDefView) -> PySparkDataClassView {
    PySparkDataClassView {
        table_name: without(table.table_ref.qualified(), '.'),
        columns: Seq::new(table.columns.len(), |i: int| field_of(table.columns[i])),
    }
}

/// The schema of the table, which a template is filled with.
pub fn compile(table_def: TableDef) -> (r: PySparkDataClass)
    ensures
        r@ == schema_of(table_def@),
{
    let mut columns: Vec<PySparkDataClassColumn> = Vec::new();
    let mut i: usize = 0;
    while i < table_def.columns.len()
        invariant
            i <= table_def.columns.len(),
            columns.len() == i,
            forall|k: int|
                0 <= k < i ==> (#[trigger] columns@[k])@ == field_of(table_def.columns@[k]@),
        decreases table_def.columns.len() - i,
    {
        let x = &table_def.columns[i];
        columns.push(
            PySparkDataClassColumn {
                name: x.name.clone(),
                ref_name: to_snake_case(x.name.as_str()),
                not_null: x.not_null,
                data_class: convert_string_like_type(x.data_type.class),
            },
        );
        i += 1;
    }
    assert(field_views(columns@) =~= schema_of(table_def@).columns);
    let qualified = table_def.table_ref.to_string();
    PySparkDataClass { table_name: remove_char(qualified.as_str(), '.'), columns }
}

} // verus!
