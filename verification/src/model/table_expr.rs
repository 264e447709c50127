//! Tables, columns and column types.
use crate::model::column_rule::{
    rule_views, ColumnRule, ColumnRuleView, IsType, IsTypeView, NonNull, NonNullView, Uniqueness,
    UniquenessView,
};
use crate::model::data_class::DataClass;
use crate::model::rule_ext_config::RuleExtConfigView;
use crate::model::rule_filter::filter::{
    clone_filters, filter_views, ColumnRuleFilter, ColumnRuleFilterView,
};
use crate::parser::cursor::Failure;
use crate::parser::data_class_parsing::{data_type_of, parse_data_type};
use crate::text::{
    append_decimal, append_str, chars_of, clone_optional, decimal, find_from, index_from,
    optional_text, substring,
};
use vstd::prelude::*;

verus! {

/// What a `TableRef` holds, as plain values.
pub struct TableRefView {
    pub table_name: Seq<char>,
    pub schema_name: Option<Seq<char>>,
    pub alias: Option<Seq<char>>,
}

/// The name of a table, with the schema it belongs to and a label for it
/// where they were given.
#[derive(Debug, PartialEq)]
pub struct TableRef {
    pub table_name: String,
    pub schema_name: Option<String>,
    pub alias: Option<String>,
}

impl View for TableRef {
    type V = TableRefView;

    open spec fn view(&self) -> TableRefView {
        TableRefView {
            table_name: self.table_name@,
            schema_name: optional_text(self.schema_name),
            alias: optional_text(self.alias),
        }
    }
}

/// The view of an optional string slice.
pub open spec fn optional_str(o: Option<&str>) -> Option<Seq<char>> {
    match o {
        Some(s) => Some(s@),
        None => None,
    }
}

fn owned(o: Option<&str>) -> (r: Option<String>)
    ensures
        optional_text(r) == optional_str(o),
{
    match o {
        Some(s) => Some(s.to_owned()),
        None => None,
    }
}

impl TableRefView {
    /// The name as it is written: the schema and a point before the table
    /// name where there is a schema.
    pub open spec fn qualified(self) -> Seq<char> {
        match self.schema_name {
            Some(schema) => schema + "."@ + self.table_name,
            None => self.table_name,
        }
    }

    /// The reference that a dotted name stands for: the table name is what
    /// stands before the first point, the schema what stands between the
    /// first point and the second.
    pub open spec fn of_dotted(s: Seq<char>) -> TableRefView {
        let first = index_from(s, 0, '.');
        TableRefView {
            table_name: s.subrange(0, first),
            schema_name: if first < s.len() {
                Some(s.subrange(first + 1, index_from(s, first + 1, '.')))
            } else {
                None
            },
            alias: None,
        }
    }
}

impl TableRef {
    /// The reference with the given parts.
    pub fn new(table_name: &str, schema_name: Option<&str>, alias: Option<&str>) -> (r: Self)
        ensures
            r@ == (TableRefView {
                table_name: table_name@,
                schema_name: optional_str(schema_name),
                alias: optional_str(alias),
            }),
    {
        Self { table_name: table_name.to_owned(), schema_name: owned(schema_name), alias: owned(alias) }
    }

    /// The reference that a dotted name stands for. It never fails.
    pub fn from_str(s: &str) -> (r: Result<Self, ()>)
        ensures
            r is Ok,
            r.unwrap()@ == TableRefView::of_dotted(s@),
    {
        let cs = chars_of(s);
        let first = find_from(&cs, 0, '.');
        let table_name = substring(&cs, 0, first);
        let schema_name = if first < cs.len() {
            let second = find_from(&cs, first + 1, '.');
            Some(substring(&cs, first + 1, second))
        } else {
            None
        };
        Ok(Self { table_name, schema_name, alias: None })
    }

    /// The name as it is written.
    pub fn to_string(&self) -> (s: String)
        ensures
            s@ == self@.qualified(),
    {
        match &self.schema_name {
            Some(schema) => {
                let mut s = schema.clone();
                append_str(&mut s, ".");
                append_str(&mut s, self.table_name.as_str());
                s
            },
            None => self.table_name.clone(),
        }
    }
}

impl Default for TableRef {
    fn default() -> (r: Self)
        ensures
            r@ == (TableRefView { table_name: Seq::empty(), schema_name: None, alias: None }),
    {
        Self { table_name: String::new(), schema_name: None, alias: None }
    }
}

impl Clone for TableRef {
    fn clone(&self) -> (r: Self)
        ensures
            r@ == self@,
    {
        Self {
            table_name: self.table_name.clone(),
            schema_name: clone_optional(&self.schema_name),
            alias: clone_optional(&self.alias),
        }
    }
}

/// A column type: its class and the sizes it was written with.
#[derive(Clone, Copy, Debug, PartialEq, Eq)]
pub struct DataType {
    pub class: DataClass,
    pub size: Option<[Option<u32>; 2]>,
}

impl DataType {
    /// The type of the class `class` written with the sizes `sizes`, of
    /// which there are at most two.
    pub open spec fn with_sizes(class: DataClass, sizes: Seq<u32>) -> DataType {
        if sizes.len() == 0 {
            DataType { class, size: None }
        } else if sizes.len() == 1 {
            DataType { class, size: Some([Some(sizes[0]), None]) }
        } else {
            DataType { class, size: Some([Some(sizes[0]), Some(sizes[1])]) }
        }
    }

    /// The text of a type with the given name and sizes: the name, then
    /// between brackets both sizes where both are given, the first where it
    /// is given alone, and nothing where the first is missing.
    pub open spec fn written(name: Seq<char>, size1: Option<u32>, size2: Option<u32>) -> Seq<char> {
        if size1.is_some() && size2.is_some() {
            name + " ("@ + decimal(size1.unwrap() as nat) + ", "@ + decimal(size2.unwrap() as nat)
                + ")"@
        } else if size1.is_some() {
            name + " ("@ + decimal(size1.unwrap() as nat) + ")"@
        } else {
            name
        }
    }

    /// The text of a type with the given name and sizes.
    pub fn write(name: &str, size1: Option<u32>, size2: Option<u32>) -> (s: String)
        ensures
            s@ == Self::written(name@, size1, size2),
    {
        let mut s = name.to_owned();
        match size1 {
            Some(first) => {
                append_str(&mut s, " (");
                append_decimal(&mut s, first as u64);
                match size2 {
                    Some(second) => {
                        append_str(&mut s, ", ");
                        append_decimal(&mut s, second as u64);
                    },
                    None => {},
                }
                append_str(&mut s, ")");
            },
            None => {},
        }
        s
    }

    /// The type with the given name and sizes, or why there is none: the
    /// text of the name and the sizes is read by the grammar of types.
    pub fn try_new(name: &str, size1: Option<u32>, size2: Option<u32>) -> (r: Result<Self, Failure>)
        ensures
            r == data_type_of(Self::written(name@, size1, size2)),
    {
        let text = Self::write(name, size1, size2);
        parse_data_type(text.as_str())
    }

    /// The type with the given name and sizes. The name must be one that
    /// takes these sizes.
    pub fn new(name: &str, size1: Option<u32>, size2: Option<u32>) -> (r: Self)
        requires
            data_type_of(Self::written(name@, size1, size2)) is Ok,
        ensures
            data_type_of(Self::written(name@, size1, size2)) == Ok::<DataType, Failure>(r),
    {
        match Self::try_new(name, size1, size2) {
            Ok(data_type) => data_type,
            Err(_) => DataType { class: DataClass::Unknown, size: None },
        }
    }

    /// The type that `text` spells, or why it spells none.
    pub fn parse(text: &str) -> (r: Result<Self, Failure>)
        ensures
            r == data_type_of(text@),
    {
        parse_data_type(text)
    }
}

impl Default for DataType {
    fn default() -> (r: Self)
        ensures
            r == (DataType { class: DataClass::Unknown, size: None }),
    {
        DataType { class: DataClass::Unknown, size: None }
    }
}

/// What a `ColumnDef` holds, as plain values.
pub struct ColumnDefView {
    pub name: Seq<char>,
    pub data_type: DataType,
    pub not_null: bool,
    pub primary_key: bool,
    pub rules: Seq<ColumnRuleFilterView>,
}

/// A column: its name, its type, whether it must be present and whether it
/// is the key, and its groups of rules.
#[derive(Debug, PartialEq)]
pub struct ColumnDef {
    pub name: String,
    pub data_type: DataType,
    pub not_null: bool,
    pub primary_key: bool,
    pub rules: Vec<ColumnRuleFilter>,
}

impl View for ColumnDef {
    type V = ColumnDefView;

    open spec fn view(&self) -> ColumnDefView {
        ColumnDefView {
            name: self.name@,
            data_type: self.data_type,
            not_null: self.not_null,
            primary_key: self.primary_key,
            rules: filter_views(self.rules@),
        }
    }
}

impl ColumnDefView {
    /// The rule that the values are of the type `data_type`.
    pub open spec fn type_rule(data_type: DataType) -> ColumnRuleView {
        ColumnRuleView::IsType(
            IsTypeView { name: Seq::empty(), data_type, rule_ext_config: RuleExtConfigView::empty() },
        )
    }

    /// The rules that a column has from its declaration alone, in order:
    /// presence where it must be present, uniqueness where it is the key,
    /// and its type unless that is a date or a time.
    pub open spec fn implied_rules(
        data_type: DataType,
        not_null: bool,
        primary_key: bool,
    ) -> Seq<ColumnRuleView> {
        (if not_null {
            seq![ColumnRuleView::NonNull(NonNullView::initial())]
        } else {
            Seq::empty()
        }) + (if primary_key {
            seq![ColumnRuleView::Uniqueness(UniquenessView::initial())]
        } else {
            Seq::empty()
        }) + (if !data_type.class.date_like() {
            seq![Self::type_rule(data_type)]
        } else {
            Seq::empty()
        })
    }

    /// The column as it is declared: its one group holds the implied rules
    /// and stands under no gating condition.
    pub open spec fn declared(
        name: Seq<char>,
        data_type: DataType,
        not_null: bool,
        primary_key: bool,
    ) -> ColumnDefView {
        ColumnDefView {
            name,
            data_type,
            not_null,
            primary_key,
            rules: seq![
                ColumnRuleFilterView::fresh(
                    None,
                    Self::implied_rules(data_type, not_null, primary_key),
                ),
            ],
        }
    }

    /// The declared column with the groups `rules` behind its own.
    pub open spec fn declared_with(
        name: Seq<char>,
        data_type: DataType,
        not_null: bool,
        primary_key: bool,
        rules: Seq<ColumnRuleFilterView>,
    ) -> ColumnDefView {
        ColumnDefView {
            name,
            data_type,
            not_null,
            primary_key,
            rules: Self::declared(name, data_type, not_null, primary_key).rules + rules,
        }
    }
}

impl ColumnDef {
    /// The column as it is declared, with the group of its implied rules.
    pub fn new(name: String, data_type: DataType, not_null: bool, primary_key: bool) -> (r: Self)
        ensures
            r@ == ColumnDefView::declared(name@, data_type, not_null, primary_key),
    {
        let mut rules: Vec<ColumnRule> = Vec::new();
        if not_null {
            rules.push(ColumnRule::NonNull(NonNull::new(None, None, None)));
        }
        if primary_key {
            rules.push(ColumnRule::Uniqueness(Uniqueness::new(None, None)));
        }
        if !data_type.class.is_date_like() {
            rules.push(ColumnRule::IsType(IsType::new(None, data_type, None)));
        }
        assert(rule_views(rules@) =~= ColumnDefView::implied_rules(
            data_type,
            not_null,
            primary_key,
        ));
        let mut groups: Vec<ColumnRuleFilter> = Vec::new();
        groups.push(ColumnRuleFilter::empty_fr_rules(rules));
        assert(filter_views(groups@) =~= ColumnDefView::declared(
            name@,
            data_type,
            not_null,
            primary_key,
        ).rules);
        Self { name, data_type, not_null, primary_key, rules: groups }
    }

    /// The declared column with further groups of rules behind its own.
    pub fn new_with_rules_and_filter(
        name: String,
        data_type: DataType,
        not_null: bool,
        primary_key: bool,
        rules: Vec<ColumnRuleFilter>,
    ) -> (r: Self)
        ensures
            r@ == ColumnDefView::declared_with(
                name@,
                data_type,
                not_null,
                primary_key,
                filter_views(rules@),
            ),
    {
        let mut column = Self::new(name, data_type, not_null, primary_key);
        let mut rules = rules;
        let ghost own = filter_views(column.rules@);
        let ghost more = filter_views(rules@);
        column.rules.append(&mut rules);
        assert(filter_views(column.rules@) =~= own + more);
        column
    }
}

impl Default for ColumnDef {
    fn default() -> (r: Self)
        ensures
            r@ == (ColumnDefView {
                name: Seq::empty(),
                data_type: DataType { class: DataClass::Unknown, size: None },
                not_null: false,
                primary_key: false,
                rules: Seq::empty(),
            }),
    {
        let r = Self {
            name: String::new(),
            data_type: DataType { class: DataClass::Unknown, size: None },
            not_null: false,
            primary_key: false,
            rules: Vec::new(),
        };
        assert(filter_views(r.rules@) =~= Seq::empty());
        r
    }
}

impl Clone for ColumnDef {
    fn clone(&self) -> (r: Self)
        ensures
            r@ == self@,
    {
        Self {
            name: self.name.clone(),
            data_type: self.data_type,
            not_null: self.not_null,
            primary_key: self.primary_key,
            rules: clone_filters(&self.rules),
        }
    }
}

/// The views of a list of columns.
pub open spec fn column_views(columns: Seq<ColumnDef>) -> Seq<ColumnDefView> {
    columns.map_values(|c: ColumnDef| c@)
}

/// A copy of a list of columns.
pub fn clone_columns(columns: &Vec<ColumnDef>) -> (r: Vec<ColumnDef>)
    ensures
        column_views(r@) == column_views(columns@),
{
    let mut out: Vec<ColumnDef> = Vec::new();
    let mut i: usize = 0;
    while i < columns.len()
        invariant
            i <= columns.len(),
            out.len() == i,
            forall|j: int| 0 <= j < i ==> out@[j]@ == columns@[j]@,
        decreases columns.len() - i,
    {
        out.push(columns[i].clone());
        i += 1;
    }
    assert(column_views(out@) =~= column_views(columns@));
    out
}

/// What a `TableDef` holds, as plain values.
pub struct TableDefView {
    pub table_ref: TableRefView,
    pub columns: Seq<ColumnDefView>,
}

/// A table: its name and its columns, in the order in which they are
/// declared.
#[derive(Debug, PartialEq)]
pub struct TableDef {
    pub table_ref: TableRef,
    pub columns: Vec<ColumnDef>,
}

impl View for TableDef {
    type V = TableDefView;

    open spec fn view(&self) -> TableDefView {
        TableDefView { table_ref: self.table_ref@, columns: column_views(self.columns@) }
    }
}

impl Clone for TableDef {
    fn clone(&self) -> (r: Self)
        ensures
            r@ == self@,
    {
        Self { table_ref: self.table_ref.clone(), columns: clone_columns(&self.columns) }
    }
}

} // verus!
