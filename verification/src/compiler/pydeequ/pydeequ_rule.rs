//! One check call for each rule.
use crate::model::column_rule::{
    ColumnRule, ColumnRuleView, ContainsValue, IsType, LikePattern, NotEmpty, RegexPattern,
};
use crate::model::data_class::DataClass;
use crate::text::append_str;
use vstd::prelude::*;

verus! {

/// Something that can be written as a check call.
pub trait Compiling {
    /// Whether there is a check call for it.
    spec fn compilable(&self) -> bool;

    /// The check call.
    spec fn compiled(&self) -> Seq<char>;

    /// Writes the check call.
    fn compile(&self) -> (s: String)
        requires
            self.compilable(),
        ensures
            s@ == self.compiled(),
    ;
}

/// The name of a constraint: what it checks, the table and the column.
pub open spec fn constraint_name(prefix: Seq<char>, table_name: Seq<char>, column_name: Seq<char>) -> Seq<
    char,
> {
    prefix + table_name + "_"@ + column_name
}

fn constraint(prefix: &str, table_name: &str, column_name: &str) -> (s: String)
    ensures
        s@ == constraint_name(prefix@, table_name@, column_name@),
{
    let mut s = prefix.to_owned();
    append_str(&mut s, table_name);
    append_str(&mut s, "_");
    append_str(&mut s, column_name);
    s
}

/// The family of types that a class is checked as: strings first, then
/// fractional numbers, other numbers, and truth values. `None` for a class
/// of no such family.
pub open spec fn type_family(class: DataClass) -> Option<Seq<char>> {
    if class.string_like() {
        Some("String"@)
    } else if class.fraction_like() {
        Some("Fractional"@)
    } else if class.numeric_like() {
        Some("Numeric"@)
    } else if class.boolean_like() {
        Some("Boolean"@)
    } else {
        None
    }
}

/// The check that the column is of a family of types.
pub open spec fn data_type_check(column_name: Seq<char>, family: Seq<char>) -> Seq<char> {
    ".hasDataType(\""@ + column_name + "\", ConstrainableDataTypes."@ + family
        + ", lambda x: x >= 1)"@
}

/// The check that a share of the values matches a pattern.
pub open spec fn pattern_check(
    column_name: Seq<char>,
    pattern: Seq<char>,
    threshold: Seq<char>,
    name: Seq<char>,
) -> Seq<char> {
    ".hasPattern(\""@ + column_name + "\", r\""@ + pattern + "\", lambda x: x >= "@ + threshold
        + ", \""@ + name + "\")"@
}

/// The check that the column is complete.
pub open spec fn completeness_check(column_name: Seq<char>, name: Seq<char>) -> Seq<char> {
    ".isComplete(\""@ + column_name + "\", \""@ + name + "\")"@
}

/// The check that the column holds no value twice.
pub open spec fn uniqueness_check(column_name: Seq<char>, name: Seq<char>) -> Seq<char> {
    ".isUnique(\""@ + column_name + "\", \""@ + name + "\")"@
}

/// The check that a share of the values is like a pattern.
pub open spec fn like_check(
    column_name: Seq<char>,
    pattern: Seq<char>,
    name: Seq<char>,
    threshold: Seq<char>,
) -> Seq<char> {
    ".satisfies(\""@ + column_name + " LIKE '"@ + pattern + "'\", \""@ + name
        + "\", lambda x: x >= "@ + threshold + ")"@
}

/// The check that a share of the values is longer than nothing.
pub open spec fn not_empty_check(column_name: Seq<char>, name: Seq<char>, threshold: Seq<char>) -> Seq<
    char,
> {
    ".satisfies(\"length("@ + column_name + ") > 0\", \""@ + name + "\", lambda x: x >= "@
        + threshold + ")"@
}

/// The type rule of a column.
pub struct HasDataType {
    pub rule: IsType,
    pub column_name: String,
}

impl Compiling for HasDataType {
    open spec fn compilable(&self) -> bool {
        type_family(self.rule.data_type.class).is_some()
    }

    open spec fn compiled(&self) -> Seq<char> {
        data_type_check(self.column_name@, type_family(self.rule.data_type.class).unwrap())
    }

    fn compile(&self) -> (s: String) {
        let class = self.rule.data_type.class;
        let family = if class.is_string_like() {
            "String"
        } else if class.is_fraction_like() {
            "Fractional"
        } else if class.is_numeric_like() {
            "Numeric"
        } else {
            "Boolean"
        };
        let mut s = ".hasDataType(\"".to_owned();
        append_str(&mut s, self.column_name.as_str());
        append_str(&mut s, "\", ConstrainableDataTypes.");
        append_str(&mut s, family);
        append_str(&mut s, ", lambda x: x >= 1)");
        s
    }
}

/// The regular-expression rule of a column.
pub struct HasPattern {
    pub rule: RegexPattern,
    pub column_name: String,
    pub table_name: String,
}

impl Compiling for HasPattern {
    open spec fn compilable(&self) -> bool {
        true
    }

    open spec fn compiled(&self) -> Seq<char> {
        pattern_check(
            self.column_name@,
            self.rule.pattern@,
            self.rule.threshold@,
            constraint_name("check_has_pattern_"@, self.table_name@, self.column_name@),
        )
    }

    fn compile(&self) -> (s: String) {
        let name = constraint(
            "check_has_pattern_",
            self.table_name.as_str(),
            self.column_name.as_str(),
        );
        pattern_string(
            self.column_name.as_str(),
            self.rule.pattern.as_str(),
            self.rule.threshold.to_string().as_str(),
            name.as_str(),
        )
    }
}

fn pattern_string(column_name: &str, pattern: &str, threshold: &str, name: &str) -> (s: String)
    ensures
        s@ == pattern_check(column_name@, pattern@, threshold@, name@),
{
    let mut s = ".hasPattern(\"".to_owned();
    append_str(&mut s, column_name);
    append_str(&mut s, "\", r\"");
    append_str(&mut s, pattern);
    append_str(&mut s, "\", lambda x: x >= ");
    append_str(&mut s, threshold);
    append_str(&mut s, ", \"");
    append_str(&mut s, name);
    append_str(&mut s, "\")");
    s
}

/// The presence rule of a column.
pub struct Completeness {
    pub column_name: String,
    pub table_name: String,
}

impl Compiling for Completeness {
    open spec fn compilable(&self) -> bool {
        true
    }

    open spec fn compiled(&self) -> Seq<char> {
        completeness_check(
            self.column_name@,
            constraint_name("check_completeness_"@, self.table_name@, self.column_name@),
        )
    }

    fn compile(&self) -> (s: String) {
        let name = constraint(
            "check_completeness_",
            self.table_name.as_str(),
            self.column_name.as_str(),
        );
        let mut s = ".isComplete(\"".to_owned();
        append_str(&mut s, self.column_name.as_str());
        append_str(&mut s, "\", \"");
        append_str(&mut s, name.as_str());
        append_str(&mut s, "\")");
        s
    }
}

/// The uniqueness rule of a column.
pub struct Uniqueness {
    pub column_name: String,
    pub table_name: String,
}

impl Compiling for Uniqueness {
    open spec fn compilable(&self) -> bool {
        true
    }

    open spec fn compiled(&self) -> Seq<char> {
        uniqueness_check(
            self.column_name@,
            constraint_name("check_uniqueness_"@, self.table_name@, self.column_name@),
        )
    }

    fn compile(&self) -> (s: String) {
        let name = constraint(
            "check_uniqueness_",
            self.table_name.as_str(),
            self.column_name.as_str(),
        );
        let mut s = ".isUnique(\"".to_owned();
        append_str(&mut s, self.column_name.as_str());
        append_str(&mut s, "\", \"");
        append_str(&mut s, name.as_str());
        append_str(&mut s, "\")");
        s
    }
}

/// The `LIKE` rule of a column.
pub struct SatisfiesLike {
    pub rule: LikePattern,
    pub column_name: String,
    pub table_name: String,
}

impl Compiling for SatisfiesLike {
    open spec fn compilable(&self) -> bool {
        true
    }

    open spec fn compiled(&self) -> Seq<char> {
        like_check(
            self.column_name@,
            self.rule.pattern@,
            constraint_name("check_like_pattern_"@, self.table_name@, self.column_name@),
            self.rule.threshold@,
        )
    }

    fn compile(&self) -> (s: String) {
        let name = constraint(
            "check_like_pattern_",
            self.table_name.as_str(),
            self.column_name.as_str(),
        );
        let threshold = self.rule.threshold.to_string();
        let mut s = ".satisfies(\"".to_owned();
        append_str(&mut s, self.column_name.as_str());
        append_str(&mut s, " LIKE '");
        append_str(&mut s, self.rule.pattern.as_str());
        append_str(&mut s, "'\", \"");
        append_str(&mut s, name.as_str());
        append_str(&mut s, "\", lambda x: x >= ");
        append_str(&mut s, threshold.as_str());
        append_str(&mut s, ")");
        s
    }
}

/// The rule that the values of a column contain a text.
pub struct ContainsString {
    pub rule: ContainsValue,
    pub column_name: String,
    pub table_name: String,
}

impl Compiling for ContainsString {
    open spec fn compilable(&self) -> bool {
        true
    }

    open spec fn compiled(&self) -> Seq<char> {
        pattern_check(
            self.column_name@,
            self.rule.value@,
            self.rule.threshold@,
            constraint_name("check_contains_value_"@, self.table_name@, self.column_name@),
        )
    }

    fn compile(&self) -> (s: String) {
        let name = constraint(
            "check_contains_value_",
            self.table_name.as_str(),
            self.column_name.as_str(),
        );
        pattern_string(
            self.column_name.as_str(),
            self.rule.value.as_str(),
            self.rule.threshold.to_string().as_str(),
            name.as_str(),
        )
    }
}

/// The rule that the values of a column are not empty.
pub struct PydeequNotEmpty {
    pub rule: NotEmpty,
    pub column_name: String,
    pub table_name: String,
}

impl Compiling for PydeequNotEmpty {
    open spec fn compilable(&self) -> bool {
        true
    }

    open spec fn compiled(&self) -> Seq<char> {
        not_empty_check(
            self.column_name@,
            constraint_name("check_not_empty_"@, self.table_name@, self.column_name@),
            self.rule.threshold@,
        )
    }

    fn compile(&self) -> (s: String) {
        let name = constraint(
            "check_not_empty_",
            self.table_name.as_str(),
            self.column_name.as_str(),
        );
        let threshold = self.rule.threshold.to_string();
        let mut s = ".satisfies(\"length(".to_owned();
        append_str(&mut s, self.column_name.as_str());
        append_str(&mut s, ") > 0\", \"");
        append_str(&mut s, name.as_str());
        append_str(&mut s, "\", lambda x: x >= ");
        append_str(&mut s, threshold.as_str());
        append_str(&mut s, ")");
        s
    }
}

/// Whether there is a check call for the rule: a type rule needs a class
/// of one of the four families.
pub open spec fn lowerable(rule: ColumnRuleView) -> bool {
    rule matches ColumnRuleView::IsType(r) ==> type_family(r.data_type.class).is_some()
}

/// The check call of the rule on the column `column_name` of the table
/// `table_name`.
pub open spec fn check_text(rule: ColumnRuleView, table_name: Seq<char>, column_name: Seq<char>) -> Seq<
    char,
> {
    match rule {
        ColumnRuleView::RegexPattern(r) => pattern_check(
            column_name,
            r.pattern,
            r.threshold,
            constraint_name("check_has_pattern_"@, table_name, column_name),
        ),
        ColumnRuleView::LikePattern(r) => like_check(
            column_name,
            r.pattern,
            constraint_name("check_like_pattern_"@, table_name, column_name),
            r.threshold,
        ),
        ColumnRuleView::ContainsValue(r) => pattern_check(
            column_name,
            r.value,
            r.threshold,
            constraint_name("check_contains_value_"@, table_name, column_name),
        ),
        ColumnRuleView::IsType(r) => data_type_check(
            column_name,
            type_family(r.data_type.class).unwrap(),
        ),
        ColumnRuleView::Uniqueness(_) => uniqueness_check(
            column_name,
            constraint_name("check_uniqueness_"@, table_name, column_name),
        ),
        ColumnRuleView::NonNull(_) => completeness_check(
            column_name,
            constraint_name("check_completeness_"@, table_name, column_name),
        ),
        ColumnRuleView::NotEmpty(r) => not_empty_check(
            column_name,
            constraint_name("check_not_empty_"@, table_name, column_name),
            r.threshold,
        ),
    }
}

/// Whether there is a check call for the rule.
pub fn can_compile(rule: &ColumnRule) -> (r: bool)
    ensures
        r == lowerable(rule@),
{
    match rule {
        ColumnRule::IsType(r) => {
            let class = r.data_type.class;
            class.is_string_like() || class.is_fraction_like() || class.is_numeric_like()
                || class.is_boolean_like()
        },
        _ => true,
    }
}

/// The check call of the rule on the column `column_name` of the table
/// `table_name`. There must be a check call for the rule.
pub fn compile_column_rule(column_rule: ColumnRule, table_name: String, column_name: String) -> (s:
    String)
    requires
        lowerable(column_rule@),
    ensures
        s@ == check_text(column_rule@, table_name@, column_name@),
{
    match column_rule {
        ColumnRule::RegexPattern(rule) => HasPattern { rule, column_name, table_name }.compile(),
        ColumnRule::LikePattern(rule) => SatisfiesLike { rule, column_name, table_name }.compile(),
        ColumnRule::ContainsValue(rule) => ContainsString {
            rule,
            column_name,
            table_name,
        }.compile(),
        ColumnRule::IsType(rule) => HasDataType { rule, column_name }.compile(),
        ColumnRule::Uniqueness(_) => Uniqueness { column_name, table_name }.compile(),
        ColumnRule::NonNull(_) => Completeness { column_name, table_name }.compile(),
        ColumnRule::NotEmpty(rule) => PydeequNotEmpty { column_name, table_name, rule }.compile(),
    }
}

} // verus!
