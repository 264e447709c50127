//! The column rules and their check against a column's type.
use crate::model::data_class::DataClass;
use crate::model::rule_ext_config::{RuleExtConfig, RuleExtConfigView};
use crate::model::rule_traits::{
    verdict_matches, ColumnValidationError, ColumnValidationErrorView, ValidColumnRule,
};
use crate::model::table_expr::{ColumnDef, ColumnDefView, DataType};
use crate::model::threshold::Threshold;
use crate::text::append_str;
use vstd::prelude::*;

verus! {

/// What every rule answers where it has nothing against the column.
pub open spec fn valid_text() -> Seq<char> {
    "valid"@
}

/// The complaint of a rule that wants a string-like column and got another;
/// `rule_words` names the rule.
pub open spec fn not_string_like_text(column_name: Seq<char>, rule_words: Seq<char>) -> Seq<char> {
    "Column "@ + column_name + " is not a string-like type for "@ + rule_words
}

/// The verdict of a rule that wants a string-like column.
pub open spec fn string_like_verdict(column: ColumnDefView, rule_words: Seq<char>) -> Result<
    Seq<char>,
    ColumnValidationErrorView,
> {
    if column.data_type.class.string_like() {
        Ok(valid_text())
    } else {
        Err(ColumnValidationErrorView::InvalidType(not_string_like_text(column.name, rule_words)))
    }
}

/// Checks that the column is string-like, on behalf of the rule that
/// `rule_words` names.
pub fn require_string_like(column: &ColumnDef, rule_words: &str) -> (r: Result<
    String,
    ColumnValidationError,
>)
    ensures
        verdict_matches(r, string_like_verdict(column@, rule_words@)),
{
    if column.data_type.class.is_string_like() {
        Ok("valid".to_owned())
    } else {
        let mut message = "Column ".to_owned();
        append_str(&mut message, column.name.as_str());
        append_str(&mut message, " is not a string-like type for ");
        append_str(&mut message, rule_words);
        Err(ColumnValidationError::InvalidType(message))
    }
}

fn name_or_empty(name: Option<String>) -> (r: String)
    ensures
        r@ == match name {
            Some(n) => n@,
            None => Seq::<char>::empty(),
        },
{
    match name {
        Some(n) => n,
        None => String::new(),
    }
}

fn config_or_empty(config: Option<RuleExtConfig>) -> (r: RuleExtConfig)
    ensures
        r@ == match config {
            Some(c) => c@,
            None => RuleExtConfigView::empty(),
        },
{
    match config {
        Some(c) => c,
        None => RuleExtConfig::new_empty(),
    }
}

fn threshold_or_one(threshold: Option<Threshold>) -> (r: Threshold)
    ensures
        r@ == match threshold {
            Some(t) => t@,
            None => "1"@,
        },
{
    match threshold {
        Some(t) => t,
        None => Threshold::one(),
    }
}

/// What a `LikePattern` holds, as plain values.
pub struct LikePatternView {
    pub name: Seq<char>,
    pub pattern: Seq<char>,
    pub rule_ext_config: RuleExtConfigView,
    pub threshold: Seq<char>,
}

/// A rule that most values match an SQL `LIKE` pattern.
#[derive(Debug, PartialEq)]
pub struct LikePattern {
    pub name: String,
    pub pattern: String,
    pub rule_ext_config: RuleExtConfig,
    pub threshold: Threshold,
}

impl View for LikePattern {
    type V = LikePatternView;

    open spec fn view(&self) -> LikePatternView {
        LikePatternView {
            name: self.name@,
            pattern: self.pattern@,
            rule_ext_config: self.rule_ext_config@,
            threshold: self.threshold@,
        }
    }
}

impl LikePatternView {
    /// The rule as it is where nothing was given.
    pub open spec fn initial() -> LikePatternView {
        LikePatternView {
            name: Seq::empty(),
            pattern: Seq::empty(),
            rule_ext_config: RuleExtConfigView::empty(),
            threshold: "1"@,
        }
    }
}

impl Default for LikePattern {
    fn default() -> (r: Self)
        ensures
            r@ == LikePatternView::initial(),
    {
        Self {
            name: String::new(),
            pattern: String::new(),
            rule_ext_config: RuleExtConfig::new_empty(),
            threshold: Threshold::one(),
        }
    }
}

impl Clone for LikePattern {
    fn clone(&self) -> (r: Self)
        ensures
            r@ == self@,
    {
        Self {
            name: self.name.clone(),
            pattern: self.pattern.clone(),
            rule_ext_config: self.rule_ext_config.clone(),
            threshold: self.threshold.clone(),
        }
    }
}

impl LikePattern {
    /// The rule with the given parts; a part that is not given is as in
    /// `default`.
    pub fn new(
        name: Option<String>,
        pattern: String,
        rule_ext_config: Option<RuleExtConfig>,
        threshold: Option<Threshold>,
    ) -> (r: Self)
        ensures
            r@ == (LikePatternView {
                name: match name {
                    Some(n) => n@,
                    None => Seq::<char>::empty(),
                },
                pattern: pattern@,
                rule_ext_config: match rule_ext_config {
                    Some(c) => c@,
                    None => RuleExtConfigView::empty(),
                },
                threshold: match threshold {
                    Some(t) => t@,
                    None => "1"@,
                },
            }),
    {
        Self {
            name: name_or_empty(name),
            pattern,
            rule_ext_config: config_or_empty(rule_ext_config),
            threshold: threshold_or_one(threshold),
        }
    }
}

impl ValidColumnRule for LikePattern {
    open spec fn verdict(&self, column: ColumnDefView) -> Result<Seq<char>, ColumnValidationErrorView> {
        string_like_verdict(column, "like pattern rule"@)
    }

    fn validate_col_type(&self, column: &ColumnDef) -> (r: Result<String, ColumnValidationError>) {
        require_string_like(column, "like pattern rule")
    }
}

/// What a `RegexPattern` holds, as plain values.
pub struct RegexPatternView {
    pub name: Seq<char>,
    pub pattern: Seq<char>,
    pub rule_ext_config: RuleExtConfigView,
    pub threshold: Seq<char>,
}

/// A rule that most values match a regular expression.
#[derive(Debug, PartialEq)]
pub struct RegexPattern {
    pub name: String,
    pub pattern: String,
    pub rule_ext_config: RuleExtConfig,
    pub threshold: Threshold,
}

impl View for RegexPattern {
    type V = RegexPatternView;

    open spec fn view(&self) -> RegexPatternView {
        RegexPatternView {
            name: self.name@,
            pattern: self.pattern@,
            rule_ext_config: self.rule_ext_config@,
            threshold: self.threshold@,
        }
    }
}

impl RegexPatternView {
    /// The rule as it is where nothing was given.
    pub open spec fn initial() -> RegexPatternView {
        RegexPatternView {
            name: Seq::empty(),
            pattern: Seq::empty(),
            rule_ext_config: RuleExtConfigView::empty(),
            threshold: "1"@,
        }
    }
}

impl Default for RegexPattern {
    fn default() -> (r: Self)
        ensures
            r@ == RegexPatternView::initial(),
    {
        Self {
            name: String::new(),
            pattern: String::new(),
            rule_ext_config: RuleExtConfig::new_empty(),
            threshold: Threshold::one(),
        }
    }
}

impl Clone for RegexPattern {
    fn clone(&self) -> (r: Self)
        ensures
            r@ == self@,
    {
        Self {
            name: self.name.clone(),
            pattern: self.pattern.clone(),
            rule_ext_config: self.rule_ext_config.clone(),
            threshold: self.threshold.clone(),
        }
    }
}

impl RegexPattern {
    /// The rule with the given parts; a part that is not given is as in
    /// `default`.
    pub fn new(
        name: Option<String>,
        pattern: String,
        rule_ext_config: Option<RuleExtConfig>,
        threshold: Option<Threshold>,
    ) -> (r: Self)
        ensures
            r@ == (RegexPatternView {
                name: match name {
                    Some(n) => n@,
                    None => Seq::<char>::empty(),
                },
                pattern: pattern@,
                rule_ext_config: match rule_ext_config {
                    Some(c) => c@,
                    None => RuleExtConfigView::empty(),
                },
                threshold: match threshold {
                    Some(t) => t@,
                    None => "1"@,
                },
            }),
    {
        Self {
            name: name_or_empty(name),
            pattern,
            rule_ext_config: config_or_empty(rule_ext_config),
            threshold: threshold_or_one(threshold),
        }
    }
}

impl ValidColumnRule for RegexPattern {
    open spec fn verdict(&self, column: ColumnDefView) -> Result<Seq<char>, ColumnValidationErrorView> {
        string_like_verdict(column, "contains regex rule"@)
    }

    fn validate_col_type(&self, column: &ColumnDef) -> (r: Result<String, ColumnValidationError>) {
        require_string_like(column, "contains regex rule")
    }
}

/// What a `ContainsValue` holds, as plain values.
pub struct ContainsValueView {
    pub name: Seq<char>,
    pub value: Seq<char>,
    pub rule_ext_config: RuleExtConfigView,
    pub threshold: Seq<char>,
}

/// A rule that most values contain a given text.
#[derive(Debug, PartialEq)]
pub struct ContainsValue {
    pub name: String,
    pub value: String,
    pub rule_ext_config: RuleExtConfig,
    pub threshold: Threshold,
}

impl View for ContainsValue {
    type V = ContainsValueView;

    open spec fn view(&self) -> ContainsValueView {
        ContainsValueView {
            name: self.name@,
            value: self.value@,
            rule_ext_config: self.rule_ext_config@,
            threshold: self.threshold@,
        }
    }
}

impl ContainsValueView {
    /// The rule as it is where nothing was given.
    pub open spec fn initial() -> ContainsValueView {
        ContainsValueView {
            name: Seq::empty(),
            value: Seq::empty(),
            rule_ext_config: RuleExtConfigView::empty(),
            threshold: "1"@,
        }
    }
}

impl Default for ContainsValue {
    fn default() -> (r: Self)
        ensures
            r@ == ContainsValueView::initial(),
    {
        Self {
            name: String::new(),
            value: String::new(),
            rule_ext_config: RuleExtConfig::new_empty(),
            threshold: Threshold::one(),
        }
    }
}

impl Clone for ContainsValue {
    fn clone(&self) -> (r: Self)
        ensures
            r@ == self@,
    {
        Self {
            name: self.name.clone(),
            value: self.value.clone(),
            rule_ext_config: self.rule_ext_config.clone(),
            threshold: self.threshold.clone(),
        }
    }
}

impl ContainsValue {
    /// The rule with the given parts; a part that is not given is as in
    /// `default`.
    pub fn new(
        name: Option<String>,
        value: String,
        rule_ext_config: Option<RuleExtConfig>,
        threshold: Option<Threshold>,
    ) -> (r: Self)
        ensures
            r@ == (ContainsValueView {
                name: match name {
                    Some(n) => n@,
                    None => Seq::<char>::empty(),
                },
                value: value@,
                rule_ext_config: match rule_ext_config {
                    Some(c) => c@,
                    None => RuleExtConfigView::empty(),
                },
                threshold: match threshold {
                    Some(t) => t@,
                    None => "1"@,
                },
            }),
    {
        Self {
            name: name_or_empty(name),
            value,
            rule_ext_config: config_or_empty(rule_ext_config),
            threshold: threshold_or_one(threshold),
        }
    }
}

impl ValidColumnRule for ContainsValue {
    open spec fn verdict(&self, column: ColumnDefView) -> Result<Seq<char>, ColumnValidationErrorView> {
        string_like_verdict(column, "contains value rule"@)
    }

    fn validate_col_type(&self, column: &ColumnDef) -> (r: Result<String, ColumnValidationError>) {
        require_string_like(column, "contains value rule")
    }
}

/// What a `NonNull` holds, as plain values.
pub struct NonNullView {
    pub name: Seq<char>,
    pub rule_ext_config: RuleExtConfigView,
    pub threshold: Seq<char>,
}

/// A rule that most values are present.
#[derive(Debug, PartialEq)]
pub struct NonNull {
    pub name: String,
    pub rule_ext_config: RuleExtConfig,
    pub threshold: Threshold,
}

impl View for NonNull {
    type V = NonNullView;

    open spec fn view(&self) -> NonNullView {
        NonNullView {
            name: self.name@,
            rule_ext_config: self.rule_ext_config@,
            threshold: self.threshold@,
        }
    }
}

impl NonNullView {
    /// The rule as it is where nothing was given.
    pub open spec fn initial() -> NonNullView {
        NonNullView {
            name: Seq::empty(),
            rule_ext_config: RuleExtConfigView::empty(),
            threshold: "1"@,
        }
    }
}

impl Default for NonNull {
    fn default() -> (r: Self)
        ensures
            r@ == NonNullView::initial(),
    {
        Self {
            name: String::new(),
            rule_ext_config: RuleExtConfig::new_empty(),
            threshold: Threshold::one(),
        }
    }
}

impl Clone for NonNull {
    fn clone(&self) -> (r: Self)
        ensures
            r@ == self@,
    {
        Self {
            name: self.name.clone(),
            rule_ext_config: self.rule_ext_config.clone(),
            threshold: self.threshold.clone(),
        }
    }
}

impl NonNull {
    /// The rule with the given parts; a part that is not given is as in
    /// `default`.
    pub fn new(
        name: Option<String>,
        rule_ext_config: Option<RuleExtConfig>,
        threshold: Option<Threshold>,
    ) -> (r: Self)
        ensures
            r@ == (NonNullView {
                name: match name {
                    Some(n) => n@,
                    None => Seq::<char>::empty(),
                },
                rule_ext_config: match rule_ext_config {
                    Some(c) => c@,
                    None => RuleExtConfigView::empty(),
                },
                threshold: match threshold {
                    Some(t) => t@,
                    None => "1"@,
                },
            }),
    {
        Self {
            name: name_or_empty(name),
            rule_ext_config: config_or_empty(rule_ext_config),
            threshold: threshold_or_one(threshold),
        }
    }
}

impl ValidColumnRule for NonNull {
    open spec fn verdict(&self, column: ColumnDefView) -> Result<Seq<char>, ColumnValidationErrorView> {
        Ok(valid_text())
    }

    fn validate_col_type(&self, column: &ColumnDef) -> (r: Result<String, ColumnValidationError>) {
        Ok("valid".to_owned())
    }
}

/// What a `NotEmpty` holds, as plain values.
pub struct NotEmptyView {
    pub name: Seq<char>,
    pub rule_ext_config: RuleExtConfigView,
    pub threshold: Seq<char>,
}

/// A rule that most values are longer than nothing.
#[derive(Debug, PartialEq)]
pub struct NotEmpty {
    pub name: String,
    pub rule_ext_config: RuleExtConfig,
    pub threshold: Threshold,
}

impl View for NotEmpty {
    type V = NotEmptyView;

    open spec fn view(&self) -> NotEmptyView {
        NotEmptyView {
            name: self.name@,
            rule_ext_config: self.rule_ext_config@,
            threshold: self.threshold@,
        }
    }
}

impl NotEmptyView {
    /// The rule as it is where nothing was given.
    pub open spec fn initial() -> NotEmptyView {
        NotEmptyView {
            name: Seq::empty(),
            rule_ext_config: RuleExtConfigView::empty(),
            threshold: "1"@,
        }
    }
}

impl Default for NotEmpty {
    fn default() -> (r: Self)
        ensures
            r@ == NotEmptyView::initial(),
    {
        Self {
            name: String::new(),
            rule_ext_config: RuleExtConfig::new_empty(),
            threshold: Threshold::one(),
        }
    }
}

impl Clone for NotEmpty {
    fn clone(&self) -> (r: Self)
        ensures
            r@ == self@,
    {
        Self {
            name: self.name.clone(),
            rule_ext_config: self.rule_ext_config.clone(),
            threshold: self.threshold.clone(),
        }
    }
}

impl NotEmpty {
    /// The rule with the given parts; a part that is not given is as in
    /// `default`.
    pub fn new(
        name: Option<String>,
        rule_ext_config: Option<RuleExtConfig>,
        threshold: Option<Threshold>,
    ) -> (r: Self)
        ensures
            r@ == (NotEmptyView {
                name: match name {
                    Some(n) => n@,
                    None => Seq::<char>::empty(),
                },
                rule_ext_config: match rule_ext_config {
                    Some(c) => c@,
                    None => RuleExtConfigView::empty(),
                },
                threshold: match threshold {
                    Some(t) => t@,
                    None => "1"@,
                },
            }),
    {
        Self {
            name: name_or_empty(name),
            rule_ext_config: config_or_empty(rule_ext_config),
            threshold: threshold_or_one(threshold),
        }
    }
}

impl ValidColumnRule for NotEmpty {
    open spec fn verdict(&self, column: ColumnDefView) -> Result<Seq<char>, ColumnValidationErrorView> {
        string_like_verdict(column, "not empty rule"@)
    }

    fn validate_col_type(&self, column: &ColumnDef) -> (r: Result<String, ColumnValidationError>) {
        require_string_like(column, "not empty rule")
    }
}

/// What a `Uniqueness` holds, as plain values.
pub struct UniquenessView {
    pub name: Seq<char>,
    pub rule_ext_config: RuleExtConfigView,
}

/// A rule that no value occurs twice.
#[derive(Debug, PartialEq)]
pub struct Uniqueness {
    pub name: String,
    pub rule_ext_config: RuleExtConfig,
}

impl View for Uniqueness {
    type V = UniquenessView;

    open spec fn view(&self) -> UniquenessView {
        UniquenessView {
            name: self.name@,
            rule_ext_config: self.rule_ext_config@,
        }
    }
}

impl UniquenessView {
    /// The rule as it is where nothing was given.
    pub open spec fn initial() -> UniquenessView {
        UniquenessView {
            name: Seq::empty(),
            rule_ext_config: RuleExtConfigView::empty(),
        }
    }
}

impl Default for Uniqueness {
    fn default() -> (r: Self)
        ensures
            r@ == UniquenessView::initial(),
    {
        Self {
            name: String::new(),
            rule_ext_config: RuleExtConfig::new_empty(),
        }
    }
}

impl Clone for Uniqueness {
    fn clone(&self) -> (r: Self)
        ensures
            r@ == self@,
    {
        Self {
            name: self.name.clone(),
            rule_ext_config: self.rule_ext_config.clone(),
        }
    }
}

impl Uniqueness {
    /// The rule with the given parts; a part that is not given is as in
    /// `default`.
    pub fn new(
        name: Option<String>,
        rule_ext_config: Option<RuleExtConfig>,
    ) -> (r: Self)
        ensures
            r@ == (UniquenessView {
                name: match name {
                    Some(n) => n@,
                    None => Seq::<char>::empty(),
                },
                rule_ext_config: match rule_ext_config {
                    Some(c) => c@,
                    None => RuleExtConfigView::empty(),
                },
            }),
    {
        Self {
            name: name_or_empty(name),
            rule_ext_config: config_or_empty(rule_ext_config),
        }
    }
}

impl ValidColumnRule for Uniqueness {
    open spec fn verdict(&self, column: ColumnDefView) -> Result<Seq<char>, ColumnValidationErrorView> {
        Ok(valid_text())
    }

    fn validate_col_type(&self, column: &ColumnDef) -> (r: Result<String, ColumnValidationError>) {
        Ok("valid".to_owned())
    }
}

/// What a `IsType` holds, as plain values.
pub struct IsTypeView {
    pub name: Seq<char>,
    pub data_type: DataType,
    pub rule_ext_config: RuleExtConfigView,
}

/// A rule that the values are of a given type.
#[derive(Debug, PartialEq)]
pub struct IsType {
    pub name: String,
    pub data_type: DataType,
    pub rule_ext_config: RuleExtConfig,
}

impl View for IsType {
    type V = IsTypeView;

    open spec fn view(&self) -> IsTypeView {
        IsTypeView {
            name: self.name@,
            data_type: self.data_type,
            rule_ext_config: self.rule_ext_config@,
        }
    }
}

impl IsTypeView {
    /// The rule as it is where nothing was given.
    pub open spec fn initial() -> IsTypeView {
        IsTypeView {
            name: Seq::empty(),
            data_type: DataType { class: DataClass::VarChar, size: Some([Some(3u32), None]) },
            rule_ext_config: RuleExtConfigView::empty(),
        }
    }
}

impl Default for IsType {
    fn default() -> (r: Self)
        ensures
            r@ == IsTypeView::initial(),
    {
        Self {
            name: String::new(),
            data_type: DataType { class: DataClass::VarChar, size: Some([Some(3u32), None]) },
            rule_ext_config: RuleExtConfig::new_empty(),
        }
    }
}

impl Clone for IsType {
    fn clone(&self) -> (r: Self)
        ensures
            r@ == self@,
    {
        Self {
            name: self.name.clone(),
            data_type: self.data_type,
            rule_ext_config: self.rule_ext_config.clone(),
        }
    }
}

impl IsType {
    /// The rule with the given parts; a part that is not given is as in
    /// `default`.
    pub fn new(
        name: Option<String>,
        data_type: DataType,
        rule_ext_config: Option<RuleExtConfig>,
    ) -> (r: Self)
        ensures
            r@ == (IsTypeView {
                name: match name {
                    Some(n) => n@,
                    None => Seq::<char>::empty(),
                },
                data_type: data_type,
                rule_ext_config: match rule_ext_config {
                    Some(c) => c@,
                    None => RuleExtConfigView::empty(),
                },
            }),
    {
        Self {
            name: name_or_empty(name),
            data_type,
            rule_ext_config: config_or_empty(rule_ext_config),
        }
    }
}

impl ValidColumnRule for IsType {
    open spec fn verdict(&self, column: ColumnDefView) -> Result<Seq<char>, ColumnValidationErrorView> {
        Ok(valid_text())
    }

    fn validate_col_type(&self, column: &ColumnDef) -> (r: Result<String, ColumnValidationError>) {
        Ok("valid".to_owned())
    }
}

/// What a `ColumnRule` holds, as plain values.
pub enum ColumnRuleView {
    LikePattern(LikePatternView),
    RegexPattern(RegexPatternView),
    ContainsValue(ContainsValueView),
    NonNull(NonNullView),
    NotEmpty(NotEmptyView),
    Uniqueness(UniquenessView),
    IsType(IsTypeView),
}

/// A rule on the values of one column.
#[derive(Debug, PartialEq)]
pub enum ColumnRule {
    LikePattern(LikePattern),
    RegexPattern(RegexPattern),
    ContainsValue(ContainsValue),
    NonNull(NonNull),
    NotEmpty(NotEmpty),
    Uniqueness(Uniqueness),
    IsType(IsType),
}

impl View for ColumnRule {
    type V = ColumnRuleView;

    open spec fn view(&self) -> ColumnRuleView {
        match self {
            ColumnRule::LikePattern(rule) => ColumnRuleView::LikePattern(rule@),
            ColumnRule::RegexPattern(rule) => ColumnRuleView::RegexPattern(rule@),
            ColumnRule::ContainsValue(rule) => ColumnRuleView::ContainsValue(rule@),
            ColumnRule::NonNull(rule) => ColumnRuleView::NonNull(rule@),
            ColumnRule::NotEmpty(rule) => ColumnRuleView::NotEmpty(rule@),
            ColumnRule::Uniqueness(rule) => ColumnRuleView::Uniqueness(rule@),
            ColumnRule::IsType(rule) => ColumnRuleView::IsType(rule@),
        }
    }
}

impl Clone for ColumnRule {
    fn clone(&self) -> (r: Self)
        ensures
            r@ == self@,
    {
        match self {
            ColumnRule::LikePattern(rule) => ColumnRule::LikePattern(rule.clone()),
            ColumnRule::RegexPattern(rule) => ColumnRule::RegexPattern(rule.clone()),
            ColumnRule::ContainsValue(rule) => ColumnRule::ContainsValue(rule.clone()),
            ColumnRule::NonNull(rule) => ColumnRule::NonNull(rule.clone()),
            ColumnRule::NotEmpty(rule) => ColumnRule::NotEmpty(rule.clone()),
            ColumnRule::Uniqueness(rule) => ColumnRule::Uniqueness(rule.clone()),
            ColumnRule::IsType(rule) => ColumnRule::IsType(rule.clone()),
        }
    }
}

impl ColumnRuleView {
    /// Whether the rule can only be checked on a string-like column.
    pub open spec fn wants_string_like(self) -> bool {
        self is LikePattern || self is RegexPattern || self is ContainsValue || self is NotEmpty
    }

    /// The verdict of the rule on `column`: the pattern rules, the value
    /// rule and the not-empty rule want a string-like column; the others
    /// take any.
    pub open spec fn verdict(self, column: ColumnDefView) -> Result<
        Seq<char>,
        ColumnValidationErrorView,
    > {
        match self {
            ColumnRuleView::LikePattern(_) => string_like_verdict(column, "like pattern rule"@),
            ColumnRuleView::RegexPattern(_) => string_like_verdict(column, "contains regex rule"@),
            ColumnRuleView::ContainsValue(_) => string_like_verdict(column, "contains value rule"@),
            ColumnRuleView::NonNull(_) => Ok(valid_text()),
            ColumnRuleView::NotEmpty(_) => string_like_verdict(column, "not empty rule"@),
            ColumnRuleView::Uniqueness(_) => Ok(valid_text()),
            ColumnRuleView::IsType(_) => Ok(valid_text()),
        }
    }
}

impl ValidColumnRule for ColumnRule {
    open spec fn verdict(&self, column: ColumnDefView) -> Result<Seq<char>, ColumnValidationErrorView> {
        self@.verdict(column)
    }

    fn validate_col_type(&self, column: &ColumnDef) -> (r: Result<String, ColumnValidationError>) {
        match self {
            ColumnRule::LikePattern(rule) => rule.validate_col_type(column),
            ColumnRule::RegexPattern(rule) => rule.validate_col_type(column),
            ColumnRule::ContainsValue(rule) => rule.validate_col_type(column),
            ColumnRule::NonNull(rule) => rule.validate_col_type(column),
            ColumnRule::NotEmpty(rule) => rule.validate_col_type(column),
            ColumnRule::Uniqueness(rule) => rule.validate_col_type(column),
            ColumnRule::IsType(rule) => rule.validate_col_type(column),
        }
    }
}

/// A rule is accepted exactly when it takes any column or the column is
/// string-like.
pub proof fn lemma_type_gating(rule: ColumnRuleView, column: ColumnDefView)
    ensures
        rule.verdict(column) is Ok <==> (!rule.wants_string_like()
            || column.data_type.class.string_like()),
{
}

/// The views of a list of rules.
pub open spec fn rule_views(rules: Seq<ColumnRule>) -> Seq<ColumnRuleView> {
    rules.map_values(|r: ColumnRule| r@)
}

/// A copy of a list of rules.
pub fn clone_rules(rules: &Vec<ColumnRule>) -> (r: Vec<ColumnRule>)
    ensures
        rule_views(r@) == rule_views(rules@),
{
    let mut out: Vec<ColumnRule> = Vec::new();
    let mut i: usize = 0;
    while i < rules.len()
        invariant
            i <= rules.len(),
            out.len() == i,
            forall|j: int| 0 <= j < i ==> out@[j]@ == rules@[j]@,
        decreases rules.len() - i,
    {
        out.push(rules[i].clone());
        i += 1;
    }
    assert(rule_views(out@) =~= rule_views(rules@));
    out
}

} // verus!
