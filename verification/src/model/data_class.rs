//! The closed set of column type names and their families.
use crate::text::{ascii_lower, spells};
use vstd::prelude::*;

verus! {

/// A column type name.
///
/// `Unknown` stands for a type that was never set. `String` is the generic
/// string type of targets that know no narrower one; no source text names it.
#[derive(Clone, Copy, Debug, PartialEq, Eq, Structural)]
#[allow(dead_code)]
pub enum DataClass {
    Unknown,
    // Boolean types
    Bit,
    Bool,
    // String types
    Char,
    VarChar,
    Binary,
    VarBinary,
    TinyBlob,
    TinyText,
    Text,
    Blob,
    MediumText,
    MediumBlob,
    LongText,
    LongBlob,
    // Numeric types
    TinyInt,
    SmallInt,
    MediumInt,
    Int,
    Integer,
    BigInt,
    Float,
    Double,
    DoublePrecision,
    Decimal,
    Dec,
    // Dates
    Date,
    Time,
    DateTime,
    Timestamp,
    Year,
    // Target-side generic string
    String,
}

/// How many size arguments a type name takes.
#[derive(Clone, Copy, Debug, PartialEq, Eq, Structural)]
pub enum SizeArity {
    /// The bare name only.
    NoSize,
    /// Exactly one size.
    OneSize,
    /// Exactly two sizes.
    TwoSizes,
    /// No size, one size or two sizes.
    BothSizes,
}

impl SizeArity {
    /// Whether a type of this arity may be written with `count` sizes.
    pub open spec fn admits(self, count: nat) -> bool {
        match self {
            SizeArity::NoSize => count == 0,
            SizeArity::OneSize => count == 1,
            SizeArity::TwoSizes => count == 2,
            SizeArity::BothSizes => count <= 2,
        }
    }

    /// Whether a type of this arity may be written with `count` sizes.
    pub fn accepts(self, count: usize) -> (r: bool)
        ensures
            r == self.admits(count as nat),
    {
        match self {
            SizeArity::NoSize => count == 0,
            SizeArity::OneSize => count == 1,
            SizeArity::TwoSizes => count == 2,
            SizeArity::BothSizes => count <= 2,
        }
    }
}

impl Default for DataClass {
    fn default() -> (r: Self)
        ensures
            r == DataClass::Unknown,
    {
        DataClass::Unknown
    }
}

impl DataClass {
    /// Character, binary, text and blob types, and the generic string.
    pub open spec fn string_like(&self) -> bool {
        matches!(
            self,
            DataClass::Char
            | DataClass::VarChar
            | DataClass::Binary
            | DataClass::VarBinary
            | DataClass::TinyBlob
            | DataClass::TinyText
            | DataClass::Text
            | DataClass::Blob
            | DataClass::MediumText
            | DataClass::MediumBlob
            | DataClass::LongText
            | DataClass::LongBlob
            | DataClass::String
        )
    }

    /// The truth-value types.
    pub open spec fn boolean_like(&self) -> bool {
        matches!(self, DataClass::Bit | DataClass::Bool)
    }

    /// Types that hold a fractional number.
    pub open spec fn fraction_like(&self) -> bool {
        matches!(
            self,
            DataClass::Float
            | DataClass::Double
            | DataClass::DoublePrecision
            | DataClass::Decimal
            | DataClass::Dec
        )
    }

    /// Types that hold a number, whole or fractional.
    pub open spec fn numeric_like(&self) -> bool {
        matches!(
            self,
            DataClass::TinyInt
            | DataClass::SmallInt
            | DataClass::MediumInt
            | DataClass::Int
            | DataClass::Integer
            | DataClass::BigInt
            | DataClass::Float
            | DataClass::Double
            | DataClass::DoublePrecision
            | DataClass::Decimal
            | DataClass::Dec
        )
    }

    /// Date and time types.
    pub open spec fn date_like(&self) -> bool {
        matches!(
            self,
            DataClass::Date
            | DataClass::Time
            | DataClass::DateTime
            | DataClass::Timestamp
            | DataClass::Year
        )
    }

    /// Whether the class is a character, binary, text or blob type, or the
    /// generic string.
    #[verifier::when_used_as_spec(string_like)]
    pub fn is_string_like(&self) -> (r: bool)
        ensures
            r == self.string_like(),
    {
        matches!(
            self,
            DataClass::Char
            | DataClass::VarChar
            | DataClass::Binary
            | DataClass::VarBinary
            | DataClass::TinyBlob
            | DataClass::TinyText
            | DataClass::Text
            | DataClass::Blob
            | DataClass::MediumText
            | DataClass::MediumBlob
            | DataClass::LongText
            | DataClass::LongBlob
            | DataClass::String
        )
    }

    /// Whether the class is a truth-value type.
    #[verifier::when_used_as_spec(boolean_like)]
    pub fn is_boolean_like(&self) -> (r: bool)
        ensures
            r == self.boolean_like(),
    {
        matches!(self, DataClass::Bit | DataClass::Bool)
    }

    /// Whether the class holds a fractional number.
    #[verifier::when_used_as_spec(fraction_like)]
    pub fn is_fraction_like(&self) -> (r: bool)
        ensures
            r == self.fraction_like(),
    {
        matches!(
            self,
            DataClass::Float
            | DataClass::Double
            | DataClass::DoublePrecision
            | DataClass::Decimal
            | DataClass::Dec
        )
    }

    /// Whether the class holds a number, whole or fractional.
    #[verifier::when_used_as_spec(numeric_like)]
    pub fn is_numeric_like(&self) -> (r: bool)
        ensures
            r == self.numeric_like(),
    {
        matches!(
            self,
            DataClass::TinyInt
            | DataClass::SmallInt
            | DataClass::MediumInt
            | DataClass::Int
            | DataClass::Integer
            | DataClass::BigInt
            | DataClass::Float
            | DataClass::Double
            | DataClass::DoublePrecision
            | DataClass::Decimal
            | DataClass::Dec
        )
    }

    /// Whether the class is a date or time type.
    #[verifier::when_used_as_spec(date_like)]
    pub fn is_date_like(&self) -> (r: bool)
        ensures
            r == self.date_like(),
    {
        matches!(
            self,
            DataClass::Date
            | DataClass::Time
            | DataClass::DateTime
            | DataClass::Timestamp
            | DataClass::Year
        )
    }

    /// The families are disjoint, but for the fractional types, which are
    /// numeric as well.
    pub proof fn lemma_families(self)
        ensures
            self.fraction_like() ==> self.numeric_like(),
            !(self.string_like() && self.numeric_like()),
            !(self.string_like() && self.boolean_like()),
            !(self.string_like() && self.date_like()),
            !(self.numeric_like() && self.boolean_like()),
            !(self.numeric_like() && self.date_like()),
            !(self.boolean_like() && self.date_like()),
    {
    }

    /// The name of the variant, as it is printed.
    pub open spec fn name(self) -> Seq<char> {
        match self {
            DataClass::Unknown => "Unknown"@,
            DataClass::Bit => "Bit"@,
            DataClass::Bool => "Bool"@,
            DataClass::Char => "Char"@,
            DataClass::VarChar => "VarChar"@,
            DataClass::Binary => "Binary"@,
            DataClass::VarBinary => "VarBinary"@,
            DataClass::TinyBlob => "TinyBlob"@,
            DataClass::TinyText => "TinyText"@,
            DataClass::Text => "Text"@,
            DataClass::Blob => "Blob"@,
            DataClass::MediumText => "MediumText"@,
            DataClass::MediumBlob => "MediumBlob"@,
            DataClass::LongText => "LongText"@,
            DataClass::LongBlob => "LongBlob"@,
            DataClass::TinyInt => "TinyInt"@,
            DataClass::SmallInt => "SmallInt"@,
            DataClass::MediumInt => "MediumInt"@,
            DataClass::Int => "Int"@,
            DataClass::Integer => "Integer"@,
            DataClass::BigInt => "BigInt"@,
            DataClass::Float => "Float"@,
            DataClass::Double => "Double"@,
            DataClass::DoublePrecision => "DoublePrecision"@,
            DataClass::Decimal => "Decimal"@,
            DataClass::Dec => "Dec"@,
            DataClass::Date => "Date"@,
            DataClass::Time => "Time"@,
            DataClass::DateTime => "DateTime"@,
            DataClass::Timestamp => "Timestamp"@,
            DataClass::Year => "Year"@,
            DataClass::String => "String"@,
        }
    }

    /// The name of the variant.
    pub fn to_string(&self) -> (s: String)
        ensures
            s@ == self.name(),
    {
        match self {
            DataClass::Unknown => "Unknown".to_owned(),
            DataClass::Bit => "Bit".to_owned(),
            DataClass::Bool => "Bool".to_owned(),
            DataClass::Char => "Char".to_owned(),
            DataClass::VarChar => "VarChar".to_owned(),
            DataClass::Binary => "Binary".to_owned(),
            DataClass::VarBinary => "VarBinary".to_owned(),
            DataClass::TinyBlob => "TinyBlob".to_owned(),
            DataClass::TinyText => "TinyText".to_owned(),
            DataClass::Text => "Text".to_owned(),
            DataClass::Blob => "Blob".to_owned(),
            DataClass::MediumText => "MediumText".to_owned(),
            DataClass::MediumBlob => "MediumBlob".to_owned(),
            DataClass::LongText => "LongText".to_owned(),
            DataClass::LongBlob => "LongBlob".to_owned(),
            DataClass::TinyInt => "TinyInt".to_owned(),
            DataClass::SmallInt => "SmallInt".to_owned(),
            DataClass::MediumInt => "MediumInt".to_owned(),
            DataClass::Int => "Int".to_owned(),
            DataClass::Integer => "Integer".to_owned(),
            DataClass::BigInt => "BigInt".to_owned(),
            DataClass::Float => "Float".to_owned(),
            DataClass::Double => "Double".to_owned(),
            DataClass::DoublePrecision => "DoublePrecision".to_owned(),
            DataClass::Decimal => "Decimal".to_owned(),
            DataClass::Dec => "Dec".to_owned(),
            DataClass::Date => "Date".to_owned(),
            DataClass::Time => "Time".to_owned(),
            DataClass::DateTime => "DateTime".to_owned(),
            DataClass::Timestamp => "Timestamp".to_owned(),
            DataClass::Year => "Year".to_owned(),
            DataClass::String => "String".to_owned(),
        }
    }

    /// How many sizes the type takes in source text; `None` for the two
    /// classes that no source text names.
    pub open spec fn arity(self) -> Option<SizeArity> {
        match self {
            DataClass::Unknown => None,
            DataClass::Bit => Some(SizeArity::OneSize),
            DataClass::Bool => Some(SizeArity::NoSize),
            DataClass::Char => Some(SizeArity::OneSize),
            DataClass::VarChar => Some(SizeArity::OneSize),
            DataClass::Binary => Some(SizeArity::OneSize),
            DataClass::VarBinary => Some(SizeArity::OneSize),
            DataClass::TinyBlob => Some(SizeArity::NoSize),
            DataClass::TinyText => Some(SizeArity::NoSize),
            DataClass::Text => Some(SizeArity::OneSize),
            DataClass::Blob => Some(SizeArity::OneSize),
            DataClass::MediumText => Some(SizeArity::NoSize),
            DataClass::MediumBlob => Some(SizeArity::NoSize),
            DataClass::LongText => Some(SizeArity::NoSize),
            DataClass::LongBlob => Some(SizeArity::NoSize),
            DataClass::TinyInt => Some(SizeArity::OneSize),
            DataClass::SmallInt => Some(SizeArity::OneSize),
            DataClass::MediumInt => Some(SizeArity::OneSize),
            DataClass::Int => Some(SizeArity::OneSize),
            DataClass::Integer => Some(SizeArity::OneSize),
            DataClass::BigInt => Some(SizeArity::OneSize),
            DataClass::Float => Some(SizeArity::BothSizes),
            DataClass::Double => Some(SizeArity::TwoSizes),
            DataClass::DoublePrecision => Some(SizeArity::TwoSizes),
            DataClass::Decimal => Some(SizeArity::TwoSizes),
            DataClass::Dec => Some(SizeArity::TwoSizes),
            DataClass::Date => Some(SizeArity::NoSize),
            DataClass::Time => Some(SizeArity::NoSize),
            DataClass::DateTime => Some(SizeArity::NoSize),
            DataClass::Timestamp => Some(SizeArity::NoSize),
            DataClass::Year => Some(SizeArity::NoSize),
            DataClass::String => None,
        }
    }

    /// How many sizes the type takes in source text.
    pub fn size_arity(&self) -> (r: Option<SizeArity>)
        ensures
            r == self.arity(),
    {
        match self {
            DataClass::Unknown => None,
            DataClass::Bit => Some(SizeArity::OneSize),
            DataClass::Bool => Some(SizeArity::NoSize),
            DataClass::Char => Some(SizeArity::OneSize),
            DataClass::VarChar => Some(SizeArity::OneSize),
            DataClass::Binary => Some(SizeArity::OneSize),
            DataClass::VarBinary => Some(SizeArity::OneSize),
            DataClass::TinyBlob => Some(SizeArity::NoSize),
            DataClass::TinyText => Some(SizeArity::NoSize),
            DataClass::Text => Some(SizeArity::OneSize),
            DataClass::Blob => Some(SizeArity::OneSize),
            DataClass::MediumText => Some(SizeArity::NoSize),
            DataClass::MediumBlob => Some(SizeArity::NoSize),
            DataClass::LongText => Some(SizeArity::NoSize),
            DataClass::LongBlob => Some(SizeArity::NoSize),
            DataClass::TinyInt => Some(SizeArity::OneSize),
            DataClass::SmallInt => Some(SizeArity::OneSize),
            DataClass::MediumInt => Some(SizeArity::OneSize),
            DataClass::Int => Some(SizeArity::OneSize),
            DataClass::Integer => Some(SizeArity::OneSize),
            DataClass::BigInt => Some(SizeArity::OneSize),
            DataClass::Float => Some(SizeArity::BothSizes),
            DataClass::Double => Some(SizeArity::TwoSizes),
            DataClass::DoublePrecision => Some(SizeArity::TwoSizes),
            DataClass::Decimal => Some(SizeArity::TwoSizes),
            DataClass::Dec => Some(SizeArity::TwoSizes),
            DataClass::Date => Some(SizeArity::NoSize),
            DataClass::Time => Some(SizeArity::NoSize),
            DataClass::DateTime => Some(SizeArity::NoSize),
            DataClass::Timestamp => Some(SizeArity::NoSize),
            DataClass::Year => Some(SizeArity::NoSize),
            DataClass::String => None,
        }
    }

    /// The class that the single word `word` names, letter case ignored.
    /// `DoublePrecision` is written in two words and is not found here.
    pub open spec fn named(word: Seq<char>) -> Option<DataClass> {
        let w = ascii_lower(word);
        if w == "bit"@ {
            Some(DataClass::Bit)
        }         else if w == "bool"@ {
            Some(DataClass::Bool)
        }         else if w == "char"@ {
            Some(DataClass::Char)
        }         else if w == "varchar"@ {
            Some(DataClass::VarChar)
        }         else if w == "binary"@ {
            Some(DataClass::Binary)
        }         else if w == "varbinary"@ {
            Some(DataClass::VarBinary)
        }         else if w == "tinyblob"@ {
            Some(DataClass::TinyBlob)
        }         else if w == "tinytext"@ {
            Some(DataClass::TinyText)
        }         else if w == "text"@ {
            Some(DataClass::Text)
        }         else if w == "blob"@ {
            Some(DataClass::Blob)
        }         else if w == "mediumtext"@ {
            Some(DataClass::MediumText)
        }         else if w == "mediumblob"@ {
            Some(DataClass::MediumBlob)
        }         else if w == "longtext"@ {
            Some(DataClass::LongText)
        }         else if w == "longblob"@ {
            Some(DataClass::LongBlob)
        }         else if w == "tinyint"@ {
            Some(DataClass::TinyInt)
        }         else if w == "smallint"@ {
            Some(DataClass::SmallInt)
        }         else if w == "mediumint"@ {
            Some(DataClass::MediumInt)
        }         else if w == "int"@ {
            Some(DataClass::Int)
        }         else if w == "integer"@ {
            Some(DataClass::Integer)
        }         else if w == "bigint"@ {
            Some(DataClass::BigInt)
        }         else if w == "float"@ {
            Some(DataClass::Float)
        }         else if w == "double"@ {
            Some(DataClass::Double)
        }         else if w == "decimal"@ {
            Some(DataClass::Decimal)
        }         else if w == "dec"@ {
            Some(DataClass::Dec)
        }         else if w == "date"@ {
            Some(DataClass::Date)
        }         else if w == "time"@ {
            Some(DataClass::Time)
        }         else if w == "datetime"@ {
            Some(DataClass::DateTime)
        }         else if w == "timestamp"@ {
            Some(DataClass::Timestamp)
        }         else if w == "year"@ {
            Some(DataClass::Year)
        } else {
            None
        }
    }

    /// The class that the word `cs[from..to]` names, letter case ignored.
    pub fn from_word(cs: &Vec<char>, from: usize, to: usize) -> (r: Option<DataClass>)
        requires
            from <= to <= cs.len(),
        ensures
            r == Self::named(cs@.subrange(from as int, to as int)),
    {
        if spells(cs, from, to, "bit") {
            Some(DataClass::Bit)
        }         else if spells(cs, from, to, "bool") {
            Some(DataClass::Bool)
        }         else if spells(cs, from, to, "char") {
            Some(DataClass::Char)
        }         else if spells(cs, from, to, "varchar") {
            Some(DataClass::VarChar)
        }         else if spells(cs, from, to, "binary") {
            Some(DataClass::Binary)
        }         else if spells(cs, from, to, "varbinary") {
            Some(DataClass::VarBinary)
        }         else if spells(cs, from, to, "tinyblob") {
            Some(DataClass::TinyBlob)
        }         else if spells(cs, from, to, "tinytext") {
            Some(DataClass::TinyText)
        }         else if spells(cs, from, to, "text") {
            Some(DataClass::Text)
        }         else if spells(cs, from, to, "blob") {
            Some(DataClass::Blob)
        }         else if spells(cs, from, to, "mediumtext") {
            Some(DataClass::MediumText)
        }         else if spells(cs, from, to, "mediumblob") {
            Some(DataClass::MediumBlob)
        }         else if spells(cs, from, to, "longtext") {
            Some(DataClass::LongText)
        }         else if spells(cs, from, to, "longblob") {
            Some(DataClass::LongBlob)
        }         else if spells(cs, from, to, "tinyint") {
            Some(DataClass::TinyInt)
        }         else if spells(cs, from, to, "smallint") {
            Some(DataClass::SmallInt)
        }         else if spells(cs, from, to, "mediumint") {
            Some(DataClass::MediumInt)
        }         else if spells(cs, from, to, "int") {
            Some(DataClass::Int)
        }         else if spells(cs, from, to, "integer") {
            Some(DataClass::Integer)
        }         else if spells(cs, from, to, "bigint") {
            Some(DataClass::BigInt)
        }         else if spells(cs, from, to, "float") {
            Some(DataClass::Float)
        }         else if spells(cs, from, to, "double") {
            Some(DataClass::Double)
        }         else if spells(cs, from, to, "decimal") {
            Some(DataClass::Decimal)
        }         else if spells(cs, from, to, "dec") {
            Some(DataClass::Dec)
        }         else if spells(cs, from, to, "date") {
            Some(DataClass::Date)
        }         else if spells(cs, from, to, "time") {
            Some(DataClass::Time)
        }         else if spells(cs, from, to, "datetime") {
            Some(DataClass::DateTime)
        }         else if spells(cs, from, to, "timestamp") {
            Some(DataClass::Timestamp)
        }         else if spells(cs, from, to, "year") {
            Some(DataClass::Year)
        } else {
            None
        }
    }

    /// The class that `name` names, letter case ignored.
    pub fn from_name(name: &str) -> (r: Option<DataClass>)
        ensures
            r == Self::named(name@),
    {
        let cs = crate::text::chars_of(name);
        assert(cs@.subrange(0, cs.len() as int) == cs@);
        Self::from_word(&cs, 0, cs.len())
    }
}

} // verus!
