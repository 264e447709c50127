//! The grammar of column types: a type name and, between brackets, the
//! sizes that the name takes.
use crate::model::data_class::{DataClass, SizeArity};
use crate::model::table_expr::DataType;
use crate::parser::cursor::{Expected, Failure, Miss, Source, SourceView};
use crate::parser::lexer::TokenKind;
use crate::text::{all_digits, number_value, read_number};
use vstd::prelude::*;

verus! {

/// The class that the tokens from `pos` on name, and the index behind the
/// name. `double precision` takes two words, every other name one.
pub open spec fn class_at(src: SourceView, pos: int) -> Option<(DataClass, int)> {
    if src.keyword_at(pos, "double"@) && src.keyword_at(pos + 1, "precision"@) {
        Some((DataClass::DoublePrecision, pos + 2))
    } else if src.kind_at(pos) == Some(TokenKind::Word) {
        match DataClass::named(src.text_at(pos)) {
            Some(class) => Some((class, pos + 1)),
            None => None,
        }
    } else {
        None
    }
}

/// The size that the token with the index `pos` stands for: a number made
/// of digits only, with a value of at most `u32::MAX`.
pub open spec fn size_at(src: SourceView, pos: int) -> Option<u32> {
    if src.kind_at(pos) == Some(TokenKind::Number) && all_digits(src.text_at(pos)) && number_value(
        src.text_at(pos),
    ) <= u32::MAX {
        Some(number_value(src.text_at(pos)) as u32)
    } else {
        None
    }
}

/// The miss at the token with the index `pos`.
pub open spec fn miss(pos: int, expected: Expected) -> Miss {
    Miss { at: pos as usize, expected }
}

/// One size between brackets, from the token with the index `pos` on.
pub open spec fn one_size_at(src: SourceView, pos: int) -> Result<(Seq<u32>, int), Miss> {
    if src.kind_at(pos) != Some(TokenKind::LeftParen) {
        Err(miss(pos, Expected::LeftParen))
    } else if size_at(src, pos + 1).is_none() {
        Err(miss(pos + 1, Expected::Size))
    } else if src.kind_at(pos + 2) != Some(TokenKind::RightParen) {
        Err(miss(pos + 2, Expected::RightParen))
    } else {
        Ok((seq![size_at(src, pos + 1).unwrap()], pos + 3))
    }
}

/// Two sizes between brackets, from the token with the index `pos` on.
pub open spec fn two_sizes_at(src: SourceView, pos: int) -> Result<(Seq<u32>, int), Miss> {
    if src.kind_at(pos) != Some(TokenKind::LeftParen) {
        Err(miss(pos, Expected::LeftParen))
    } else if size_at(src, pos + 1).is_none() {
        Err(miss(pos + 1, Expected::Size))
    } else if src.kind_at(pos + 2) != Some(TokenKind::Comma) {
        Err(miss(pos + 2, Expected::Comma))
    } else if size_at(src, pos + 3).is_none() {
        Err(miss(pos + 3, Expected::Size))
    } else if src.kind_at(pos + 4) != Some(TokenKind::RightParen) {
        Err(miss(pos + 4, Expected::RightParen))
    } else {
        Ok((seq![size_at(src, pos + 1).unwrap(), size_at(src, pos + 3).unwrap()], pos + 5))
    }
}

/// No size, or one or two sizes between brackets, from the token with the
/// index `pos` on.
pub open spec fn optional_sizes_at(src: SourceView, pos: int) -> Result<(Seq<u32>, int), Miss> {
    if src.kind_at(pos) != Some(TokenKind::LeftParen) {
        Ok((Seq::empty(), pos))
    } else if size_at(src, pos + 1).is_none() {
        Err(miss(pos + 1, Expected::Size))
    } else if src.kind_at(pos + 2) == Some(TokenKind::Comma) {
        if size_at(src, pos + 3).is_none() {
            Err(miss(pos + 3, Expected::Size))
        } else if src.kind_at(pos + 4) != Some(TokenKind::RightParen) {
            Err(miss(pos + 4, Expected::RightParen))
        } else {
            Ok((seq![size_at(src, pos + 1).unwrap(), size_at(src, pos + 3).unwrap()], pos + 5))
        }
    } else if src.kind_at(pos + 2) != Some(TokenKind::RightParen) {
        Err(miss(pos + 2, Expected::CommaOrRightParen))
    } else {
        Ok((seq![size_at(src, pos + 1).unwrap()], pos + 3))
    }
}

/// The sizes that a type of the arity `arity` takes, from the token with
/// the index `pos` on, and the index behind them.
pub open spec fn sizes_at(src: SourceView, pos: int, arity: SizeArity) -> Result<
    (Seq<u32>, int),
    Miss,
> {
    match arity {
        SizeArity::NoSize => Ok((Seq::empty(), pos)),
        SizeArity::OneSize => one_size_at(src, pos),
        SizeArity::TwoSizes => two_sizes_at(src, pos),
        SizeArity::BothSizes => optional_sizes_at(src, pos),
    }
}

/// The column type that the tokens from `pos` on spell, and the index
/// behind it: a type name, then as many sizes as the name takes.
pub open spec fn data_type_at(src: SourceView, pos: int) -> Result<(DataType, int), Miss> {
    match class_at(src, pos) {
        None => Err(miss(pos, Expected::TypeName)),
        Some((class, next)) => match class.arity() {
            None => Err(miss(pos, Expected::TypeName)),
            Some(arity) => match sizes_at(src, next, arity) {
                Err(m) => Err(m),
                Ok((sizes, end)) => Ok((DataType::with_sizes(class, sizes), end)),
            },
        },
    }
}

/// The column type that `text` spells, or why it spells none.
pub open spec fn data_type_of(text: Seq<char>) -> Result<DataType, Failure> {
    let src = SourceView::of(text);
    match data_type_at(src, 0) {
        Err(m) => Err(src.failure(m)),
        Ok((data_type, end)) => match src.finish(end) {
            Some(failure) => Err(failure),
            None => Ok(data_type),
        },
    }
}

/// Reads a type name.
pub fn read_class(src: &Source, pos: usize) -> (r: Option<(DataClass, usize)>)
    requires
        src@.wf(),
    ensures
        match r {
            Some((class, next)) => class_at(src@, pos as int) == Some((class, next as int)),
            None => class_at(src@, pos as int).is_none(),
        },
{
    if pos < src.len() && src.is_keyword(pos, "double") && src.is_keyword(pos + 1, "precision") {
        Some((DataClass::DoublePrecision, pos + 2))
    } else if pos < src.len() && src.is_kind(pos, TokenKind::Word) {
        let t = src.tokens[pos];
        match DataClass::from_word(&src.chars, t.start, t.end) {
            Some(class) => Some((class, pos + 1)),
            None => None,
        }
    } else {
        None
    }
}

/// Reads a size.
pub fn read_size(src: &Source, pos: usize) -> (r: Option<u32>)
    requires
        src@.wf(),
    ensures
        r == size_at(src@, pos as int),
{
    if src.is_kind(pos, TokenKind::Number) {
        let t = src.tokens[pos];
        read_number(&src.chars, t.start, t.end)
    } else {
        None
    }
}

/// The miss at the token with the index `pos`.
pub fn missed(pos: usize, expected: Expected) -> (m: Miss)
    ensures
        m == miss(pos as int, expected),
{
    Miss { at: pos, expected }
}

/// Whether the computed sizes and index are those of `spec`.
pub open spec fn sizes_match(
    r: Result<(Vec<u32>, usize), Miss>,
    spec: Result<(Seq<u32>, int), Miss>,
) -> bool {
    match r {
        Ok((sizes, end)) => spec == Ok::<(Seq<u32>, int), Miss>((sizes@, end as int)),
        Err(m) => spec == Err::<(Seq<u32>, int), Miss>(m),
    }
}

/// Reads the sizes of a type of the arity `arity`.
pub fn read_sizes(src: &Source, pos: usize, arity: SizeArity) -> (r: Result<
    (Vec<u32>, usize),
    Miss,
>)
    requires
        src@.wf(),
        pos <= src@.tokens.len(),
    ensures
        sizes_match(r, sizes_at(src@, pos as int, arity)),
        r matches Ok((sizes, end)) ==> sizes.len() <= 2 && pos <= end <= src@.tokens.len()
            && arity.admits(sizes.len() as nat),
{
    let mut sizes: Vec<u32> = Vec::new();
    if matches!(arity, SizeArity::NoSize) {
        return Ok((sizes, pos));
    }
    if !src.is_kind(pos, TokenKind::LeftParen) {
        if matches!(arity, SizeArity::BothSizes) {
            return Ok((sizes, pos));
        }
        return Err(missed(pos, Expected::LeftParen));
    }
    let first = match read_size(src, pos + 1) {
        Some(n) => n,
        None => {
            return Err(missed(pos + 1, Expected::Size));
        },
    };
    sizes.push(first);
    let two = match arity {
        SizeArity::OneSize => false,
        SizeArity::TwoSizes => true,
        _ => src.is_kind(pos + 2, TokenKind::Comma),
    };
    if two {
        if !src.is_kind(pos + 2, TokenKind::Comma) {
            return Err(missed(pos + 2, Expected::Comma));
        }
        let second = match read_size(src, pos + 3) {
            Some(n) => n,
            None => {
                return Err(missed(pos + 3, Expected::Size));
            },
        };
        sizes.push(second);
        if !src.is_kind(pos + 4, TokenKind::RightParen) {
            return Err(missed(pos + 4, Expected::RightParen));
        }
        assert(sizes@ == seq![first, second]);
        Ok((sizes, pos + 5))
    } else {
        if !src.is_kind(pos + 2, TokenKind::RightParen) {
            if matches!(arity, SizeArity::BothSizes) {
                return Err(missed(pos + 2, Expected::CommaOrRightParen));
            }
            return Err(missed(pos + 2, Expected::RightParen));
        }
        assert(sizes@ == seq![first]);
        Ok((sizes, pos + 3))
    }
}

/// Whether the computed type and index are those of `spec`.
pub open spec fn data_type_matches(
    r: Result<(DataType, usize), Miss>,
    spec: Result<(DataType, int), Miss>,
) -> bool {
    match r {
        Ok((data_type, end)) => spec == Ok::<(DataType, int), Miss>((data_type, end as int)),
        Err(m) => spec == Err::<(DataType, int), Miss>(m),
    }
}

/// Reads a column type from the token with the index `pos` on.
pub fn read_data_type(src: &Source, pos: usize) -> (r: Result<(DataType, usize), Miss>)
    requires
        src@.wf(),
        pos <= src@.tokens.len(),
    ensures
        data_type_matches(r, data_type_at(src@, pos as int)),
        r matches Ok((_, end)) ==> pos < end <= src@.tokens.len(),
{
    let (class, next) = match read_class(src, pos) {
        Some(found) => found,
        None => {
            return Err(missed(pos, Expected::TypeName));
        },
    };
    let arity = match class.size_arity() {
        Some(arity) => arity,
        None => {
            return Err(missed(pos, Expected::TypeName));
        },
    };
    match read_sizes(src, next, arity) {
        Err(m) => Err(m),
        Ok((sizes, end)) => {
            let data_type = if sizes.len() == 0 {
                DataType { class, size: None }
            } else if sizes.len() == 1 {
                DataType { class, size: Some([Some(sizes[0]), None]) }
            } else {
                DataType { class, size: Some([Some(sizes[0]), Some(sizes[1])]) }
            };
            Ok((data_type, end))
        },
    }
}

/// Reads the column type that `text` spells.
pub fn parse_data_type(text: &str) -> (r: Result<DataType, Failure>)
    ensures
        r == data_type_of(text@),
{
    let src = Source::new(text);
    match read_data_type(&src, 0) {
        Err(m) => Err(src.fail(m)),
        Ok((data_type, end)) => match src.finish(end) {
            Some(failure) => Err(failure),
            None => Ok(data_type),
        },
    }
}

} // verus!
