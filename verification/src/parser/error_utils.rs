//! The errors of the compiler, and the messages that point at the place of
//! a syntax error.
use crate::parser::cursor::Expected;
use crate::parser::lines::{line_index, line_views, Line, LineView};
use crate::text::{
    append_decimal, append_repeated, append_str, debug_string, debug_text, decimal, decimal_chars,
    join, join_strings, repeated, string_views, chars_of, substring,
};
use vstd::prelude::*;

verus! {

/// What a `DDLxParseError` holds, as plain values.
pub enum DDLxParseErrorView {
    UnknownToken(Seq<char>),
    SyntaxError(Seq<char>),
    ColumnValidationError(Seq<char>),
    InvalidFilterCondition(Seq<char>),
}

/// Why a source text gives no table. Each variant holds its message.
#[derive(Debug, PartialEq)]
pub enum DDLxParseError {
    /// A character with which no token can begin.
    UnknownToken(String),
    /// A token where another was expected, or an end that came too early.
    SyntaxError(String),
    /// A rule that cannot stand on the type of its column.
    ColumnValidationError(String),
    /// A gating condition that is not of the grammar.
    InvalidFilterCondition(String),
}

impl View for DDLxParseError {
    type V = DDLxParseErrorView;

    open spec fn view(&self) -> DDLxParseErrorView {
        match self {
            DDLxParseError::UnknownToken(m) => DDLxParseErrorView::UnknownToken(m@),
            DDLxParseError::SyntaxError(m) => DDLxParseErrorView::SyntaxError(m@),
            DDLxParseError::ColumnValidationError(m) => DDLxParseErrorView::ColumnValidationError(
                m@,
            ),
            DDLxParseError::InvalidFilterCondition(m) => DDLxParseErrorView::InvalidFilterCondition(
                m@,
            ),
        }
    }
}

impl DDLxParseErrorView {
    /// The message of the error.
    pub open spec fn message(self) -> Seq<char> {
        match self {
            DDLxParseErrorView::UnknownToken(m) => m,
            DDLxParseErrorView::SyntaxError(m) => m,
            DDLxParseErrorView::ColumnValidationError(m) => m,
            DDLxParseErrorView::InvalidFilterCondition(m) => m,
        }
    }
}

impl DDLxParseError {
    /// The message of the error.
    pub fn message(&self) -> (s: String)
        ensures
            s@ == self@.message(),
    {
        match self {
            DDLxParseError::UnknownToken(m) => m.clone(),
            DDLxParseError::SyntaxError(m) => m.clone(),
            DDLxParseError::ColumnValidationError(m) => m.clone(),
            DDLxParseError::InvalidFilterCondition(m) => m.clone(),
        }
    }
}

/// The names of what was expected, each between double quotation marks.
pub open spec fn expected_words(expected: Expected) -> Seq<Seq<char>> {
    match expected {
        Expected::Create => seq!["\"CREATE\""@],
        Expected::Table => seq!["\"TABLE\""@],
        Expected::IfOrIdentifier => seq!["\"IF\""@, "\"identifier\""@],
        Expected::Not => seq!["\"NOT\""@],
        Expected::Exists => seq!["\"EXISTS\""@],
        Expected::Identifier => seq!["\"identifier\""@],
        Expected::IdentifierOrRightBrace => seq!["\"identifier\""@, "\"}\""@],
        Expected::DotAliasOrLeftBrace => seq!["\".\""@, "\"string\""@, "\"{\""@],
        Expected::AliasOrLeftBrace => seq!["\"string\""@, "\"{\""@],
        Expected::LeftBrace => seq!["\"{\""@],
        Expected::TypeName => seq!["\"type name\""@],
        Expected::LeftParen => seq!["\"(\""@],
        Expected::Size => seq!["\"size\""@],
        Expected::Comma => seq!["\",\""@],
        Expected::RightParen => seq!["\")\""@],
        Expected::CommaOrRightParen => seq!["\",\""@, "\")\""@],
        Expected::Key => seq!["\"KEY\""@],
        Expected::Null => seq!["\"NULL\""@],
        Expected::AfterType => seq!["\"PRIMARY\""@, "\"NOT\""@, "\"{\""@, "\",\""@, "\"}\""@],
        Expected::AfterPrimaryKey => seq!["\"NOT\""@, "\"{\""@, "\",\""@, "\"}\""@],
        Expected::AfterNotNull => seq!["\"{\""@, "\",\""@, "\"}\""@],
        Expected::CommaOrRightBrace => seq!["\",\""@, "\"}\""@],
        Expected::Dash => seq!["\"-\""@],
        Expected::DashOrRightBrace => seq!["\"-\""@, "\"}\""@],
        Expected::RuleName => seq!["\"LIKE\""@, "\"REGEX\""@, "\"CONTAINS\""@, "\"unique\""@, "\"not_empty\""@],
        Expected::Pattern => seq!["\"string\""@],
        Expected::Threshold => seq!["\"threshold\""@],
        Expected::ThresholdCommaOrRightBrace => seq!["\"threshold\""@, "\",\""@, "\"}\""@],
        Expected::Semicolon => seq!["\";\""@],
        Expected::End => seq!["\"end of input\""@],
    }
}

fn push_word(list: &mut Vec<String>, word: &str)
    ensures
        string_views(final(list)@) == string_views(old(list)@).push(word@),
{
    list.push(word.to_owned());
    assert(string_views(list@) =~= string_views(old(list)@).push(word@));
}

/// The names of what was expected, each between double quotation marks.
pub fn words_of(expected: Expected) -> (list: Vec<String>)
    ensures
        string_views(list@) == expected_words(expected),
        forall|i: int| 0 <= i < list.len() ==> (#[trigger] list@[i])@.len() >= 2,
{
    let mut list: Vec<String> = Vec::new();
    assert(string_views(list@) =~= Seq::empty());
    match expected {
        Expected::Create => {
            push_word(&mut list, "\"CREATE\"");
        },
        Expected::Table => {
            push_word(&mut list, "\"TABLE\"");
        },
        Expected::IfOrIdentifier => {
            push_word(&mut list, "\"IF\"");
            push_word(&mut list, "\"identifier\"");
        },
        Expected::Not => {
            push_word(&mut list, "\"NOT\"");
        },
        Expected::Exists => {
            push_word(&mut list, "\"EXISTS\"");
        },
        Expected::Identifier => {
            push_word(&mut list, "\"identifier\"");
        },
        Expected::IdentifierOrRightBrace => {
            push_word(&mut list, "\"identifier\"");
            push_word(&mut list, "\"}\"");
        },
        Expected::DotAliasOrLeftBrace => {
            push_word(&mut list, "\".\"");
            push_word(&mut list, "\"string\"");
            push_word(&mut list, "\"{\"");
        },
        Expected::AliasOrLeftBrace => {
            push_word(&mut list, "\"string\"");
            push_word(&mut list, "\"{\"");
        },
        Expected::LeftBrace => {
            push_word(&mut list, "\"{\"");
        },
        Expected::TypeName => {
            push_word(&mut list, "\"type name\"");
        },
        Expected::LeftParen => {
            push_word(&mut list, "\"(\"");
        },
        Expected::Size => {
            push_word(&mut list, "\"size\"");
        },
        Expected::Comma => {
            push_word(&mut list, "\",\"");
        },
        Expected::RightParen => {
            push_word(&mut list, "\")\"");
        },
        Expected::CommaOrRightParen => {
            push_word(&mut list, "\",\"");
            push_word(&mut list, "\")\"");
        },
        Expected::Key => {
            push_word(&mut list, "\"KEY\"");
        },
        Expected::Null => {
            push_word(&mut list, "\"NULL\"");
        },
        Expected::AfterType => {
            push_word(&mut list, "\"PRIMARY\"");
            push_word(&mut list, "\"NOT\"");
            push_word(&mut list, "\"{\"");
            push_word(&mut list, "\",\"");
            push_word(&mut list, "\"}\"");
        },
        Expected::AfterPrimaryKey => {
            push_word(&mut list, "\"NOT\"");
            push_word(&mut list, "\"{\"");
            push_word(&mut list, "\",\"");
            push_word(&mut list, "\"}\"");
        },
        Expected::AfterNotNull => {
            push_word(&mut list, "\"{\"");
            push_word(&mut list, "\",\"");
            push_word(&mut list, "\"}\"");
        },
        Expected::CommaOrRightBrace => {
            push_word(&mut list, "\",\"");
            push_word(&mut list, "\"}\"");
        },
        Expected::Dash => {
            push_word(&mut list, "\"-\"");
        },
        Expected::DashOrRightBrace => {
            push_word(&mut list, "\"-\"");
            push_word(&mut list, "\"}\"");
        },
        Expected::RuleName => {
            push_word(&mut list, "\"LIKE\"");
            push_word(&mut list, "\"REGEX\"");
            push_word(&mut list, "\"CONTAINS\"");
            push_word(&mut list, "\"unique\"");
            push_word(&mut list, "\"not_empty\"");
        },
        Expected::Pattern => {
            push_word(&mut list, "\"string\"");
        },
        Expected::Threshold => {
            push_word(&mut list, "\"threshold\"");
        },
        Expected::ThresholdCommaOrRightBrace => {
            push_word(&mut list, "\"threshold\"");
            push_word(&mut list, "\",\"");
            push_word(&mut list, "\"}\"");
        },
        Expected::Semicolon => {
            push_word(&mut list, "\";\"");
        },
        Expected::End => {
            push_word(&mut list, "\"end of input\"");
        },
    }
    proof {
        assert(string_views(list@) =~= expected_words(expected));
        lemma_expected_words_are_quoted(expected);
        assert forall|i: int| 0 <= i < list.len() implies (#[trigger] list@[i])@.len() >= 2 by {
            assert(string_views(list@)[i] == list@[i]@);
            assert(expected_words(expected)[i].len() >= 2);
        }
    }
    list
}

/// Every name of `expected_words` has its two quotation marks.
pub proof fn lemma_expected_words_are_quoted(expected: Expected)
    ensures
        forall|i: int|
            0 <= i < expected_words(expected).len() ==> (#[trigger] expected_words(
                expected,
            )[i]).len() >= 2,
{
    reveal_strlit("\"(\"");
    reveal_strlit("\")\"");
    reveal_strlit("\",\"");
    reveal_strlit("\"-\"");
    reveal_strlit("\".\"");
    reveal_strlit("\";\"");
    reveal_strlit("\"CONTAINS\"");
    reveal_strlit("\"CREATE\"");
    reveal_strlit("\"EXISTS\"");
    reveal_strlit("\"IF\"");
    reveal_strlit("\"KEY\"");
    reveal_strlit("\"LIKE\"");
    reveal_strlit("\"NOT\"");
    reveal_strlit("\"NULL\"");
    reveal_strlit("\"PRIMARY\"");
    reveal_strlit("\"REGEX\"");
    reveal_strlit("\"TABLE\"");
    reveal_strlit("\"end of input\"");
    reveal_strlit("\"identifier\"");
    reveal_strlit("\"not_empty\"");
    reveal_strlit("\"size\"");
    reveal_strlit("\"string\"");
    reveal_strlit("\"threshold\"");
    reveal_strlit("\"type name\"");
    reveal_strlit("\"unique\"");
    reveal_strlit("\"{\"");
    reveal_strlit("\"}\"");
}

/// `word` without its first and its last character.
pub open spec fn stripped(word: Seq<char>) -> Seq<char> {
    word.subrange(1, word.len() - 1)
}

/// The words as a list is printed: between square brackets, with a comma
/// and a blank between neighbours. The words are given as quoted string
/// literals.
pub open spec fn printed_list(quoted: Seq<Seq<char>>) -> Seq<char> {
    "["@ + join(quoted, ", "@) + "]"@
}

/// The words of `expected`, each without its first and last character and
/// written as a quoted string literal.
pub open spec fn quoted_names(expected: Seq<Seq<char>>) -> Seq<Seq<char>> {
    expected.map_values(|w: Seq<char>| debug_text(stripped(w)))
}

/// The message for a character at `location`, in the line `line` with the
/// index `line_number`, with which no token can begin: the line with its
/// number, counted from one, and below it two tildes under the character.
pub open spec fn unknown_token_text(location: int, line_number: int, line: LineView) -> Seq<char> {
    "InvalidToken in line "@ + decimal((line_number + 1) as nat) + ": "@ + line.content
        + ", \n"@ + repeated(
        ' ',
        (location - line.start + 23 + decimal(line_number as nat).len()) as nat,
    ) + "~~"@
}

/// The message for a token from `start` to `end` that could not follow,
/// in the line `line` with the index `line_number`: the token and what was
/// expected in its place, then the line with its number, counted from one,
/// and below it tildes under the token.
pub open spec fn syntax_error_text(
    start: int,
    end: int,
    line_number: int,
    line: LineView,
    quoted_token: Seq<char>,
    quoted_expected: Seq<Seq<char>>,
) -> Seq<char> {
    "SyntaxError in line "@ + decimal((line_number + 1) as nat) + ": Unrecognized token "@
        + quoted_token + " expected "@ + printed_list(quoted_expected) + "\n\t\tline "@ + decimal(
        (line_number + 1) as nat,
    ) + ": "@ + line.content + "\n\t\t        "@ + repeated(
        ' ',
        decimal(line_number as nat).len(),
    ) + repeated(' ', (start - line.start) as nat) + repeated('~', (end - start) as nat)
}

/// The message for a text that ends where something had to follow.
pub open spec fn unexpected_end_text(quoted_expected: Seq<Seq<char>>) -> Seq<char> {
    "SyntaxError: Unexpected end of input expected "@ + printed_list(quoted_expected)
}

/// Whether `location` lies in one of the lines, and the message can be
/// laid out.
pub open spec fn locates(location: int, lines: Seq<LineView>) -> bool {
    &&& lines.len() > 0
    &&& 0 <= location <= lines.last().end
    &&& line_index(lines, location as u32, 0) < lines.len()
}

/// The line that spans `location`.
pub open spec fn located(location: int, lines: Seq<LineView>) -> LineView {
    lines[line_index(lines, location as u32, 0)]
}

fn printed_words(quoted: &Vec<String>) -> (s: String)
    ensures
        s@ == printed_list(string_views(quoted@)),
{
    let body = join_strings(quoted, ", ");
    let mut s = "[".to_owned();
    append_str(&mut s, body.as_str());
    append_str(&mut s, "]");
    s
}

/// The message for a character with which no token can begin.
pub fn gen_unknown_token_error_message(location: usize, lines: Vec<Line>) -> (s: String)
    requires
        locates(location as int, line_views(lines@)),
        location - located(location as int, line_views(lines@)).start + 43 <= usize::MAX,
    ensures
        s@ == unknown_token_text(
            location as int,
            line_index(line_views(lines@), location as u32, 0),
            located(location as int, line_views(lines@)),
        ),
{
    assert(line_views(lines@).last() == lines@.last()@);
    let line_number = Line::get_line(location as u32, &lines);
    assert(line_views(lines@)[line_number as int] == lines@[line_number as int]@);
    let current_line = &lines[line_number];
    let digits = decimal_chars(line_number as u64);
    proof {
        lemma_decimal_is_short(line_number as nat);
    }
    let mut s = "InvalidToken in line ".to_owned();
    append_decimal(&mut s, line_number as u64 + 1);
    append_str(&mut s, ": ");
    append_str(&mut s, current_line.content.as_str());
    append_str(&mut s, ", \n");
    append_repeated(&mut s, ' ', location - (current_line.start as usize) + 23 + digits.len());
    append_str(&mut s, "~~");
    s
}

/// The decimal numeral of a number below two to the sixty-fourth has at
/// most twenty digits.
pub proof fn lemma_decimal_is_short(n: nat)
    requires
        n <= u64::MAX,
    ensures
        decimal(n).len() <= 20,
{
    assert(pow10(20) == 100_000_000_000_000_000_000nat) by {
        reveal_with_fuel(pow10, 21);
    }
    lemma_decimal_len_bound(n, 20);
}

/// A number below ten to the `k`th has at most `k` digits, for `k` at
/// least one.
pub proof fn lemma_decimal_len_bound(n: nat, k: nat)
    requires
        k >= 1,
        n < pow10(k),
    ensures
        decimal(n).len() <= k,
    decreases k,
{
    if n >= 10 {
        assert(k >= 2) by {
            assert(pow10(1) == 10) by {
                assert(pow10(0) == 1);
            }
        }
        assert(n / 10 < pow10((k - 1) as nat));
        lemma_decimal_len_bound(n / 10, (k - 1) as nat);
    }
}

/// Ten to the `k`th.
pub open spec fn pow10(k: nat) -> nat
    decreases k,
{
    if k == 0 {
        1
    } else {
        10 * pow10((k - 1) as nat)
    }
}

/// The message for a token that could not follow, given the token and the
/// names of what was expected as quoted string literals. `line` is the
/// line with the index `line_number` in which the token ends.
pub fn compose_syntax_error(
    start: usize,
    end: usize,
    line_number: usize,
    line: &Line,
    quoted_token: &str,
    quoted_expected: &Vec<String>,
) -> (s: String)
    requires
        line.start <= start <= end,
        line_number < usize::MAX,
    ensures
        s@ == syntax_error_text(
            start as int,
            end as int,
            line_number as int,
            line@,
            quoted_token@,
            string_views(quoted_expected@),
        ),
{
    let digits = decimal_chars(line_number as u64);
    let list = printed_words(quoted_expected);
    let mut s = "SyntaxError in line ".to_owned();
    append_decimal(&mut s, line_number as u64 + 1);
    append_str(&mut s, ": Unrecognized token ");
    append_str(&mut s, quoted_token);
    append_str(&mut s, " expected ");
    append_str(&mut s, list.as_str());
    append_str(&mut s, "\n\t\tline ");
    append_decimal(&mut s, line_number as u64 + 1);
    append_str(&mut s, ": ");
    append_str(&mut s, line.content.as_str());
    append_str(&mut s, "\n\t\t        ");
    append_repeated(&mut s, ' ', digits.len());
    append_repeated(&mut s, ' ', start - (line.start as usize));
    append_repeated(&mut s, '~', end - start);
    s
}

/// The words of `expected`, each without its first and last character and
/// written as a quoted string literal.
pub fn quote_names(expected: &Vec<String>) -> (quoted: Vec<String>)
    requires
        forall|i: int| 0 <= i < expected.len() ==> (#[trigger] expected@[i])@.len() >= 2,
    ensures
        string_views(quoted@) == quoted_names(string_views(expected@)),
{
    let mut quoted: Vec<String> = Vec::new();
    let mut i: usize = 0;
    while i < expected.len()
        invariant
            i <= expected.len(),
            quoted.len() == i,
            forall|k: int| 0 <= k < expected.len() ==> (#[trigger] expected@[k])@.len() >= 2,
            forall|k: int| 0 <= k < i ==> (#[trigger] quoted@[k])@ == debug_text(stripped(expected@[k]@)),
        decreases expected.len() - i,
    {
        let cs = chars_of(expected[i].as_str());
        let name = substring(&cs, 1, cs.len() - 1);
        quoted.push(debug_string(name.as_str()));
        i += 1;
    }
    assert(string_views(quoted@) =~= quoted_names(string_views(expected@)));
    quoted
}

/// The message for a token that could not follow. `token` holds the
/// position of the token's first character, its text, and the position
/// behind its last character; `expected` holds the names of what was
/// expected, each between two characters that are left out.
pub fn gen_syntax_error_message(
    token: (usize, String, usize),
    lines: Vec<Line>,
    expected: Vec<String>,
) -> (s: String)
    requires
        locates(token.2 as int, line_views(lines@)),
        located(token.2 as int, line_views(lines@)).start <= token.0 <= token.2,
        forall|i: int| 0 <= i < expected.len() ==> (#[trigger] expected@[i])@.len() >= 2,
    ensures
        s@ == syntax_error_text(
            token.0 as int,
            token.2 as int,
            line_index(line_views(lines@), token.2 as u32, 0),
            located(token.2 as int, line_views(lines@)),
            debug_text(token.1@),
            quoted_names(string_views(expected@)),
        ),
{
    assert(line_views(lines@).last() == lines@.last()@);
    let line_number = Line::get_line(token.2 as u32, &lines);
    assert(line_views(lines@)[line_number as int] == lines@[line_number as int]@);
    let quoted_token = debug_string(token.1.as_str());
    let quoted_expected = quote_names(&expected);
    compose_syntax_error(
        token.0,
        token.2,
        line_number,
        &lines[line_number],
        quoted_token.as_str(),
        &quoted_expected,
    )
}

/// The message for a text that ends where something had to follow, given
/// the names of what was expected as quoted string literals.
pub fn compose_unexpected_end(quoted_expected: &Vec<String>) -> (s: String)
    ensures
        s@ == unexpected_end_text(string_views(quoted_expected@)),
{
    let list = printed_words(quoted_expected);
    let mut s = "SyntaxError: Unexpected end of input expected ".to_owned();
    append_str(&mut s, list.as_str());
    s
}

/// The message for a text that ends where something had to follow.
pub fn gen_unexpected_end_message(expected: Vec<String>) -> (s: String)
    requires
        forall|i: int| 0 <= i < expected.len() ==> (#[trigger] expected@[i])@.len() >= 2,
    ensures
        s@ == unexpected_end_text(quoted_names(string_views(expected@))),
{
    let quoted_expected = quote_names(&expected);
    compose_unexpected_end(&quoted_expected)
}

} // verus!
