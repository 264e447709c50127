//! Splits source text into tokens.
//!
//! The same tokens serve the table grammar, the column type grammar and the
//! grammar of gating conditions. Positions count characters from the start
//! of the text.
use crate::text::{is_digit, is_digit_char};
use vstd::prelude::*;

verus! {

/// What a token is.
#[derive(Clone, Copy, Debug, PartialEq, Eq, Structural)]
pub enum TokenKind {
    /// A letter or `_`, then letters, digits, `_` and `-`.
    Word,
    /// An optional `-`, digits, and optionally a point and more digits.
    Number,
    /// Text between two `"` or two `'` that holds neither.
    Quoted,
    LeftParen,
    RightParen,
    LeftBrace,
    RightBrace,
    Comma,
    Semicolon,
    Dot,
    Dash,
    Greater,
    Less,
    Equal,
    NotEqual,
    GreaterEqual,
    LessEqual,
    /// `&&`
    AndAnd,
    /// `||`
    OrOr,
    /// `!(`
    NotParen,
}

/// A token: its kind and the positions of its first character and of the
/// character behind its last.
#[derive(Clone, Copy, Debug, PartialEq, Eq, Structural)]
pub struct Token {
    pub kind: TokenKind,
    pub start: usize,
    pub end: usize,
}

/// A set of characters that a run is made of.
#[derive(Clone, Copy, Debug, PartialEq, Eq, Structural)]
pub enum CharClass {
    /// Blank, tab, line feed and carriage return.
    Space,
    /// Letters, digits, `_` and `-`.
    WordPart,
    /// The ten digits.
    Digit,
    /// Everything but the two quotation marks.
    Unquoted,
}

/// The letters `a` to `z` and `A` to `Z`.
pub open spec fn is_letter(c: char) -> bool {
    ('a' <= c && c <= 'z') || ('A' <= c && c <= 'Z')
}

/// What a word may begin with.
pub open spec fn is_word_start(c: char) -> bool {
    is_letter(c) || c == '_'
}

/// The two quotation marks.
pub open spec fn is_quote(c: char) -> bool {
    c == '"' || c == '\''
}

fn letter(c: char) -> (r: bool)
    ensures
        r == is_letter(c),
{
    (c >= 'a' && c <= 'z') || (c >= 'A' && c <= 'Z')
}

impl CharClass {
    /// Whether `c` belongs to the class.
    pub open spec fn holds(self, c: char) -> bool {
        match self {
            CharClass::Space => c == ' ' || c == '\t' || c == '\n' || c == '\r',
            CharClass::WordPart => is_word_start(c) || is_digit(c) || c == '-',
            CharClass::Digit => is_digit(c),
            CharClass::Unquoted => !is_quote(c),
        }
    }

    /// Whether `c` belongs to the class.
    pub fn test(self, c: char) -> (r: bool)
        ensures
            r == self.holds(c),
    {
        match self {
            CharClass::Space => c == ' ' || c == '\t' || c == '\n' || c == '\r',
            CharClass::WordPart => letter(c) || c == '_' || is_digit_char(c) || c == '-',
            CharClass::Digit => is_digit_char(c),
            CharClass::Unquoted => !(c == '"' || c == '\''),
        }
    }
}

/// The first position at or after `from` whose character is not of the
/// class, or the length of the text.
pub open spec fn run_end(s: Seq<char>, from: int, class: CharClass) -> int
    decreases s.len() - from,
{
    if 0 <= from < s.len() && class.holds(s[from]) {
        run_end(s, from + 1, class)
    } else {
        from
    }
}

/// A run ends between its start and the end of the text.
pub proof fn lemma_run_end(s: Seq<char>, from: int, class: CharClass)
    requires
        0 <= from <= s.len(),
    ensures
        from <= run_end(s, from, class) <= s.len(),
    decreases s.len() - from,
{
    if from < s.len() && class.holds(s[from]) {
        lemma_run_end(s, from + 1, class);
    }
}

/// The first position at or after `from` whose character is not of the
/// class.
pub fn scan_run(cs: &Vec<char>, from: usize, class: CharClass) -> (end: usize)
    requires
        from <= cs.len(),
    ensures
        end == run_end(cs@, from as int, class),
        from <= end <= cs.len(),
{
    let mut i: usize = from;
    while i < cs.len() && class.test(cs[i])
        invariant
            from <= i <= cs.len(),
            run_end(cs@, from as int, class) == run_end(cs@, i as int, class),
        decreases cs.len() - i,
    {
        i += 1;
    }
    i
}

/// Where the number ends whose first digit stands at `from`.
pub open spec fn number_end(s: Seq<char>, from: int) -> int {
    let d = run_end(s, from, CharClass::Digit);
    if 0 <= d < s.len() && s[d] == '.' {
        run_end(s, d + 1, CharClass::Digit)
    } else {
        d
    }
}

fn scan_number(cs: &Vec<char>, from: usize) -> (end: usize)
    requires
        from < cs.len(),
        is_digit(cs@[from as int]),
    ensures
        end == number_end(cs@, from as int),
        from < end <= cs.len(),
{
    let d = scan_run(cs, from, CharClass::Digit);
    assert(d > from) by {
        assert(run_end(cs@, from as int, CharClass::Digit) == run_end(
            cs@,
            from + 1,
            CharClass::Digit,
        ));
        lemma_run_end(cs@, from + 1, CharClass::Digit);
    }
    if d < cs.len() && cs[d] == '.' {
        scan_run(cs, d + 1, CharClass::Digit)
    } else {
        d
    }
}

/// The token of the given kind over the given positions.
pub open spec fn token(kind: TokenKind, start: int, end: int) -> Token {
    Token { kind, start: start as usize, end: end as usize }
}

/// Whether the character behind position `p` is `c`.
pub open spec fn followed_by(s: Seq<char>, p: int, c: char) -> bool {
    p + 1 < s.len() && s[p + 1] == c
}

/// The token that begins at position `p`, where a character that is no
/// space stands; `None` where no token can begin with what stands there.
pub open spec fn token_at(s: Seq<char>, p: int) -> Option<Token> {
    let c = s[p];
    if is_word_start(c) {
        Some(token(TokenKind::Word, p, run_end(s, p + 1, CharClass::WordPart)))
    } else if is_digit(c) {
        Some(token(TokenKind::Number, p, number_end(s, p)))
    } else if c == '-' {
        if p + 1 < s.len() && is_digit(s[p + 1]) {
            Some(token(TokenKind::Number, p, number_end(s, p + 1)))
        } else {
            Some(token(TokenKind::Dash, p, p + 1))
        }
    } else if is_quote(c) {
        let e = run_end(s, p + 1, CharClass::Unquoted);
        if e < s.len() && s[e] == c {
            Some(token(TokenKind::Quoted, p, e + 1))
        } else {
            None
        }
    } else if c == '(' {
        Some(token(TokenKind::LeftParen, p, p + 1))
    } else if c == ')' {
        Some(token(TokenKind::RightParen, p, p + 1))
    } else if c == '{' {
        Some(token(TokenKind::LeftBrace, p, p + 1))
    } else if c == '}' {
        Some(token(TokenKind::RightBrace, p, p + 1))
    } else if c == ',' {
        Some(token(TokenKind::Comma, p, p + 1))
    } else if c == ';' {
        Some(token(TokenKind::Semicolon, p, p + 1))
    } else if c == '.' {
        Some(token(TokenKind::Dot, p, p + 1))
    } else if c == '>' {
        if followed_by(s, p, '=') {
            Some(token(TokenKind::GreaterEqual, p, p + 2))
        } else {
            Some(token(TokenKind::Greater, p, p + 1))
        }
    } else if c == '<' {
        if followed_by(s, p, '=') {
            Some(token(TokenKind::LessEqual, p, p + 2))
        } else {
            Some(token(TokenKind::Less, p, p + 1))
        }
    } else if c == '=' {
        Some(token(TokenKind::Equal, p, p + 1))
    } else if c == '!' {
        if followed_by(s, p, '=') {
            Some(token(TokenKind::NotEqual, p, p + 2))
        } else if followed_by(s, p, '(') {
            Some(token(TokenKind::NotParen, p, p + 2))
        } else {
            None
        }
    } else if c == '&' {
        if followed_by(s, p, '&') {
            Some(token(TokenKind::AndAnd, p, p + 2))
        } else {
            None
        }
    } else if c == '|' {
        if followed_by(s, p, '|') {
            Some(token(TokenKind::OrOr, p, p + 2))
        } else {
            None
        }
    } else {
        None
    }
}

fn next_is(cs: &Vec<char>, p: usize, c: char) -> (r: bool)
    requires
        p < cs.len(),
    ensures
        r == followed_by(cs@, p as int, c),
{
    p + 1 < cs.len() && cs[p + 1] == c
}

fn read_token(cs: &Vec<char>, p: usize) -> (r: Option<Token>)
    requires
        p < cs.len(),
    ensures
        r == token_at(cs@, p as int),
        r matches Some(t) ==> t.start == p && p < t.end <= cs.len(),
        r matches Some(t) ==> t.kind == TokenKind::Quoted ==> p + 2 <= t.end,
{
    let c = cs[p];
    if letter(c) || c == '_' {
        let end = scan_run(cs, p + 1, CharClass::WordPart);
        Some(Token { kind: TokenKind::Word, start: p, end })
    } else if is_digit_char(c) {
        let end = scan_number(cs, p);
        Some(Token { kind: TokenKind::Number, start: p, end })
    } else if c == '-' {
        if p + 1 < cs.len() && is_digit_char(cs[p + 1]) {
            let end = scan_number(cs, p + 1);
            Some(Token { kind: TokenKind::Number, start: p, end })
        } else {
            Some(Token { kind: TokenKind::Dash, start: p, end: p + 1 })
        }
    } else if c == '"' || c == '\'' {
        let e = scan_run(cs, p + 1, CharClass::Unquoted);
        if e < cs.len() && cs[e] == c {
            Some(Token { kind: TokenKind::Quoted, start: p, end: e + 1 })
        } else {
            None
        }
    } else if c == '(' {
        Some(Token { kind: TokenKind::LeftParen, start: p, end: p + 1 })
    } else if c == ')' {
        Some(Token { kind: TokenKind::RightParen, start: p, end: p + 1 })
    } else if c == '{' {
        Some(Token { kind: TokenKind::LeftBrace, start: p, end: p + 1 })
    } else if c == '}' {
        Some(Token { kind: TokenKind::RightBrace, start: p, end: p + 1 })
    } else if c == ',' {
        Some(Token { kind: TokenKind::Comma, start: p, end: p + 1 })
    } else if c == ';' {
        Some(Token { kind: TokenKind::Semicolon, start: p, end: p + 1 })
    } else if c == '.' {
        Some(Token { kind: TokenKind::Dot, start: p, end: p + 1 })
    } else if c == '>' {
        if next_is(cs, p, '=') {
            Some(Token { kind: TokenKind::GreaterEqual, start: p, end: p + 2 })
        } else {
            Some(Token { kind: TokenKind::Greater, start: p, end: p + 1 })
        }
    } else if c == '<' {
        if next_is(cs, p, '=') {
            Some(Token { kind: TokenKind::LessEqual, start: p, end: p + 2 })
        } else {
            Some(Token { kind: TokenKind::Less, start: p, end: p + 1 })
        }
    } else if c == '=' {
        Some(Token { kind: TokenKind::Equal, start: p, end: p + 1 })
    } else if c == '!' {
        if next_is(cs, p, '=') {
            Some(Token { kind: TokenKind::NotEqual, start: p, end: p + 2 })
        } else if next_is(cs, p, '(') {
            Some(Token { kind: TokenKind::NotParen, start: p, end: p + 2 })
        } else {
            None
        }
    } else if c == '&' {
        if next_is(cs, p, '&') {
            Some(Token { kind: TokenKind::AndAnd, start: p, end: p + 2 })
        } else {
            None
        }
    } else if c == '|' {
        if next_is(cs, p, '|') {
            Some(Token { kind: TokenKind::OrOr, start: p, end: p + 2 })
        } else {
            None
        }
    } else {
        None
    }
}

/// The tokens of a text, and where reading them stopped.
pub struct Scan {
    /// The tokens, in order.
    pub tokens: Seq<Token>,
    /// The position of the first character with which no token can begin,
    /// if there is one; no token behind it is read.
    pub stopped_at: Option<usize>,
}

/// The tokens of `s` from position `from` on.
pub open spec fn scan(s: Seq<char>, from: int) -> Scan
    decreases s.len() - from,
{
    let p = run_end(s, from, CharClass::Space);
    if !(0 <= from <= p < s.len()) {
        Scan { tokens: Seq::empty(), stopped_at: None }
    } else {
        match token_at(s, p) {
            None => Scan { tokens: Seq::empty(), stopped_at: Some(p as usize) },
            Some(t) => {
                if p < t.end <= s.len() {
                    let rest = scan(s, t.end as int);
                    Scan { tokens: seq![t] + rest.tokens, stopped_at: rest.stopped_at }
                } else {
                    Scan { tokens: Seq::empty(), stopped_at: Some(p as usize) }
                }
            },
        }
    }
}

/// Whether the tokens lie within a text of `len` characters, none empty,
/// one behind the other.
pub open spec fn tokens_fit(tokens: Seq<Token>, len: nat) -> bool {
    &&& forall|i: int| 0 <= i < tokens.len() ==> (#[trigger] tokens[i]).start < tokens[i].end <= len
    &&& forall|i: int|
        0 <= i < tokens.len() && (#[trigger] tokens[i]).kind == TokenKind::Quoted ==> tokens[i].start
            + 2 <= tokens[i].end
    &&& forall|i: int, j: int|
        0 <= i < j < tokens.len() ==> (#[trigger] tokens[i]).end <= (#[trigger] tokens[j]).start
}

/// A text that was split into tokens.
pub struct Lexed {
    /// The tokens, in order.
    pub tokens: Vec<Token>,
    /// Where reading stopped at a character with which no token can begin.
    pub stopped_at: Option<usize>,
}

/// Splits `cs` into tokens.
pub fn tokenize(cs: &Vec<char>) -> (r: Lexed)
    ensures
        r.tokens@ == scan(cs@, 0).tokens,
        r.stopped_at == scan(cs@, 0).stopped_at,
        tokens_fit(r.tokens@, cs@.len()),
        r.stopped_at matches Some(p) ==> p < cs.len(),
{
    let mut tokens: Vec<Token> = Vec::new();
    let mut stopped_at: Option<usize> = None;
    let mut pos: usize = 0;
    let mut done = false;
    while !done
        invariant
            pos <= cs.len(),
            tokens_fit(tokens@, cs@.len()),
            tokens.len() > 0 ==> tokens@.last().end <= pos,
            !done ==> scan(cs@, 0).tokens == tokens@ + scan(cs@, pos as int).tokens,
            !done ==> scan(cs@, 0).stopped_at == scan(cs@, pos as int).stopped_at,
            !done ==> stopped_at is None,
            done ==> scan(cs@, 0).tokens == tokens@,
            done ==> scan(cs@, 0).stopped_at == stopped_at,
            stopped_at matches Some(p) ==> p < cs.len(),
        decreases cs.len() - pos + (if done { 0int } else { 1int }),
    {
        let p = scan_run(cs, pos, CharClass::Space);
        if p >= cs.len() {
            done = true;
            assert(tokens@ + Seq::<Token>::empty() == tokens@);
        } else {
            match read_token(cs, p) {
                None => {
                    stopped_at = Some(p);
                    done = true;
                    assert(tokens@ + Seq::<Token>::empty() == tokens@);
                },
                Some(t) => {
                    let ghost before = tokens@;
                    tokens.push(t);
                    assert(before + (seq![t] + scan(cs@, t.end as int).tokens) == before.push(t)
                        + scan(cs@, t.end as int).tokens);
                    assert(tokens_fit(tokens@, cs@.len())) by {
                        assert forall|i: int, j: int| 0 <= i < j < tokens@.len() implies (
                        #[trigger] tokens@[i]).end <= (#[trigger] tokens@[j]).start by {
                            if j == tokens@.len() - 1 {
                                assert(tokens@[i] == before[i]);
                                assert(before[i].end <= before.last().start || i == before.len()
                                    - 1);
                            } else {
                                assert(tokens@[i] == before[i] && tokens@[j] == before[j]);
                            }
                        }
                    }
                    pos = t.end;
                },
            }
        }
    }
    Lexed { tokens, stopped_at }
}

} // verus!
