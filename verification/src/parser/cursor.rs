//! A tokenized text, and what the grammars ask of it.
use crate::parser::lexer::{scan, tokenize, tokens_fit, Token, TokenKind};
use crate::text::{ascii_lower, chars_of, spells, substring};
use vstd::prelude::*;

verus! {

/// What a grammar would have taken at the place where it gave up.
#[derive(Clone, Copy, Debug, PartialEq, Eq, Structural)]
pub enum Expected {
    Create,
    Table,
    IfOrIdentifier,
    Not,
    Exists,
    Identifier,
    IdentifierOrRightBrace,
    DotAliasOrLeftBrace,
    AliasOrLeftBrace,
    LeftBrace,
    TypeName,
    LeftParen,
    Size,
    Comma,
    RightParen,
    CommaOrRightParen,
    Key,
    Null,
    AfterType,
    AfterPrimaryKey,
    AfterNotNull,
    CommaOrRightBrace,
    Dash,
    DashOrRightBrace,
    RuleName,
    Pattern,
    Threshold,
    ThresholdCommaOrRightBrace,
    Semicolon,
    End,
}

/// Where a grammar gave up: the index of the token that it could not take,
/// which is the number of tokens where the text ended too early.
#[derive(Clone, Copy, Debug, PartialEq, Eq, Structural)]
pub struct Miss {
    pub at: usize,
    pub expected: Expected,
}

/// Why a text is not of the grammar.
#[derive(Clone, Copy, Debug, PartialEq, Eq, Structural)]
pub enum Failure {
    /// No token can begin with the character at `location`.
    InvalidToken { location: usize },
    /// The token with the index `index` is not one that could follow.
    UnrecognizedToken { index: usize, expected: Expected },
    /// The text ends where something had to follow.
    UnexpectedEnd { expected: Expected },
}

/// What a `Source` holds, as plain values.
pub struct SourceView {
    pub chars: Seq<char>,
    pub tokens: Seq<Token>,
    pub stopped_at: Option<usize>,
}

/// A text with its tokens.
pub struct Source {
    pub chars: Vec<char>,
    pub tokens: Vec<Token>,
    pub stopped_at: Option<usize>,
}

impl View for Source {
    type V = SourceView;

    open spec fn view(&self) -> SourceView {
        SourceView { chars: self.chars@, tokens: self.tokens@, stopped_at: self.stopped_at }
    }
}

impl SourceView {
    /// The text `text` with its tokens.
    pub open spec fn of(text: Seq<char>) -> SourceView {
        SourceView {
            chars: text,
            tokens: scan(text, 0).tokens,
            stopped_at: scan(text, 0).stopped_at,
        }
    }

    /// Whether the tokens lie within the text.
    pub open spec fn wf(self) -> bool {
        &&& tokens_fit(self.tokens, self.chars.len())
        &&& self.tokens.len() <= usize::MAX
        &&& self.stopped_at matches Some(p) ==> p < self.chars.len()
    }

    /// The kind of the token with the index `pos`, if there is one.
    pub open spec fn kind_at(self, pos: int) -> Option<TokenKind> {
        if 0 <= pos < self.tokens.len() {
            Some(self.tokens[pos].kind)
        } else {
            None
        }
    }

    /// The characters of the token with the index `pos`.
    pub open spec fn text_at(self, pos: int) -> Seq<char> {
        self.chars.subrange(self.tokens[pos].start as int, self.tokens[pos].end as int)
    }

    /// The characters between the quotation marks of the token with the
    /// index `pos`.
    pub open spec fn quoted_at(self, pos: int) -> Seq<char> {
        self.chars.subrange(self.tokens[pos].start + 1, self.tokens[pos].end - 1)
    }

    /// Whether the token with the index `pos` is the word `word`, letter
    /// case ignored. `word` is given in small letters.
    pub open spec fn keyword_at(self, pos: int, word: Seq<char>) -> bool {
        self.kind_at(pos) == Some(TokenKind::Word) && ascii_lower(self.text_at(pos)) == word
    }

    /// Whether the token with the index `pos` is one of the words that the
    /// table grammar keeps for itself.
    pub open spec fn reserved_at(self, pos: int) -> bool {
        ||| self.keyword_at(pos, "create"@)
        ||| self.keyword_at(pos, "table"@)
        ||| self.keyword_at(pos, "if"@)
        ||| self.keyword_at(pos, "not"@)
        ||| self.keyword_at(pos, "exists"@)
        ||| self.keyword_at(pos, "primary"@)
        ||| self.keyword_at(pos, "key"@)
        ||| self.keyword_at(pos, "null"@)
    }

    /// Whether the token with the index `pos` is a name: a word that the
    /// table grammar does not keep for itself.
    pub open spec fn identifier_at(self, pos: int) -> bool {
        self.kind_at(pos) == Some(TokenKind::Word) && !self.reserved_at(pos)
    }

    /// The reason that stands for the miss: a miss at a token is that
    /// token's fault; a miss at the end is the fault of the character at
    /// which reading stopped, if it stopped, and else of the end.
    pub open spec fn failure(self, miss: Miss) -> Failure {
        if miss.at < self.tokens.len() {
            Failure::UnrecognizedToken { index: miss.at, expected: miss.expected }
        } else {
            match self.stopped_at {
                Some(location) => Failure::InvalidToken { location },
                None => Failure::UnexpectedEnd { expected: miss.expected },
            }
        }
    }

    /// What is left to check when a grammar has taken the tokens before
    /// `pos`: nothing may follow, and reading must not have stopped early.
    pub open spec fn finish(self, pos: int) -> Option<Failure> {
        if pos < self.tokens.len() {
            Some(Failure::UnrecognizedToken { index: pos as usize, expected: Expected::End })
        } else {
            match self.stopped_at {
                Some(location) => Some(Failure::InvalidToken { location }),
                None => None,
            }
        }
    }
}

impl Source {
    /// Splits `text` into tokens.
    pub fn new(text: &str) -> (r: Source)
        ensures
            r@ == SourceView::of(text@),
            r@.wf(),
    {
        let chars = chars_of(text);
        let lexed = tokenize(&chars);
        assert(lexed.tokens.len() <= usize::MAX);
        Source { chars, tokens: lexed.tokens, stopped_at: lexed.stopped_at }
    }

    /// The number of tokens.
    pub fn len(&self) -> (n: usize)
        ensures
            n == self@.tokens.len(),
    {
        self.tokens.len()
    }

    /// The kind of the token with the index `pos`, if there is one.
    pub fn kind(&self, pos: usize) -> (r: Option<TokenKind>)
        ensures
            r == self@.kind_at(pos as int),
    {
        if pos < self.tokens.len() {
            Some(self.tokens[pos].kind)
        } else {
            None
        }
    }

    /// Whether the token with the index `pos` is of the kind `kind`.
    pub fn is_kind(&self, pos: usize, kind: TokenKind) -> (r: bool)
        ensures
            r == (self@.kind_at(pos as int) == Some(kind)),
    {
        pos < self.tokens.len() && self.tokens[pos].kind == kind
    }

    /// The characters of the token with the index `pos`.
    pub fn text(&self, pos: usize) -> (s: String)
        requires
            self@.wf(),
            pos < self@.tokens.len(),
        ensures
            s@ == self@.text_at(pos as int),
    {
        let t = self.tokens[pos];
        substring(&self.chars, t.start, t.end)
    }

    /// The characters between the quotation marks of the token with the
    /// index `pos`, which has two characters or more.
    pub fn quoted(&self, pos: usize) -> (s: String)
        requires
            self@.wf(),
            pos < self@.tokens.len(),
            self@.tokens[pos as int].end - self@.tokens[pos as int].start >= 2,
        ensures
            s@ == self@.quoted_at(pos as int),
    {
        let t = self.tokens[pos];
        substring(&self.chars, t.start + 1, t.end - 1)
    }

    /// Whether the token with the index `pos` is the word `word`, letter
    /// case ignored.
    pub fn is_keyword(&self, pos: usize, word: &str) -> (r: bool)
        requires
            self@.wf(),
        ensures
            r == self@.keyword_at(pos as int, word@),
    {
        if pos < self.tokens.len() && self.tokens[pos].kind == TokenKind::Word {
            let t = self.tokens[pos];
            spells(&self.chars, t.start, t.end, word)
        } else {
            false
        }
    }

    /// Whether the token with the index `pos` is a name.
    pub fn is_identifier(&self, pos: usize) -> (r: bool)
        requires
            self@.wf(),
        ensures
            r == self@.identifier_at(pos as int),
    {
        self.is_kind(pos, TokenKind::Word) && !(self.is_keyword(pos, "create") || self.is_keyword(
            pos,
            "table",
        ) || self.is_keyword(pos, "if") || self.is_keyword(pos, "not") || self.is_keyword(
            pos,
            "exists",
        ) || self.is_keyword(pos, "primary") || self.is_keyword(pos, "key") || self.is_keyword(
            pos,
            "null",
        ))
    }

    /// The reason that stands for the miss.
    pub fn fail(&self, miss: Miss) -> (r: Failure)
        ensures
            r == self@.failure(miss),
    {
        if miss.at < self.tokens.len() {
            Failure::UnrecognizedToken { index: miss.at, expected: miss.expected }
        } else {
            match self.stopped_at {
                Some(location) => Failure::InvalidToken { location },
                None => Failure::UnexpectedEnd { expected: miss.expected },
            }
        }
    }

    /// Checks that nothing follows the tokens before `pos`.
    pub fn finish(&self, pos: usize) -> (r: Option<Failure>)
        ensures
            r == self@.finish(pos as int),
    {
        if pos < self.tokens.len() {
            Some(Failure::UnrecognizedToken { index: pos, expected: Expected::End })
        } else {
            match self.stopped_at {
                Some(location) => Some(Failure::InvalidToken { location }),
                None => None,
            }
        }
    }
}

} // verus!
