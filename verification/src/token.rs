//! Tokens and numeric-literal values produced by the lexer.

use vstd::prelude::*;

verus! {

/// The three possible readings of a numeric literal.
#[derive(Debug, PartialEq)]
pub enum Number {
    /// A literal that is syntactically ambiguous between integer and float
    /// intent, such as `3` or `3.0`; later stages decide which it is.
    Untyped(u64),
    /// A literal that is unambiguously an integer because of an explicit base
    /// marker, such as `0x1F` or `0b11`.
    Integer(u64),
    /// A literal that is unambiguously a float: it contains a decimal point
    /// followed by a nonzero fraction. The exact source text of the literal is
    /// kept; evaluating it as an IEEE double is left to the consumer.
    Float(String),
}

/// Mathematical value of a [`Number`].
pub enum NumberValue {
    Untyped(u64),
    Integer(u64),
    Float(Seq<char>),
}

impl View for Number {
    type V = NumberValue;

    open spec fn view(&self) -> NumberValue {
        match self {
            Number::Untyped(v) => NumberValue::Untyped(*v),
            Number::Integer(v) => NumberValue::Integer(*v),
            Number::Float(s) => NumberValue::Float(s@),
        }
    }
}

/// Why a numeric literal failed to parse as an integer.
#[derive(Debug, PartialEq, Eq, Structural, Clone, Copy)]
pub enum NumberParseError {
    /// The literal starts with `0` but its second character is not one of the
    /// recognized base markers.
    InvalidBase,
    /// The literal contains a character outside the selected radix's digit
    /// set, is missing its digits, or overflows an unsigned 64-bit integer.
    InvalidInteger,
}

/// The kind of a token, together with its payload where it has one.
#[derive(Debug, PartialEq)]
pub enum TokenKind {
    Eof,
    Error(String),

    If,
    While,
    Loop,
    For,
    In,

    Let,
    Type,

    Colon,
    Semicolon,
    LeftParen,
    RightParen,
    LeftCurly,
    RightCurly,
    Comma,
    Equals,
    Plus,
    Minus,
    Star,
    Slash,
    Not,
    Tilde,
    EqualsEquals,
    PlusEquals,
    MinusEquals,
    StarEquals,
    SlashEquals,
    NotEquals,
    TildeEquals,
    Ampersand,
    AmpersandAmpersand,
    Pipe,
    PipePipe,

    Comment,
    Identifier(String),
    Number(Number),
}

/// Mathematical value of a [`TokenKind`].
pub enum TokenKindValue {
    Eof,
    Error(Seq<char>),

    If,
    While,
    Loop,
    For,
    In,

    Let,
    Type,

    Colon,
    Semicolon,
    LeftParen,
    RightParen,
    LeftCurly,
    RightCurly,
    Comma,
    Equals,
    Plus,
    Minus,
    Star,
    Slash,
    Not,
    Tilde,
    EqualsEquals,
    PlusEquals,
    MinusEquals,
    StarEquals,
    SlashEquals,
    NotEquals,
    TildeEquals,
    Ampersand,
    AmpersandAmpersand,
    Pipe,
    PipePipe,

    Comment,
    Identifier(Seq<char>),
    Number(NumberValue),
}

impl View for TokenKind {
    type V = TokenKindValue;

    open spec fn view(&self) -> TokenKindValue {
        match self {
            TokenKind::Eof => TokenKindValue::Eof,
            TokenKind::Error(m) => TokenKindValue::Error(m@),
            TokenKind::If => TokenKindValue::If,
            TokenKind::While => TokenKindValue::While,
            TokenKind::Loop => TokenKindValue::Loop,
            TokenKind::For => TokenKindValue::For,
            TokenKind::In => TokenKindValue::In,
            TokenKind::Let => TokenKindValue::Let,
            TokenKind::Type => TokenKindValue::Type,
            TokenKind::Colon => TokenKindValue::Colon,
            TokenKind::Semicolon => TokenKindValue::Semicolon,
            TokenKind::LeftParen => TokenKindValue::LeftParen,
            TokenKind::RightParen => TokenKindValue::RightParen,
            TokenKind::LeftCurly => TokenKindValue::LeftCurly,
            TokenKind::RightCurly => TokenKindValue::RightCurly,
            TokenKind::Comma => TokenKindValue::Comma,
            TokenKind::Equals => TokenKindValue::Equals,
            TokenKind::Plus => TokenKindValue::Plus,
            TokenKind::Minus => TokenKindValue::Minus,
            TokenKind::Star => TokenKindValue::Star,
            TokenKind::Slash => TokenKindValue::Slash,
            TokenKind::Not => TokenKindValue::Not,
            TokenKind::Tilde => TokenKindValue::Tilde,
            TokenKind::EqualsEquals => TokenKindValue::EqualsEquals,
            TokenKind::PlusEquals => TokenKindValue::PlusEquals,
            TokenKind::MinusEquals => TokenKindValue::MinusEquals,
            TokenKind::StarEquals => TokenKindValue::StarEquals,
            TokenKind::SlashEquals => TokenKindValue::SlashEquals,
            TokenKind::NotEquals => TokenKindValue::NotEquals,
            TokenKind::TildeEquals => TokenKindValue::TildeEquals,
            TokenKind::Ampersand => TokenKindValue::Ampersand,
            TokenKind::AmpersandAmpersand => TokenKindValue::AmpersandAmpersand,
            TokenKind::Pipe => TokenKindValue::Pipe,
            TokenKind::PipePipe => TokenKindValue::PipePipe,
            TokenKind::Comment => TokenKindValue::Comment,
            TokenKind::Identifier(name) => TokenKindValue::Identifier(name@),
            TokenKind::Number(n) => TokenKindValue::Number(n@),
        }
    }
}

/// A token: a source position paired with a semantic kind. The position is
/// the line and column (both 1-based) of the token's first character.
#[derive(Debug, PartialEq)]
pub struct Token {
    pub line: u64,
    pub column: u64,
    pub kind: TokenKind,
}

/// Mathematical value of a [`Token`].
pub struct TokenValue {
    pub line: int,
    pub column: int,
    pub kind: TokenKindValue,
}

impl View for Token {
    type V = TokenValue;

    open spec fn view(&self) -> TokenValue {
        TokenValue { line: self.line as int, column: self.column as int, kind: self.kind@ }
    }
}

impl Token {
    /// The kind of this token.
    pub fn kind(&self) -> (k: &TokenKind)
        ensures
            k@ == self@.kind,
    {
        &self.kind
    }

    /// Whether this token is an identifier.
    pub fn is_identifier(&self) -> (r: bool)
        ensures
            r == (self@.kind is Identifier),
    {
        matches!(self.kind, TokenKind::Identifier(_))
    }

    /// Whether this token is a numeric literal.
    pub fn is_number(&self) -> (r: bool)
        ensures
            r == (self@.kind is Number),
    {
        matches!(self.kind, TokenKind::Number(_))
    }

    /// The name of this identifier token, or `None` for any other kind.
    pub fn identifier_name(&self) -> (r: Option<&str>)
        ensures
            match self@.kind {
                TokenKindValue::Identifier(name) => r matches Some(s) && s@ == name,
                _ => r is None,
            },
    {
        match &self.kind {
            TokenKind::Identifier(name) => Some(name.as_str()),
            _ => None,
        }
    }

    /// The end-of-input token at the given position.
    pub(crate) fn eof(line: u64, column: u64) -> (t: Token)
        ensures
            t@.line == line,
            t@.column == column,
            t@.kind is Eof,
    {
        Token { line, column, kind: TokenKind::Eof }
    }

    /// An error token carrying a descriptive message.
    pub(crate) fn error(line: u64, column: u64, msg: String) -> (t: Token)
        ensures
            t@.line == line,
            t@.column == column,
            t@.kind == TokenKindValue::Error(msg@),
    {
        Token { line, column, kind: TokenKind::Error(msg) }
    }

    /// A token of the given payload-free kind.
    pub(crate) fn simple(line: u64, column: u64, kind: TokenKind) -> (t: Token)
        ensures
            t@.line == line,
            t@.column == column,
            t@.kind == kind@,
    {
        Token { line, column, kind }
    }
}

} // verus!
