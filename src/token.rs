//! Tokens, their kinds, spans and lexical errors, with the mathematical
//! views that the contracts speak of.

use vstd::prelude::*;

use crate::number::Number;

verus! {

/// A reserved word.
#[derive(Clone, Copy, Debug, PartialEq, Eq, Structural)]
pub enum Keyword {
    Function,
    Let,
    If,
    Else,
    Return,
}

/// An operator of an expression.
#[derive(Clone, Copy, Debug, PartialEq, Eq, Structural)]
pub enum Operator {
    Equal,
    NotEqual,
    LessThan,
    GreaterThan,
    LessThanEqual,
    GreaterThanEqual,
    LogicalAnd,
    LogicalOr,
    Plus,
    Minus,
    Bang,
    Star,
    Slash,
    Modulo,
}

/// An assignment, plain or compound.
#[derive(Clone, Copy, Debug, PartialEq, Eq, Structural)]
pub enum Assign {
    Equal,
    PlusEqual,
    MinusEqual,
    SlashEqual,
    StarEqual,
    ModuloEqual,
}

/// A separator.
#[derive(Clone, Copy, Debug, PartialEq, Eq, Structural)]
pub enum Punctuation {
    Comma,
    Semicolon,
    Colon,
    RightArrow,
}

/// An opening or closing bracket.
#[derive(Clone, Copy, Debug, PartialEq, Eq, Structural)]
pub enum Grouping {
    OpenParen,
    CloseParen,
    OpenSquare,
    CloseSquare,
    OpenBrace,
    CloseBrace,
}

/// A comment with its body, without the delimiters.
#[derive(Clone, Debug, PartialEq, Eq)]
pub enum Comment {
    LineComment(String),
    BlockComment(String),
}

/// What a token is, with its decoded value where it has one.
#[derive(Clone, Debug, PartialEq, Eq)]
pub enum TokenKind {
    Comment(Comment),
    Punctuation(Punctuation),
    Operator(Operator),
    Assign(Assign),
    Grouping(Grouping),
    Keyword(Keyword),
    Identifier(String),
    Character(char),
    String(String),
    Bool(bool),
    Number(Number),
    Whitespace(String),
    /// A character that starts no token.
    Illegal,
    /// The end of the input.
    Eof,
}

/// Where a token lies: byte offsets `start..end` into the source, and the
/// line and column (both counted from 1, the column in characters) of
/// `start`.
#[derive(Clone, Copy, Debug, PartialEq, Eq, Structural)]
pub struct Span {
    pub start: usize,
    pub end: usize,
    pub line: u32,
    pub column: u32,
}

/// A token: its kind, the source text it was read from, and where.
#[derive(Clone, Debug, PartialEq, Eq)]
pub struct Token {
    pub kind: TokenKind,
    pub lexeme: String,
    pub span: Span,
}

/// A literal value.
#[derive(Clone, Debug, PartialEq, Eq)]
pub enum Literal {
    String(String),
    Character(char),
    Boolean(bool),
    Number(Number),
}

/// The kinds of lexical error.
#[derive(Clone, Copy, Debug, PartialEq, Eq, Structural)]
pub enum LexErrorKind {
    UnterminatedBlockComment,
    UnterminatedStringOrCharacterLiteral,
    InvalidEscapeSequence,
    InvalidUnicodeScalarEscape,
    InvalidCharacterLiteral,
    NumberOverflow,
    NumberParseFailure,
    IntegerWithExponentSuffix,
    InvalidFloatPrecision,
}

/// A lexical error, with the source text that was skipped over and where.
#[derive(Clone, Debug, PartialEq, Eq)]
pub struct LexError {
    pub kind: LexErrorKind,
    pub lexeme: String,
    pub span: Span,
}

/// The view of a `TokenKind`: text payloads become character sequences.
pub enum KindView {
    LineComment(Seq<char>),
    BlockComment(Seq<char>),
    Punctuation(Punctuation),
    Operator(Operator),
    Assign(Assign),
    Grouping(Grouping),
    Keyword(Keyword),
    Identifier(Seq<char>),
    Character(char),
    String(Seq<char>),
    Bool(bool),
    Number(Number),
    Whitespace(Seq<char>),
    Illegal,
    Eof,
}

impl View for TokenKind {
    type V = KindView;

    open spec fn view(&self) -> KindView {
        match self {
            TokenKind::Comment(Comment::LineComment(s)) => KindView::LineComment(s@),
            TokenKind::Comment(Comment::BlockComment(s)) => KindView::BlockComment(s@),
            TokenKind::Punctuation(p) => KindView::Punctuation(*p),
            TokenKind::Operator(o) => KindView::Operator(*o),
            TokenKind::Assign(a) => KindView::Assign(*a),
            TokenKind::Grouping(g) => KindView::Grouping(*g),
            TokenKind::Keyword(k) => KindView::Keyword(*k),
            TokenKind::Identifier(s) => KindView::Identifier(s@),
            TokenKind::Character(c) => KindView::Character(*c),
            TokenKind::String(s) => KindView::String(s@),
            TokenKind::Bool(b) => KindView::Bool(*b),
            TokenKind::Number(n) => KindView::Number(*n),
            TokenKind::Whitespace(s) => KindView::Whitespace(s@),
            TokenKind::Illegal => KindView::Illegal,
            TokenKind::Eof => KindView::Eof,
        }
    }
}

/// The token kind that a literal is read as.
pub open spec fn literal_view(l: Literal) -> KindView {
    match l {
        Literal::String(s) => KindView::String(s@),
        Literal::Character(c) => KindView::Character(c),
        Literal::Boolean(b) => KindView::Bool(b),
        Literal::Number(n) => KindView::Number(n),
    }
}

/// Whether a token kind is that of a literal.
pub open spec fn is_literal(k: KindView) -> bool {
    k is String || k is Character || k is Bool || k is Number
}

/// The outcome of reading one token, as a view.
pub open spec fn outcome_view(r: Result<TokenKind, LexErrorKind>) -> Result<KindView, LexErrorKind> {
    match r {
        Ok(k) => Ok(k@),
        Err(e) => Err(e),
    }
}

/// One item of the token stream, as a view: what was read, the source text
/// it covers, and where.
pub struct Scanned {
    pub outcome: Result<KindView, LexErrorKind>,
    pub text: Seq<char>,
    pub span: Span,
}

/// The view of one item of the token stream.
pub open spec fn item_view(r: Result<Token, LexError>) -> Scanned {
    match r {
        Ok(t) => Scanned { outcome: Ok(t.kind@), text: t.lexeme@, span: t.span },
        Err(e) => Scanned { outcome: Err(e.kind), text: e.lexeme@, span: e.span },
    }
}

} // verus!
