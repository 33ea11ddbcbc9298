//! Lexical front end of a small C-like language: turns source text into a
//! lossless, position-tracked stream of tokens.
//!
//! `Lexer` yields tokens and lexical errors one at a time; `tokenize` collects
//! them. Every item carries the exact source text it covers, so the texts of
//! all items, in order, give back the source.

pub mod comment;
pub mod lexer;
pub mod literal;
pub mod number;
pub mod span;
pub mod stream;
pub mod symbol;
pub mod syntax;
pub mod text;
pub mod token;

pub use comment::{lex_comment, take_until_unbalanced};
pub use lexer::{lex_literal, lex_token, match_keyword};
pub use number::{lex_number, BitCount, IntegerKind, Number, NumberKind, NumberValue};
pub use stream::{tokenize, Lexer};
pub use symbol::{lex_operator, lex_punctuation, match_operator};
pub use syntax::{SyntaxKind, SYNTAX_KIND_COUNT};
pub use text::chars_of;
pub use token::{
    Assign, Comment, Grouping, Keyword, LexError, LexErrorKind, Literal, Operator, Punctuation, Span,
    Token, TokenKind,
};
