//! The kinds of node and token of the syntax tree, and how tokens map to
//! them.

use vstd::prelude::*;

use crate::token::{Assign, Comment, Grouping, Keyword, KindView, Operator, Punctuation, TokenKind};

verus! {

/// The number of syntax kinds; raw kinds are below it.
pub const SYNTAX_KIND_COUNT: u16 = 52;

/// The kind of a node or token of the syntax tree.
#[derive(Clone, Copy, Debug, PartialEq, Eq, Structural, PartialOrd, Ord, Hash)]
pub enum SyntaxKind {
    LineComment,
    BlockComment,
    Whitespace,
    FunctionKeyword,
    LetKeyword,
    IfKeyword,
    ElseKeyword,
    ReturnKeyword,
    Equal,
    NotEqual,
    LessThan,
    GreaterThan,
    LessThanEqual,
    GreaterThanEqual,
    LogicalAnd,
    LogicalOr,
    Plus,
    Minus,
    Bang,
    Star,
    Slash,
    Modulo,
    SingleEqual,
    PlusEqual,
    MinusEqual,
    SlashEqual,
    StarEqual,
    ModuloEqual,
    Comma,
    Semicolon,
    Colon,
    RightArrow,
    OpenParen,
    CloseParen,
    OpenSquare,
    CloseSquare,
    OpenBrace,
    CloseBrace,
    Identifier,
    Number,
    Bool,
    String,
    Character,
    LetStmt,
    ReturnStmt,
    BreakStmt,
    ContinueStmt,
    StructStmt,
    FunctionExpr,
    IfExpr,
    Error,
    Root,
}

/// The syntax kind of a token kind; the end of input has none.
pub open spec fn syntax_kind_of(k: KindView) -> Option<SyntaxKind> {
    match k {
        KindView::LineComment(_) => Some(SyntaxKind::LineComment),
        KindView::BlockComment(_) => Some(SyntaxKind::BlockComment),
        KindView::Punctuation(Punctuation::Comma) => Some(SyntaxKind::Comma),
        KindView::Punctuation(Punctuation::Semicolon) => Some(SyntaxKind::Semicolon),
        KindView::Punctuation(Punctuation::Colon) => Some(SyntaxKind::Colon),
        KindView::Punctuation(Punctuation::RightArrow) => Some(SyntaxKind::RightArrow),
        KindView::Operator(Operator::Equal) => Some(SyntaxKind::Equal),
        KindView::Operator(Operator::NotEqual) => Some(SyntaxKind::NotEqual),
        KindView::Operator(Operator::LessThan) => Some(SyntaxKind::LessThan),
        KindView::Operator(Operator::GreaterThan) => Some(SyntaxKind::GreaterThan),
        KindView::Operator(Operator::LessThanEqual) => Some(SyntaxKind::LessThanEqual),
        KindView::Operator(Operator::GreaterThanEqual) => Some(SyntaxKind::GreaterThanEqual),
        KindView::Operator(Operator::LogicalAnd) => Some(SyntaxKind::LogicalAnd),
        KindView::Operator(Operator::LogicalOr) => Some(SyntaxKind::LogicalOr),
        KindView::Operator(Operator::Plus) => Some(SyntaxKind::Plus),
        KindView::Operator(Operator::Minus) => Some(SyntaxKind::Minus),
        KindView::Operator(Operator::Bang) => Some(SyntaxKind::Bang),
        KindView::Operator(Operator::Star) => Some(SyntaxKind::Star),
        KindView::Operator(Operator::Slash) => Some(SyntaxKind::Slash),
        KindView::Operator(Operator::Modulo) => Some(SyntaxKind::Modulo),
        KindView::Assign(Assign::Equal) => Some(SyntaxKind::SingleEqual),
        KindView::Assign(Assign::PlusEqual) => Some(SyntaxKind::PlusEqual),
        KindView::Assign(Assign::MinusEqual) => Some(SyntaxKind::MinusEqual),
        KindView::Assign(Assign::SlashEqual) => Some(SyntaxKind::SlashEqual),
        KindView::Assign(Assign::StarEqual) => Some(SyntaxKind::StarEqual),
        KindView::Assign(Assign::ModuloEqual) => Some(SyntaxKind::ModuloEqual),
        KindView::Grouping(Grouping::OpenParen) => Some(SyntaxKind::OpenParen),
        KindView::Grouping(Grouping::CloseParen) => Some(SyntaxKind::CloseParen),
        KindView::Grouping(Grouping::OpenSquare) => Some(SyntaxKind::OpenSquare),
        KindView::Grouping(Grouping::CloseSquare) => Some(SyntaxKind::CloseSquare),
        KindView::Grouping(Grouping::OpenBrace) => Some(SyntaxKind::OpenBrace),
        KindView::Grouping(Grouping::CloseBrace) => Some(SyntaxKind::CloseBrace),
        KindView::Keyword(Keyword::Function) => Some(SyntaxKind::FunctionKeyword),
        KindView::Keyword(Keyword::Let) => Some(SyntaxKind::LetKeyword),
        KindView::Keyword(Keyword::If) => Some(SyntaxKind::IfKeyword),
        KindView::Keyword(Keyword::Else) => Some(SyntaxKind::ElseKeyword),
        KindView::Keyword(Keyword::Return) => Some(SyntaxKind::ReturnKeyword),
        KindView::Identifier(_) => Some(SyntaxKind::Identifier),
        KindView::Character(_) => Some(SyntaxKind::Character),
        KindView::String(_) => Some(SyntaxKind::String),
        KindView::Bool(_) => Some(SyntaxKind::Bool),
        KindView::Number(_) => Some(SyntaxKind::Number),
        KindView::Whitespace(_) => Some(SyntaxKind::Whitespace),
        KindView::Illegal => Some(SyntaxKind::Error),
        KindView::Eof => None,
    }
}

/// The raw number of a syntax kind: its position in the declaration.
pub open spec fn raw_of(k: SyntaxKind) -> u16 {
    match k {
        SyntaxKind::LineComment => 0,
        SyntaxKind::BlockComment => 1,
        SyntaxKind::Whitespace => 2,
        SyntaxKind::FunctionKeyword => 3,
        SyntaxKind::LetKeyword => 4,
        SyntaxKind::IfKeyword => 5,
        SyntaxKind::ElseKeyword => 6,
        SyntaxKind::ReturnKeyword => 7,
        SyntaxKind::Equal => 8,
        SyntaxKind::NotEqual => 9,
        SyntaxKind::LessThan => 10,
        SyntaxKind::GreaterThan => 11,
        SyntaxKind::LessThanEqual => 12,
        SyntaxKind::GreaterThanEqual => 13,
        SyntaxKind::LogicalAnd => 14,
        SyntaxKind::LogicalOr => 15,
        SyntaxKind::Plus => 16,
        SyntaxKind::Minus => 17,
        SyntaxKind::Bang => 18,
        SyntaxKind::Star => 19,
        SyntaxKind::Slash => 20,
        SyntaxKind::Modulo => 21,
        SyntaxKind::SingleEqual => 22,
        SyntaxKind::PlusEqual => 23,
        SyntaxKind::MinusEqual => 24,
        SyntaxKind::SlashEqual => 25,
        SyntaxKind::StarEqual => 26,
        SyntaxKind::ModuloEqual => 27,
        SyntaxKind::Comma => 28,
        SyntaxKind::Semicolon => 29,
        SyntaxKind::Colon => 30,
        SyntaxKind::RightArrow => 31,
        SyntaxKind::OpenParen => 32,
        SyntaxKind::CloseParen => 33,
        SyntaxKind::OpenSquare => 34,
        SyntaxKind::CloseSquare => 35,
        SyntaxKind::OpenBrace => 36,
        SyntaxKind::CloseBrace => 37,
        SyntaxKind::Identifier => 38,
        SyntaxKind::Number => 39,
        SyntaxKind::Bool => 40,
        SyntaxKind::String => 41,
        SyntaxKind::Character => 42,
        SyntaxKind::LetStmt => 43,
        SyntaxKind::ReturnStmt => 44,
        SyntaxKind::BreakStmt => 45,
        SyntaxKind::ContinueStmt => 46,
        SyntaxKind::StructStmt => 47,
        SyntaxKind::FunctionExpr => 48,
        SyntaxKind::IfExpr => 49,
        SyntaxKind::Error => 50,
        SyntaxKind::Root => 51,
    }
}

impl SyntaxKind {
    /// The syntax kind of a token kind, or `None` for the end of input.
    pub fn from(kind: &TokenKind) -> (r: Option<SyntaxKind>)
        ensures
            r == syntax_kind_of(kind@),
    {
        match kind {
            TokenKind::Comment(Comment::LineComment(_)) => Some(SyntaxKind::LineComment),
            TokenKind::Comment(Comment::BlockComment(_)) => Some(SyntaxKind::BlockComment),
            TokenKind::Punctuation(Punctuation::Comma) => Some(SyntaxKind::Comma),
            TokenKind::Punctuation(Punctuation::Semicolon) => Some(SyntaxKind::Semicolon),
            TokenKind::Punctuation(Punctuation::Colon) => Some(SyntaxKind::Colon),
            TokenKind::Punctuation(Punctuation::RightArrow) => Some(SyntaxKind::RightArrow),
            TokenKind::Operator(Operator::Equal) => Some(SyntaxKind::Equal),
            TokenKind::Operator(Operator::NotEqual) => Some(SyntaxKind::NotEqual),
            TokenKind::Operator(Operator::LessThan) => Some(SyntaxKind::LessThan),
            TokenKind::Operator(Operator::GreaterThan) => Some(SyntaxKind::GreaterThan),
            TokenKind::Operator(Operator::LessThanEqual) => Some(SyntaxKind::LessThanEqual),
            TokenKind::Operator(Operator::GreaterThanEqual) => Some(SyntaxKind::GreaterThanEqual),
            TokenKind::Operator(Operator::LogicalAnd) => Some(SyntaxKind::LogicalAnd),
            TokenKind::Operator(Operator::LogicalOr) => Some(SyntaxKind::LogicalOr),
            TokenKind::Operator(Operator::Plus) => Some(SyntaxKind::Plus),
            TokenKind::Operator(Operator::Minus) => Some(SyntaxKind::Minus),
            TokenKind::Operator(Operator::Bang) => Some(SyntaxKind::Bang),
            TokenKind::Operator(Operator::Star) => Some(SyntaxKind::Star),
            TokenKind::Operator(Operator::Slash) => Some(SyntaxKind::Slash),
            TokenKind::Operator(Operator::Modulo) => Some(SyntaxKind::Modulo),
            TokenKind::Assign(Assign::Equal) => Some(SyntaxKind::SingleEqual),
            TokenKind::Assign(Assign::PlusEqual) => Some(SyntaxKind::PlusEqual),
            TokenKind::Assign(Assign::MinusEqual) => Some(SyntaxKind::MinusEqual),
            TokenKind::Assign(Assign::SlashEqual) => Some(SyntaxKind::SlashEqual),
            TokenKind::Assign(Assign::StarEqual) => Some(SyntaxKind::StarEqual),
            TokenKind::Assign(Assign::ModuloEqual) => Some(SyntaxKind::ModuloEqual),
            TokenKind::Grouping(Grouping::OpenParen) => Some(SyntaxKind::OpenParen),
            TokenKind::Grouping(Grouping::CloseParen) => Some(SyntaxKind::CloseParen),
            TokenKind::Grouping(Grouping::OpenSquare) => Some(SyntaxKind::OpenSquare),
            TokenKind::Grouping(Grouping::CloseSquare) => Some(SyntaxKind::CloseSquare),
            TokenKind::Grouping(Grouping::OpenBrace) => Some(SyntaxKind::OpenBrace),
            TokenKind::Grouping(Grouping::CloseBrace) => Some(SyntaxKind::CloseBrace),
            TokenKind::Keyword(Keyword::Function) => Some(SyntaxKind::FunctionKeyword),
            TokenKind::Keyword(Keyword::Let) => Some(SyntaxKind::LetKeyword),
            TokenKind::Keyword(Keyword::If) => Some(SyntaxKind::IfKeyword),
            TokenKind::Keyword(Keyword::Else) => Some(SyntaxKind::ElseKeyword),
            TokenKind::Keyword(Keyword::Return) => Some(SyntaxKind::ReturnKeyword),
            TokenKind::Identifier(_) => Some(SyntaxKind::Identifier),
            TokenKind::Character(_) => Some(SyntaxKind::Character),
            TokenKind::String(_) => Some(SyntaxKind::String),
            TokenKind::Bool(_) => Some(SyntaxKind::Bool),
            TokenKind::Number(_) => Some(SyntaxKind::Number),
            TokenKind::Whitespace(_) => Some(SyntaxKind::Whitespace),
            TokenKind::Illegal => Some(SyntaxKind::Error),
            TokenKind::Eof => None,
        }
    }

    /// The raw number of this kind.
    pub fn to_raw(self) -> (r: u16)
        ensures
            r == raw_of(self),
            r < SYNTAX_KIND_COUNT,
    {
        match self {
            SyntaxKind::LineComment => 0,
            SyntaxKind::BlockComment => 1,
            SyntaxKind::Whitespace => 2,
            SyntaxKind::FunctionKeyword => 3,
            SyntaxKind::LetKeyword => 4,
            SyntaxKind::IfKeyword => 5,
            SyntaxKind::ElseKeyword => 6,
            SyntaxKind::ReturnKeyword => 7,
            SyntaxKind::Equal => 8,
            SyntaxKind::NotEqual => 9,
            SyntaxKind::LessThan => 10,
            SyntaxKind::GreaterThan => 11,
            SyntaxKind::LessThanEqual => 12,
            SyntaxKind::GreaterThanEqual => 13,
            SyntaxKind::LogicalAnd => 14,
            SyntaxKind::LogicalOr => 15,
            SyntaxKind::Plus => 16,
            SyntaxKind::Minus => 17,
            SyntaxKind::Bang => 18,
            SyntaxKind::Star => 19,
            SyntaxKind::Slash => 20,
            SyntaxKind::Modulo => 21,
            SyntaxKind::SingleEqual => 22,
            SyntaxKind::PlusEqual => 23,
            SyntaxKind::MinusEqual => 24,
            SyntaxKind::SlashEqual => 25,
            SyntaxKind::StarEqual => 26,
            SyntaxKind::ModuloEqual => 27,
            SyntaxKind::Comma => 28,
            SyntaxKind::Semicolon => 29,
            SyntaxKind::Colon => 30,
            SyntaxKind::RightArrow => 31,
            SyntaxKind::OpenParen => 32,
            SyntaxKind::CloseParen => 33,
            SyntaxKind::OpenSquare => 34,
            SyntaxKind::CloseSquare => 35,
            SyntaxKind::OpenBrace => 36,
            SyntaxKind::CloseBrace => 37,
            SyntaxKind::Identifier => 38,
            SyntaxKind::Number => 39,
            SyntaxKind::Bool => 40,
            SyntaxKind::String => 41,
            SyntaxKind::Character => 42,
            SyntaxKind::LetStmt => 43,
            SyntaxKind::ReturnStmt => 44,
            SyntaxKind::BreakStmt => 45,
            SyntaxKind::ContinueStmt => 46,
            SyntaxKind::StructStmt => 47,
            SyntaxKind::FunctionExpr => 48,
            SyntaxKind::IfExpr => 49,
            SyntaxKind::Error => 50,
            SyntaxKind::Root => 51,
        }
    }

    /// The kind with raw number `raw`, if there is one.
    pub fn from_raw(raw: u16) -> (r: Option<SyntaxKind>)
        ensures
            r matches Some(k) ==> raw_of(k) == raw,
            r is None <==> raw >= SYNTAX_KIND_COUNT,
    {
        match raw {
            0 => Some(SyntaxKind::LineComment),
            1 => Some(SyntaxKind::BlockComment),
            2 => Some(SyntaxKind::Whitespace),
            3 => Some(SyntaxKind::FunctionKeyword),
            4 => Some(SyntaxKind::LetKeyword),
            5 => Some(SyntaxKind::IfKeyword),
            6 => Some(SyntaxKind::ElseKeyword),
            7 => Some(SyntaxKind::ReturnKeyword),
            8 => Some(SyntaxKind::Equal),
            9 => Some(SyntaxKind::NotEqual),
            10 => Some(SyntaxKind::LessThan),
            11 => Some(SyntaxKind::GreaterThan),
            12 => Some(SyntaxKind::LessThanEqual),
            13 => Some(SyntaxKind::GreaterThanEqual),
            14 => Some(SyntaxKind::LogicalAnd),
            15 => Some(SyntaxKind::LogicalOr),
            16 => Some(SyntaxKind::Plus),
            17 => Some(SyntaxKind::Minus),
            18 => Some(SyntaxKind::Bang),
            19 => Some(SyntaxKind::Star),
            20 => Some(SyntaxKind::Slash),
            21 => Some(SyntaxKind::Modulo),
            22 => Some(SyntaxKind::SingleEqual),
            23 => Some(SyntaxKind::PlusEqual),
            24 => Some(SyntaxKind::MinusEqual),
            25 => Some(SyntaxKind::SlashEqual),
            26 => Some(SyntaxKind::StarEqual),
            27 => Some(SyntaxKind::ModuloEqual),
            28 => Some(SyntaxKind::Comma),
            29 => Some(SyntaxKind::Semicolon),
            30 => Some(SyntaxKind::Colon),
            31 => Some(SyntaxKind::RightArrow),
            32 => Some(SyntaxKind::OpenParen),
            33 => Some(SyntaxKind::CloseParen),
            34 => Some(SyntaxKind::OpenSquare),
            35 => Some(SyntaxKind::CloseSquare),
            36 => Some(SyntaxKind::OpenBrace),
            37 => Some(SyntaxKind::CloseBrace),
            38 => Some(SyntaxKind::Identifier),
            39 => Some(SyntaxKind::Number),
            40 => Some(SyntaxKind::Bool),
            41 => Some(SyntaxKind::String),
            42 => Some(SyntaxKind::Character),
            43 => Some(SyntaxKind::LetStmt),
            44 => Some(SyntaxKind::ReturnStmt),
            45 => Some(SyntaxKind::BreakStmt),
            46 => Some(SyntaxKind::ContinueStmt),
            47 => Some(SyntaxKind::StructStmt),
            48 => Some(SyntaxKind::FunctionExpr),
            49 => Some(SyntaxKind::IfExpr),
            50 => Some(SyntaxKind::Error),
            51 => Some(SyntaxKind::Root),
            _ => None,
        }
    }
}

} // verus!
