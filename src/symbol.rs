//! Operators, assignments, punctuation and brackets.

use vstd::prelude::*;

use crate::text::chars_of;
use crate::token::{Assign, Grouping, KindView, Operator, Punctuation, TokenKind};

verus! {

/// The one-character operator `c`, if it is one.
pub open spec fn operator1(c: char) -> Option<Operator> {
    if c == '+' {
        Some(Operator::Plus)
    } else if c == '-' {
        Some(Operator::Minus)
    } else if c == '!' {
        Some(Operator::Bang)
    } else if c == '*' {
        Some(Operator::Star)
    } else if c == '/' {
        Some(Operator::Slash)
    } else if c == '%' {
        Some(Operator::Modulo)
    } else if c == '<' {
        Some(Operator::LessThan)
    } else if c == '>' {
        Some(Operator::GreaterThan)
    } else {
        None
    }
}

/// The two-character operator `ab`, if it is one.
pub open spec fn operator2(a: char, b: char) -> Option<Operator> {
    if a == '=' && b == '=' {
        Some(Operator::Equal)
    } else if a == '!' && b == '=' {
        Some(Operator::NotEqual)
    } else if a == '<' && b == '=' {
        Some(Operator::LessThanEqual)
    } else if a == '>' && b == '=' {
        Some(Operator::GreaterThanEqual)
    } else if a == '&' && b == '&' {
        Some(Operator::LogicalAnd)
    } else if a == '|' && b == '|' {
        Some(Operator::LogicalOr)
    } else {
        None
    }
}

/// The two-character assignment `ab`, if it is one.
pub open spec fn assign2(a: char, b: char) -> Option<Assign> {
    if b != '=' {
        None
    } else if a == '+' {
        Some(Assign::PlusEqual)
    } else if a == '-' {
        Some(Assign::MinusEqual)
    } else if a == '*' {
        Some(Assign::StarEqual)
    } else if a == '/' {
        Some(Assign::SlashEqual)
    } else if a == '%' {
        Some(Assign::ModuloEqual)
    } else {
        None
    }
}

/// The one-character punctuation `c`, if it is one.
pub open spec fn punctuation1(c: char) -> Option<Punctuation> {
    if c == ',' {
        Some(Punctuation::Comma)
    } else if c == ';' {
        Some(Punctuation::Semicolon)
    } else if c == ':' {
        Some(Punctuation::Colon)
    } else {
        None
    }
}

/// The bracket `c`, if it is one.
pub open spec fn grouping1(c: char) -> Option<Grouping> {
    if c == '(' {
        Some(Grouping::OpenParen)
    } else if c == ')' {
        Some(Grouping::CloseParen)
    } else if c == '[' {
        Some(Grouping::OpenSquare)
    } else if c == ']' {
        Some(Grouping::CloseSquare)
    } else if c == '{' {
        Some(Grouping::OpenBrace)
    } else if c == '}' {
        Some(Grouping::CloseBrace)
    } else {
        None
    }
}

/// The two-character token `ab`, if it is one: `->`, an operator or an
/// assignment.
pub open spec fn symbol2(a: char, b: char) -> Option<KindView> {
    if a == '-' && b == '>' {
        Some(KindView::Punctuation(Punctuation::RightArrow))
    } else if let Some(o) = operator2(a, b) {
        Some(KindView::Operator(o))
    } else if let Some(x) = assign2(a, b) {
        Some(KindView::Assign(x))
    } else {
        None
    }
}

/// The one-character token `c`, if it is one.
pub open spec fn symbol1(c: char) -> Option<KindView> {
    if let Some(p) = punctuation1(c) {
        Some(KindView::Punctuation(p))
    } else if let Some(o) = operator1(c) {
        Some(KindView::Operator(o))
    } else if c == '=' {
        Some(KindView::Assign(Assign::Equal))
    } else if let Some(g) = grouping1(c) {
        Some(KindView::Grouping(g))
    } else {
        None
    }
}

/// The operator that `s` spells, if any.
pub open spec fn operator_of(s: Seq<char>) -> Option<Operator> {
    if s.len() == 1 {
        operator1(s[0])
    } else if s.len() == 2 {
        operator2(s[0], s[1])
    } else {
        None
    }
}

/// The longest operator at the start of `s`, with its length.
pub open spec fn operator_at(s: Seq<char>) -> Option<(Operator, int)> {
    if s.len() >= 2 && operator2(s[0], s[1]) is Some {
        Some((operator2(s[0], s[1])->0, 2))
    } else if s.len() >= 1 && operator1(s[0]) is Some {
        Some((operator1(s[0])->0, 1))
    } else {
        None
    }
}

/// The punctuation at the start of `s`, with its length.
pub open spec fn punctuation_at(s: Seq<char>) -> Option<(Punctuation, int)> {
    if s.len() >= 2 && s[0] == '-' && s[1] == '>' {
        Some((Punctuation::RightArrow, 2))
    } else if s.len() >= 1 && punctuation1(s[0]) is Some {
        Some((punctuation1(s[0])->0, 1))
    } else {
        None
    }
}

/// The view of an optional token kind.
pub open spec fn opt_view(k: Option<TokenKind>) -> Option<KindView> {
    match k {
        Some(k) => Some(k@),
        None => None,
    }
}

fn operator_single(c: char) -> (r: Option<Operator>)
    ensures
        r == operator1(c),
{
    match c {
        '+' => Some(Operator::Plus),
        '-' => Some(Operator::Minus),
        '!' => Some(Operator::Bang),
        '*' => Some(Operator::Star),
        '/' => Some(Operator::Slash),
        '%' => Some(Operator::Modulo),
        '<' => Some(Operator::LessThan),
        '>' => Some(Operator::GreaterThan),
        _ => None,
    }
}

fn operator_pair(a: char, b: char) -> (r: Option<Operator>)
    ensures
        r == operator2(a, b),
{
    match (a, b) {
        ('=', '=') => Some(Operator::Equal),
        ('!', '=') => Some(Operator::NotEqual),
        ('<', '=') => Some(Operator::LessThanEqual),
        ('>', '=') => Some(Operator::GreaterThanEqual),
        ('&', '&') => Some(Operator::LogicalAnd),
        ('|', '|') => Some(Operator::LogicalOr),
        _ => None,
    }
}

fn assign_pair(a: char, b: char) -> (r: Option<Assign>)
    ensures
        r == assign2(a, b),
{
    if b != '=' {
        return None;
    }
    match a {
        '+' => Some(Assign::PlusEqual),
        '-' => Some(Assign::MinusEqual),
        '*' => Some(Assign::StarEqual),
        '/' => Some(Assign::SlashEqual),
        '%' => Some(Assign::ModuloEqual),
        _ => None,
    }
}

fn punctuation_single(c: char) -> (r: Option<Punctuation>)
    ensures
        r == punctuation1(c),
{
    match c {
        ',' => Some(Punctuation::Comma),
        ';' => Some(Punctuation::Semicolon),
        ':' => Some(Punctuation::Colon),
        _ => None,
    }
}

fn grouping_single(c: char) -> (r: Option<Grouping>)
    ensures
        r == grouping1(c),
{
    match c {
        '(' => Some(Grouping::OpenParen),
        ')' => Some(Grouping::CloseParen),
        '[' => Some(Grouping::OpenSquare),
        ']' => Some(Grouping::CloseSquare),
        '{' => Some(Grouping::OpenBrace),
        '}' => Some(Grouping::CloseBrace),
        _ => None,
    }
}

/// The two-character token `ab`, if it is one.
pub fn lex_symbol2(a: char, b: char) -> (r: Option<TokenKind>)
    ensures
        opt_view(r) == symbol2(a, b),
{
    if a == '-' && b == '>' {
        Some(TokenKind::Punctuation(Punctuation::RightArrow))
    } else if let Some(o) = operator_pair(a, b) {
        Some(TokenKind::Operator(o))
    } else if let Some(x) = assign_pair(a, b) {
        Some(TokenKind::Assign(x))
    } else {
        None
    }
}

/// The one-character token `c`, if it is one.
pub fn lex_symbol1(c: char) -> (r: Option<TokenKind>)
    ensures
        opt_view(r) == symbol1(c),
{
    if let Some(p) = punctuation_single(c) {
        Some(TokenKind::Punctuation(p))
    } else if let Some(o) = operator_single(c) {
        Some(TokenKind::Operator(o))
    } else if c == '=' {
        Some(TokenKind::Assign(Assign::Equal))
    } else if let Some(g) = grouping_single(c) {
        Some(TokenKind::Grouping(g))
    } else {
        None
    }
}

/// The operator that `text` spells, which must be one.
pub fn match_operator(text: &str) -> (r: Operator)
    requires
        operator_of(text@) is Some,
    ensures
        operator_of(text@) == Some(r),
{
    let s = chars_of(text);
    if s.len() == 1 {
        operator_single(s[0]).unwrap()
    } else {
        operator_pair(s[0], s[1]).unwrap()
    }
}

/// Reads the longest operator at the start of `input`, with the number of
/// characters it takes.
pub fn lex_operator(input: &str) -> (r: Option<(Operator, usize)>)
    ensures
        match r {
            Some((o, n)) => operator_at(input@) == Some((o, n as int)),
            None => operator_at(input@) is None,
        },
{
    let s = chars_of(input);
    if s.len() >= 2 {
        if let Some(o) = operator_pair(s[0], s[1]) {
            return Some((o, 2));
        }
    }
    if s.len() >= 1 {
        if let Some(o) = operator_single(s[0]) {
            return Some((o, 1));
        }
    }
    None
}

/// Reads the punctuation at the start of `input`, with the number of
/// characters it takes.
pub fn lex_punctuation(input: &str) -> (r: Option<(Punctuation, usize)>)
    ensures
        match r {
            Some((p, n)) => punctuation_at(input@) == Some((p, n as int)),
            None => punctuation_at(input@) is None,
        },
{
    let s = chars_of(input);
    if s.len() >= 2 && s[0] == '-' && s[1] == '>' {
        return Some((Punctuation::RightArrow, 2));
    }
    if s.len() >= 1 {
        if let Some(p) = punctuation_single(s[0]) {
            return Some((p, 1));
        }
    }
    None
}

} // verus!
