//! The token classifier and the token stream over a source text.

use vstd::prelude::*;

use crate::comment::{
    block_comment_at, lemma_block_end_bounds, lemma_line_end_bounds, lex_block_comment,
    lex_line_comment, line_comment_at, starts_with2,
};
use crate::literal::{character_at, lemma_closing_quote_bounds, lex_character, lex_string, string_at};
use crate::number::{lemma_number_progress, number_at, number_starts, scan_number};
use crate::span::span_of;
use crate::symbol::{lex_symbol1, lex_symbol2, symbol1, symbol2};
use crate::text::{
    chars_of, digit_of, is_ascii_letter, is_digit, is_xid_continue, is_xid_start, string_of,
    xid_continue, xid_start,
};
use crate::token::{
    is_literal, item_view, literal_view, outcome_view, Keyword, KindView, LexError, LexErrorKind,
    Literal, Scanned, Token, TokenKind,
};

verus! {

/// A character that can start an identifier: `_` or an `XID_Start`
/// character (among ASCII characters, the letters).
pub open spec fn ident_start(c: char) -> bool {
    c == '_' || is_ascii_letter(c) || ((c as u32) >= 0x80 && xid_start(c))
}

/// A character that can continue an identifier: an `XID_Continue` character
/// (among ASCII characters, the letters, the digits and `_`).
pub open spec fn ident_continue(c: char) -> bool {
    c == '_' || is_ascii_letter(c) || is_digit(c) || ((c as u32) >= 0x80 && xid_continue(c))
}

/// Whitespace: space, tab, line feed or form feed.
pub open spec fn is_space(c: char) -> bool {
    c == ' ' || c == '\t' || c == '\n' || c == '\x0C'
}

/// The end of the run of identifier characters from `i`.
pub open spec fn ident_end(src: Seq<char>, i: int) -> int
    decreases src.len() - i,
{
    if 0 <= i < src.len() && ident_continue(src[i]) {
        ident_end(src, i + 1)
    } else {
        i
    }
}

/// The end of the run of whitespace from `i`.
pub open spec fn space_end(src: Seq<char>, i: int) -> int
    decreases src.len() - i,
{
    if 0 <= i < src.len() && is_space(src[i]) {
        space_end(src, i + 1)
    } else {
        i
    }
}

/// What a word is: a keyword, a boolean, or else an identifier.
pub open spec fn word_kind(s: Seq<char>) -> KindView {
    if s.len() == 2 && s[0] == 'f' && s[1] == 'n' {
        KindView::Keyword(Keyword::Function)
    } else if s.len() == 3 && s[0] == 'l' && s[1] == 'e' && s[2] == 't' {
        KindView::Keyword(Keyword::Let)
    } else if s.len() == 2 && s[0] == 'i' && s[1] == 'f' {
        KindView::Keyword(Keyword::If)
    } else if s.len() == 4 && s[0] == 'e' && s[1] == 'l' && s[2] == 's' && s[3] == 'e' {
        KindView::Keyword(Keyword::Else)
    } else if s.len() == 6 && s[0] == 'r' && s[1] == 'e' && s[2] == 't' && s[3] == 'u' && s[4]
        == 'r' && s[5] == 'n' {
        KindView::Keyword(Keyword::Return)
    } else if s.len() == 4 && s[0] == 't' && s[1] == 'r' && s[2] == 'u' && s[3] == 'e' {
        KindView::Bool(true)
    } else if s.len() == 5 && s[0] == 'f' && s[1] == 'a' && s[2] == 'l' && s[3] == 's' && s[4]
        == 'e' {
        KindView::Bool(false)
    } else {
        KindView::Identifier(s)
    }
}

/// The token at `pos`, and where it ends. Comments come first, then
/// two-character symbols, string and character literals, numbers, words,
/// whitespace and one-character symbols; any other character is `Illegal`.
pub open spec fn lex_at(src: Seq<char>, pos: int) -> (Result<KindView, LexErrorKind>, int) {
    let c = src[pos];
    if starts_with2(src, pos, '/', '/') {
        line_comment_at(src, pos)
    } else if starts_with2(src, pos, '/', '*') {
        block_comment_at(src, pos)
    } else if pos + 1 < src.len() && symbol2(c, src[pos + 1]) is Some {
        (Ok(symbol2(c, src[pos + 1])->0), pos + 2)
    } else if c == '"' {
        string_at(src, pos)
    } else if c == '\'' {
        character_at(src, pos)
    } else if number_starts(src, pos) {
        number_at(src, pos)
    } else if ident_start(c) {
        let e = ident_end(src, pos + 1);
        (Ok(word_kind(src.subrange(pos, e))), e)
    } else if is_space(c) {
        let e = space_end(src, pos + 1);
        (Ok(KindView::Whitespace(src.subrange(pos, e))), e)
    } else if symbol1(c) is Some {
        (Ok(symbol1(c)->0), pos + 1)
    } else {
        (Ok(KindView::Illegal), pos + 1)
    }
}

/// The item read at `pos`.
pub open spec fn scanned_at(src: Seq<char>, pos: int) -> Scanned {
    let (outcome, end) = lex_at(src, pos);
    Scanned { outcome, text: src.subrange(pos, end), span: span_of(src, pos, end) }
}

/// The end-of-input item.
pub open spec fn eof_of(src: Seq<char>) -> Scanned {
    Scanned {
        outcome: Ok(KindView::Eof),
        text: Seq::empty(),
        span: span_of(src, src.len() as int, src.len() as int),
    }
}

/// The items of the stream from `pos` on: one per token or error, then
/// `Eof`. (Every token takes at least one character, so the guard on `end`
/// always holds; it makes the recursion evidently finite.)
pub open spec fn items_from(src: Seq<char>, pos: int) -> Seq<Scanned>
    decreases src.len() - pos,
{
    if pos >= src.len() {
        seq![eof_of(src)]
    } else {
        let end = lex_at(src, pos).1;
        if pos < end <= src.len() {
            seq![scanned_at(src, pos)] + items_from(src, end)
        } else {
            Seq::empty()
        }
    }
}

/// The source text that a sequence of items covers, in order.
pub open spec fn joined(items: Seq<Scanned>) -> Seq<char>
    decreases items.len(),
{
    if items.len() == 0 {
        Seq::empty()
    } else {
        joined(items.drop_last()) + items.last().text
    }
}

/// The views of a sequence of stream items.
pub open spec fn views(items: Seq<Result<Token, LexError>>) -> Seq<Scanned> {
    items.map_values(|it: Result<Token, LexError>| item_view(it))
}

proof fn lemma_ident_end_bounds(src: Seq<char>, i: int)
    requires
        0 <= i <= src.len(),
    ensures
        i <= ident_end(src, i) <= src.len(),
    decreases src.len() - i,
{
    if i < src.len() && ident_continue(src[i]) {
        lemma_ident_end_bounds(src, i + 1);
    }
}

proof fn lemma_space_end_bounds(src: Seq<char>, i: int)
    requires
        0 <= i <= src.len(),
    ensures
        i <= space_end(src, i) <= src.len(),
    decreases src.len() - i,
{
    if i < src.len() && is_space(src[i]) {
        lemma_space_end_bounds(src, i + 1);
    }
}

/// Every token takes at least one character, and no more than there are.
pub(crate) proof fn lemma_lex_progress(src: Seq<char>, pos: int)
    requires
        0 <= pos < src.len() <= usize::MAX,
    ensures
        pos < lex_at(src, pos).1 <= src.len(),
{
    let c = src[pos];
    if starts_with2(src, pos, '/', '/') {
        lemma_line_end_bounds(src, pos + 2);
    } else if starts_with2(src, pos, '/', '*') {
        lemma_block_end_bounds(src, pos + 2, 1);
    } else if pos + 1 < src.len() && symbol2(c, src[pos + 1]) is Some {
    } else if c == '"' || c == '\'' {
        lemma_closing_quote_bounds(src, pos + 1, c);
    } else if number_starts(src, pos) {
        lemma_number_progress(src, pos);
    } else if ident_start(c) {
        lemma_ident_end_bounds(src, pos + 1);
    } else if is_space(c) {
        lemma_space_end_bounds(src, pos + 1);
    }
}

proof fn lemma_joined_concat(a: Seq<Scanned>, b: Seq<Scanned>)
    ensures
        joined(a + b) == joined(a) + joined(b),
    decreases b.len(),
{
    if b.len() == 0 {
        assert(a + b =~= a);
        assert(joined(a) + Seq::<char>::empty() =~= joined(a));
    } else {
        lemma_joined_concat(a, b.drop_last());
        assert((a + b).drop_last() =~= a + b.drop_last());
        assert(joined(a) + joined(b.drop_last()) + b.last().text =~= joined(a) + (joined(
            b.drop_last(),
        ) + b.last().text));
    }
}

proof fn lemma_items_joined(src: Seq<char>, pos: int)
    requires
        0 <= pos <= src.len() <= usize::MAX,
    ensures
        joined(items_from(src, pos)) == src.subrange(pos, src.len() as int),
    decreases src.len() - pos,
{
    if pos >= src.len() {
        assert(seq![eof_of(src)].drop_last() =~= Seq::<Scanned>::empty());
        assert(joined(Seq::<Scanned>::empty()) == Seq::<char>::empty());
        assert(joined(seq![eof_of(src)]) =~= Seq::<char>::empty() + eof_of(src).text);
        assert(src.subrange(pos, src.len() as int) =~= Seq::<char>::empty());
    } else {
        lemma_lex_progress(src, pos);
        let end = lex_at(src, pos).1;
        let first = scanned_at(src, pos);
        lemma_items_joined(src, end);
        lemma_joined_concat(seq![first], items_from(src, end));
        assert(seq![first].drop_last() =~= Seq::<Scanned>::empty());
        assert(joined(Seq::<Scanned>::empty()) == Seq::<char>::empty());
        assert(joined(seq![first]) =~= Seq::<char>::empty() + first.text);
        assert(src.subrange(pos, src.len() as int) =~= src.subrange(pos, end) + src.subrange(
            end,
            src.len() as int,
        ));
    }
}

/// Losslessness: for every source text, the texts of the stream's items,
/// joined in order, are the source text.
pub proof fn lemma_lossless(src: Seq<char>)
    requires
        src.len() <= usize::MAX,
    ensures
        joined(items_from(src, 0)) == src,
{
    lemma_items_joined(src, 0);
    assert(src.subrange(0, src.len() as int) =~= src);
}

/// What a word is: a keyword, `true` or `false`, or else an identifier.
pub fn match_keyword(identifier: &str) -> (r: TokenKind)
    ensures
        r@ == word_kind(identifier@),
{
    let s = chars_of(identifier);
    let n = s.len();
    if n == 2 && s[0] == 'f' && s[1] == 'n' {
        TokenKind::Keyword(Keyword::Function)
    } else if n == 3 && s[0] == 'l' && s[1] == 'e' && s[2] == 't' {
        TokenKind::Keyword(Keyword::Let)
    } else if n == 2 && s[0] == 'i' && s[1] == 'f' {
        TokenKind::Keyword(Keyword::If)
    } else if n == 4 && s[0] == 'e' && s[1] == 'l' && s[2] == 's' && s[3] == 'e' {
        TokenKind::Keyword(Keyword::Else)
    } else if n == 6 && s[0] == 'r' && s[1] == 'e' && s[2] == 't' && s[3] == 'u' && s[4] == 'r'
        && s[5] == 'n' {
        TokenKind::Keyword(Keyword::Return)
    } else if n == 4 && s[0] == 't' && s[1] == 'r' && s[2] == 'u' && s[3] == 'e' {
        TokenKind::Bool(true)
    } else if n == 5 && s[0] == 'f' && s[1] == 'a' && s[2] == 'l' && s[3] == 's' && s[4] == 'e' {
        TokenKind::Bool(false)
    } else {
        TokenKind::Identifier(identifier.to_owned())
    }
}

fn is_ident_start(c: char) -> (r: bool)
    ensures
        r == ident_start(c),
{
    if c == '_' || ('a' <= c && c <= 'z') || ('A' <= c && c <= 'Z') {
        true
    } else {
        (c as u32) >= 0x80 && is_xid_start(c)
    }
}

fn is_ident_continue(c: char) -> (r: bool)
    ensures
        r == ident_continue(c),
{
    if c == '_' || ('a' <= c && c <= 'z') || ('A' <= c && c <= 'Z') || ('0' <= c && c <= '9') {
        true
    } else {
        (c as u32) >= 0x80 && is_xid_continue(c)
    }
}

fn is_whitespace(c: char) -> (r: bool)
    ensures
        r == is_space(c),
{
    c == ' ' || c == '\t' || c == '\n' || c == '\x0C'
}

/// Reads the identifier, keyword or boolean at `pos`.
pub fn lex_identifier(src: &Vec<char>, pos: usize) -> (r: (TokenKind, usize))
    requires
        pos < src@.len(),
        ident_start(src@[pos as int]),
    ensures
        r.1 == ident_end(src@, pos + 1),
        pos < r.1 <= src@.len(),
        r.0@ == word_kind(src@.subrange(pos as int, r.1 as int)),
{
    let len = src.len();
    let mut e = pos + 1;
    while e < len && is_ident_continue(src[e])
        invariant
            pos < e <= src@.len(),
            len == src@.len(),
            ident_end(src@, e as int) == ident_end(src@, pos + 1),
        decreases src@.len() - e,
    {
        e = e + 1;
    }
    let word = string_of(src, pos, e);
    (match_keyword(word.as_str()), e)
}

fn lex_whitespace(src: &Vec<char>, pos: usize) -> (r: (TokenKind, usize))
    requires
        pos < src@.len(),
        is_space(src@[pos as int]),
    ensures
        r.1 == space_end(src@, pos + 1),
        pos < r.1 <= src@.len(),
        r.0@ == KindView::Whitespace(src@.subrange(pos as int, r.1 as int)),
{
    let len = src.len();
    let mut e = pos + 1;
    while e < len && is_whitespace(src[e])
        invariant
            pos < e <= src@.len(),
            len == src@.len(),
            space_end(src@, e as int) == space_end(src@, pos + 1),
        decreases src@.len() - e,
    {
        e = e + 1;
    }
    (TokenKind::Whitespace(string_of(src, pos, e)), e)
}

/// Reads the token at `pos`: what it is, or the error, and where it ends.
pub fn lex_token(src: &Vec<char>, pos: usize) -> (r: (Result<TokenKind, LexErrorKind>, usize))
    requires
        pos < src@.len(),
    ensures
        (outcome_view(r.0), r.1 as int) == lex_at(src@, pos as int),
        pos < r.1 <= src@.len(),
{
    let len = src.len();
    let c = src[pos];
    let next = if pos + 1 < len {
        Some(src[pos + 1])
    } else {
        None
    };
    if c == '/' && next == Some('/') {
        return lex_line_comment(src, pos);
    }
    if c == '/' && next == Some('*') {
        return lex_block_comment(src, pos);
    }
    if let Some(n) = next {
        if let Some(k) = lex_symbol2(c, n) {
            return (Ok(k), pos + 2);
        }
    }
    if c == '"' {
        lex_string(src, pos)
    } else if c == '\'' {
        lex_character(src, pos)
    } else if digit_of(c, 10).is_some() || (c == '.' && pos + 1 < len && digit_of(
        src[pos + 1],
        10,
    ).is_some()) {
        scan_number(src, pos)
    } else if is_ident_start(c) {
        let (k, e) = lex_identifier(src, pos);
        (Ok(k), e)
    } else if is_whitespace(c) {
        let (k, e) = lex_whitespace(src, pos);
        (Ok(k), e)
    } else if let Some(k) = lex_symbol1(c) {
        (Ok(k), pos + 1)
    } else {
        (Ok(TokenKind::Illegal), pos + 1)
    }
}

/// Reads the literal at the start of `input`: `None` when the token there
/// is no literal (nor a malformed one); else the literal and the number of
/// characters it takes, or the error.
pub fn lex_literal(input: &str) -> (r: Option<Result<(Literal, usize), LexErrorKind>>)
    ensures
        input@.len() == 0 ==> r is None,
        input@.len() > 0 ==> match r {
            Some(Ok((l, n))) => lex_at(input@, 0) == (
                Ok::<KindView, LexErrorKind>(literal_view(l)),
                n as int,
            ),
            Some(Err(e)) => lex_at(input@, 0).0 == Err::<KindView, LexErrorKind>(e) && e
                != LexErrorKind::UnterminatedBlockComment,
            None => match lex_at(input@, 0).0 {
                Ok(k) => !is_literal(k),
                Err(e) => e == LexErrorKind::UnterminatedBlockComment,
            },
        },
{
    let src = chars_of(input);
    if src.len() == 0 {
        return None;
    }
    let (out, end) = lex_token(&src, 0);
    match out {
        Ok(TokenKind::String(s)) => Some(Ok((Literal::String(s), end))),
        Ok(TokenKind::Character(c)) => Some(Ok((Literal::Character(c), end))),
        Ok(TokenKind::Bool(b)) => Some(Ok((Literal::Boolean(b), end))),
        Ok(TokenKind::Number(n)) => Some(Ok((Literal::Number(n), end))),
        Ok(_) => None,
        Err(LexErrorKind::UnterminatedBlockComment) => None,
        Err(e) => Some(Err(e)),
    }
}

} // verus!
