//! Line comments and nested block comments.

use vstd::prelude::*;

use crate::text::{chars_of, string_of};
use crate::token::{outcome_view, Comment, KindView, LexErrorKind, TokenKind};

verus! {

/// Whether `src[i..i + 2]` is the two characters `a`, `b`.
pub open spec fn starts_with2(src: Seq<char>, i: int, a: char, b: char) -> bool {
    0 <= i && i + 1 < src.len() && src[i] == a && src[i + 1] == b
}

/// The index of the first line feed at or after `i`, or the end of `src`.
pub open spec fn line_end(src: Seq<char>, i: int) -> int
    decreases src.len() - i,
{
    if 0 <= i < src.len() && src[i] != '\n' {
        line_end(src, i + 1)
    } else {
        i
    }
}

/// Scanning a block comment's body from `i` at nesting `depth`: the index
/// just past the `*/` that closes the outermost comment, if any. Each `/*`
/// opens one level and each `*/` closes one; the scan steps over both
/// characters of either.
pub open spec fn block_end(src: Seq<char>, i: int, depth: nat) -> Option<int>
    decreases src.len() - i,
{
    if !(0 <= i && i + 1 < src.len()) {
        None
    } else if src[i] == '/' && src[i + 1] == '*' {
        block_end(src, i + 2, depth + 1)
    } else if src[i] == '*' && src[i + 1] == '/' {
        if depth <= 1 {
            Some(i + 2)
        } else {
            block_end(src, i + 2, (depth - 1) as nat)
        }
    } else {
        block_end(src, i + 1, depth)
    }
}

/// The line comment at `pos` (which starts with `//`): its body runs to the
/// end of the line; the token also takes the line feed, if there is one.
pub open spec fn line_comment_at(src: Seq<char>, pos: int) -> (Result<KindView, LexErrorKind>, int) {
    let e = line_end(src, pos + 2);
    (Ok(KindView::LineComment(src.subrange(pos + 2, e))), if e < src.len() { e + 1 } else { e })
}

/// The block comment at `pos` (which starts with `/*`): its body lies between
/// the opening `/*` and the `*/` that balances it. Without one, the comment is
/// unterminated and the rest of the input is consumed.
pub open spec fn block_comment_at(src: Seq<char>, pos: int) -> (Result<KindView, LexErrorKind>, int) {
    match block_end(src, pos + 2, 1) {
        Some(e) => (Ok(KindView::BlockComment(src.subrange(pos + 2, e - 2))), e),
        None => (Err(LexErrorKind::UnterminatedBlockComment), src.len() as int),
    }
}

/// The comment at `pos`, if one starts there.
pub open spec fn comment_at(src: Seq<char>, pos: int) -> Option<(Result<KindView, LexErrorKind>, int)> {
    if starts_with2(src, pos, '/', '/') {
        Some(line_comment_at(src, pos))
    } else if starts_with2(src, pos, '/', '*') {
        Some(block_comment_at(src, pos))
    } else {
        None
    }
}

pub(crate) proof fn lemma_block_end_bounds(src: Seq<char>, i: int, depth: nat)
    requires
        0 <= i,
    ensures
        block_end(src, i, depth) matches Some(e) ==> i + 2 <= e <= src.len(),
    decreases src.len() - i,
{
    if 0 <= i && i + 1 < src.len() {
        if src[i] == '/' && src[i + 1] == '*' {
            lemma_block_end_bounds(src, i + 2, depth + 1);
        } else if src[i] == '*' && src[i + 1] == '/' {
            if depth > 1 {
                lemma_block_end_bounds(src, i + 2, (depth - 1) as nat);
            }
        } else {
            lemma_block_end_bounds(src, i + 1, depth);
        }
    }
}

pub(crate) proof fn lemma_line_end_bounds(src: Seq<char>, i: int)
    requires
        0 <= i <= src.len(),
    ensures
        i <= line_end(src, i) <= src.len(),
    decreases src.len() - i,
{
    if i < src.len() && src[i] != '\n' {
        lemma_line_end_bounds(src, i + 1);
    }
}

fn find_line_end(src: &Vec<char>, i: usize) -> (r: usize)
    requires
        i <= src@.len(),
    ensures
        r == line_end(src@, i as int),
        i <= r <= src@.len(),
{
    let mut j = i;
    while j < src.len() && src[j] != '\n'
        invariant
            i <= j <= src@.len(),
            line_end(src@, j as int) == line_end(src@, i as int),
        decreases src@.len() - j,
    {
        j = j + 1;
    }
    j
}

/// Scans a block comment's body from `start`, just after the opening `/*`:
/// returns the index just past the balancing `*/`, or `None` when the input
/// ends first.
pub fn take_until_unbalanced(src: &Vec<char>, start: usize) -> (r: Option<usize>)
    requires
        start <= src@.len(),
    ensures
        r matches Some(e) ==> block_end(src@, start as int, 1) == Some(e as int),
        r is None ==> block_end(src@, start as int, 1) is None,
{
    let mut i = start;
    let mut depth: usize = 1;
    while src.len() - i >= 2
        invariant
            start <= i <= src@.len(),
            1 <= depth <= i - start + 1,
            block_end(src@, i as int, depth as nat) == block_end(src@, start as int, 1),
        decreases src@.len() - i,
    {
        if src[i] == '/' && src[i + 1] == '*' {
            depth = depth + 1;
            i = i + 2;
        } else if src[i] == '*' && src[i + 1] == '/' {
            if depth == 1 {
                return Some(i + 2);
            }
            depth = depth - 1;
            i = i + 2;
        } else {
            i = i + 1;
        }
    }
    None
}

/// Reads the line comment at `pos`.
pub fn lex_line_comment(src: &Vec<char>, pos: usize) -> (r: (Result<TokenKind, LexErrorKind>, usize))
    requires
        starts_with2(src@, pos as int, '/', '/'),
    ensures
        (outcome_view(r.0), r.1 as int) == line_comment_at(src@, pos as int),
        pos < r.1 <= src@.len(),
{
    let len = src.len();
    let e = find_line_end(src, pos + 2);
    let body = string_of(src, pos + 2, e);
    let end = if e < len { e + 1 } else { e };
    (Ok(TokenKind::Comment(Comment::LineComment(body))), end)
}

/// Reads the block comment at `pos`, nested comments included.
pub fn lex_block_comment(src: &Vec<char>, pos: usize) -> (r: (Result<TokenKind, LexErrorKind>, usize))
    requires
        starts_with2(src@, pos as int, '/', '*'),
    ensures
        (outcome_view(r.0), r.1 as int) == block_comment_at(src@, pos as int),
        pos < r.1 <= src@.len(),
{
    let len = src.len();
    proof {
        lemma_block_end_bounds(src@, pos + 2, 1);
    }
    match take_until_unbalanced(src, pos + 2) {
        Some(e) => {
            let body = string_of(src, pos + 2, e - 2);
            (Ok(TokenKind::Comment(Comment::BlockComment(body))), e)
        },
        None => (Err(LexErrorKind::UnterminatedBlockComment), len),
    }
}

/// Reads the comment at the start of `input`: `None` when it starts with
/// neither `//` nor `/*`; else the comment and the number of characters it
/// takes, or the error.
pub fn lex_comment(input: &str) -> (r: Option<Result<(Comment, usize), LexErrorKind>>)
    ensures
        comment_at(input@, 0) is None <==> r is None,
        comment_at(input@, 0) matches Some((out, end)) ==> (r matches Some(res) && match res {
            Ok((c, n)) => out == Ok::<KindView, LexErrorKind>(TokenKind::Comment(c)@) && n == end,
            Err(e) => out == Err::<KindView, LexErrorKind>(e),
        }),
{
    let src = chars_of(input);
    let (out, end) = if src.len() >= 2 && src[0] == '/' && src[1] == '/' {
        lex_line_comment(&src, 0)
    } else if src.len() >= 2 && src[0] == '/' && src[1] == '*' {
        lex_block_comment(&src, 0)
    } else {
        return None;
    };
    match out {
        Ok(TokenKind::Comment(c)) => Some(Ok((c, end))),
        Err(e) => Some(Err(e)),
        _ => None,
    }
}

} // verus!
