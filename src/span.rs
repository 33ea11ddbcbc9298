//! Positions in the source: byte offsets, lines and columns.

use vstd::prelude::*;
use vstd::utf8::{char_is_scalar, encode_scalar, encode_utf8};

use crate::token::Span;

verus! {

/// The number of bytes of the UTF-8 encoding of `c`.
pub open spec fn utf8_width(c: char) -> nat {
    if (c as u32) < 0x80 {
        1
    } else if (c as u32) < 0x800 {
        2
    } else if (c as u32) < 0x10000 {
        3
    } else {
        4
    }
}

/// The number of bytes of the UTF-8 encoding of `s`.
pub open spec fn utf8_len(s: Seq<char>) -> nat
    decreases s.len(),
{
    if s.len() == 0 {
        0
    } else {
        utf8_width(s[0]) + utf8_len(s.drop_first())
    }
}

/// The byte offset of the character at index `i` of `src`.
pub open spec fn byte_offset(src: Seq<char>, i: int) -> nat {
    utf8_len(src.subrange(0, i))
}

/// The line and column, both from 1, of the character at index `i`: a line
/// feed starts a new line, and the column counts characters.
pub open spec fn line_col(src: Seq<char>, i: int) -> (nat, nat)
    decreases i,
{
    if i <= 0 {
        (1, 1)
    } else {
        let (l, c) = line_col(src, i - 1);
        if src[i - 1] == '\n' {
            (l + 1, 1)
        } else {
            (l, c + 1)
        }
    }
}

/// The span of the characters `src[start..end]`.
pub open spec fn span_of(src: Seq<char>, start: int, end: int) -> Span {
    Span {
        start: byte_offset(src, start) as usize,
        end: byte_offset(src, end) as usize,
        line: line_col(src, start).0 as u32,
        column: line_col(src, start).1 as u32,
    }
}

pub proof fn lemma_utf8_len_concat(a: Seq<char>, b: Seq<char>)
    ensures
        utf8_len(a + b) == utf8_len(a) + utf8_len(b),
    decreases a.len(),
{
    if a.len() > 0 {
        assert((a + b).drop_first() =~= a.drop_first() + b);
        lemma_utf8_len_concat(a.drop_first(), b);
    } else {
        assert(a + b =~= b);
    }
}

/// The encoding that `str` lengths count has `utf8_len` bytes.
pub proof fn lemma_encode_len(s: Seq<char>)
    ensures
        encode_utf8(s).len() == utf8_len(s),
    decreases s.len(),
{
    if s.len() > 0 {
        char_is_scalar(s[0]);
        assert(encode_scalar(s[0] as u32).len() == utf8_width(s[0]));
        lemma_encode_len(s.drop_first());
    }
}

/// Stepping over one character adds its width to the byte offset.
pub proof fn lemma_byte_offset_step(src: Seq<char>, i: int)
    requires
        0 <= i < src.len(),
    ensures
        byte_offset(src, i + 1) == byte_offset(src, i) + utf8_width(src[i]),
        byte_offset(src, i + 1) <= utf8_len(src),
{
    let a = src.subrange(0, i);
    assert(src.subrange(0, i + 1) =~= a + seq![src[i]]);
    lemma_utf8_len_concat(a, seq![src[i]]);
    assert(seq![src[i]].drop_first() =~= Seq::<char>::empty());
    assert(utf8_len(Seq::<char>::empty()) == 0);
    assert(utf8_len(seq![src[i]]) == utf8_width(src[i]));
    assert(src =~= src.subrange(0, i + 1) + src.subrange(i + 1, src.len() as int));
    lemma_utf8_len_concat(src.subrange(0, i + 1), src.subrange(i + 1, src.len() as int));
}

/// Lines and columns never exceed one more than the index.
pub proof fn lemma_line_col_bound(src: Seq<char>, i: int)
    requires
        0 <= i,
    ensures
        1 <= line_col(src, i).0 <= i + 1,
        1 <= line_col(src, i).1 <= i + 1,
    decreases i,
{
    if i > 0 {
        lemma_line_col_bound(src, i - 1);
    }
}

/// The width of `c` in UTF-8.
pub fn char_width(c: char) -> (r: usize)
    ensures
        r == utf8_width(c),
{
    if (c as u32) < 0x80 {
        1
    } else if (c as u32) < 0x800 {
        2
    } else if (c as u32) < 0x10000 {
        3
    } else {
        4
    }
}

} // verus!
