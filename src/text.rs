//! Character classes, UTF-8 widths and the conversions between `str`,
//! `String` and character vectors that the scanners work on.

use vstd::prelude::*;

verus! {

/// An ASCII decimal digit.
pub open spec fn is_digit(c: char) -> bool {
    '0' <= c <= '9'
}

/// An ASCII letter.
pub open spec fn is_ascii_letter(c: char) -> bool {
    ('a' <= c <= 'z') || ('A' <= c <= 'Z')
}

/// A digit of the given radix (2, 8, 10 or 16).
pub open spec fn is_digit_of(c: char, base: nat) -> bool {
    if base == 16 {
        is_digit(c) || ('a' <= c <= 'f') || ('A' <= c <= 'F')
    } else if base == 10 {
        is_digit(c)
    } else {
        '0' <= c && (c as u32) < ('0' as u32) + base
    }
}

/// The numeric value of a digit of radix up to 16.
pub open spec fn digit_value(c: char) -> nat {
    if is_digit(c) {
        (c as u32 - '0' as u32) as nat
    } else if 'a' <= c <= 'f' {
        (c as u32 - 'a' as u32 + 10) as nat
    } else if 'A' <= c <= 'F' {
        (c as u32 - 'A' as u32 + 10) as nat
    } else {
        0
    }
}

/// The value of a sequence of digits in the given base, most significant
/// first.
pub open spec fn seq_value(ds: Seq<char>, base: nat) -> nat
    decreases ds.len(),
{
    if ds.len() == 0 {
        0
    } else {
        seq_value(ds.drop_last(), base) * base + digit_value(ds.last())
    }
}

/// The value of `c` as a digit of `base` (2, 8, 10 or 16), if it is one.
pub fn digit_of(c: char, base: u32) -> (r: Option<u32>)
    requires
        base == 2 || base == 8 || base == 10 || base == 16,
    ensures
        r == (if is_digit_of(c, base as nat) {
            Some(digit_value(c) as u32)
        } else {
            None::<u32>
        }),
        r matches Some(d) ==> d < base,
{
    if base == 16 {
        if '0' <= c && c <= '9' {
            Some(c as u32 - '0' as u32)
        } else if 'a' <= c && c <= 'f' {
            Some(c as u32 - 'a' as u32 + 10)
        } else if 'A' <= c && c <= 'F' {
            Some(c as u32 - 'A' as u32 + 10)
        } else {
            None
        }
    } else if base == 10 {
        if '0' <= c && c <= '9' {
            Some(c as u32 - '0' as u32)
        } else {
            None
        }
    } else if '0' <= c && (c as u32) < '0' as u32 + base {
        Some(c as u32 - '0' as u32)
    } else {
        None
    }
}

/// Whether `c` has the Unicode property `XID_Start`.
pub uninterp spec fn xid_start(c: char) -> bool;

/// Whether `c` has the Unicode property `XID_Continue`.
pub uninterp spec fn xid_continue(c: char) -> bool;

/// Relies on `unicode_ident::is_xid_start`: it answers from the character
/// alone.
#[verifier::external_body]
pub(crate) fn is_xid_start(c: char) -> (r: bool)
    ensures
        r == xid_start(c),
{
    unicode_ident::is_xid_start(c)
}

/// Relies on `unicode_ident::is_xid_continue`: it answers from the character
/// alone.
#[verifier::external_body]
pub(crate) fn is_xid_continue(c: char) -> (r: bool)
    ensures
        r == xid_continue(c),
{
    unicode_ident::is_xid_continue(c)
}

/// Relies on `String::push`: appends one character at the end.
#[verifier::external_body]
pub(crate) fn push_char(s: &mut String, c: char)
    ensures
        final(s)@ == old(s)@.push(c),
{
    s.push(c)
}

/// Relies on `char::from_u32`: `Some` exactly for Unicode scalar values.
#[verifier::external_body]
pub(crate) fn char_from_u32(v: u32) -> (r: Option<char>)
    ensures
        r == (if is_scalar_value(v as int) {
            Some(v as char)
        } else {
            None::<char>
        }),
{
    char::from_u32(v)
}

/// A Unicode scalar value: a code point that is not a surrogate.
pub open spec fn is_scalar_value(v: int) -> bool {
    (0 <= v < 0xD800) || (0xE000 <= v <= 0x10FFFF)
}

/// The characters of a string slice, in order.
pub fn chars_of(s: &str) -> (r: Vec<char>)
    ensures
        r@ == s@,
{
    let mut out: Vec<char> = Vec::new();
    for c in it: s.chars()
        invariant
            out@ == it.seq().take(it.index() as int),
    {
        out.push(c);
    }
    out
}

/// The characters `src[start..end]` as a `String`.
pub fn string_of(src: &Vec<char>, start: usize, end: usize) -> (r: String)
    requires
        start <= end <= src@.len(),
    ensures
        r@ == src@.subrange(start as int, end as int),
{
    let mut out = String::new();
    let mut i = start;
    while i < end
        invariant
            start <= i <= end <= src@.len(),
            out@ == src@.subrange(start as int, i as int),
        decreases end - i,
    {
        push_char(&mut out, src[i]);
        i = i + 1;
        assert(out@ =~= src@.subrange(start as int, i as int));
    }
    out
}

} // verus!
