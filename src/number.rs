//! Numeric literals: integers in four bases and decimal floating-point
//! numbers, each with an optional width suffix.

use vstd::prelude::*;

use crate::text::{chars_of, digit_of, digit_value, is_digit, is_digit_of, seq_value};
use crate::token::{outcome_view, KindView, LexErrorKind, TokenKind};

verus! {

/// The base an integer literal is written in.
#[derive(Clone, Copy, Debug, PartialEq, Eq, Structural)]
pub enum IntegerKind {
    Decimal,
    Hexadecimal,
    Octal,
    Binary,
}

/// The width of a numeric type.
#[derive(Clone, Copy, Debug, PartialEq, Eq, Structural)]
pub enum BitCount {
    _8,
    _16,
    _32,
    _64,
    _128,
    Size,
}

/// The number of bits of a width; `Size` is as wide as a pointer.
pub open spec fn bits_of(b: BitCount) -> u32 {
    match b {
        BitCount::_8 => 8,
        BitCount::_16 => 16,
        BitCount::_32 => 32,
        BitCount::_64 => 64,
        BitCount::_128 => 128,
        BitCount::Size => usize::BITS,
    }
}

impl BitCount {
    /// The number of bits of this width.
    pub fn bits(self) -> (r: u32)
        ensures
            r == bits_of(self),
    {
        match self {
            BitCount::_8 => 8,
            BitCount::_16 => 16,
            BitCount::_32 => 32,
            BitCount::_64 => 64,
            BitCount::_128 => 128,
            BitCount::Size => usize::BITS,
        }
    }
}

/// A numeric type: `'i'`, `'u'` or `'f'` and a width.
#[derive(Clone, Copy, Debug, PartialEq, Eq, Structural)]
pub struct NumberKind(pub char, pub BitCount);

/// The value of a numeric literal. A floating-point literal is kept exactly,
/// as `significand * 10^exponent`.
#[derive(Clone, Copy, Debug, PartialEq, Eq, Structural)]
pub enum NumberValue {
    Integer { value: u128, base: IntegerKind },
    Floating { significand: u128, exponent: i64 },
}

/// A decoded numeric literal.
#[derive(Clone, Copy, Debug, PartialEq, Eq, Structural)]
pub struct Number {
    pub value: NumberValue,
    pub kind: NumberKind,
}


/// The end of the run of digits of `base` and `_` separators from `i`.
pub open spec fn digit_run_end(src: Seq<char>, i: int, base: nat) -> int
    decreases src.len() - i,
{
    if 0 <= i < src.len() && (is_digit_of(src[i], base) || src[i] == '_') {
        digit_run_end(src, i + 1, base)
    } else {
        i
    }
}

/// The end of the run of `_` separators from `i`.
pub open spec fn underscore_run_end(src: Seq<char>, i: int) -> int
    decreases src.len() - i,
{
    if 0 <= i < src.len() && src[i] == '_' {
        underscore_run_end(src, i + 1)
    } else {
        i
    }
}

/// The digits of `src[i..j]`, with the `_` separators left out.
pub open spec fn digits_in(src: Seq<char>, i: int, j: int) -> Seq<char>
    decreases j - i,
{
    if j <= i {
        seq![]
    } else if src[j - 1] == '_' {
        digits_in(src, i, j - 1)
    } else {
        digits_in(src, i, j - 1).push(src[j - 1])
    }
}

/// The radix that a letter after a leading `0` selects, or 0.
pub open spec fn radix_of(c: char) -> nat {
    if c == 'x' || c == 'X' {
        16
    } else if c == 'o' || c == 'O' {
        8
    } else if c == 'b' || c == 'B' {
        2
    } else {
        0
    }
}

/// The base an integer literal of the given radix is written in.
pub open spec fn integer_kind_of(base: nat) -> IntegerKind {
    if base == 16 {
        IntegerKind::Hexadecimal
    } else if base == 8 {
        IntegerKind::Octal
    } else if base == 2 {
        IntegerKind::Binary
    } else {
        IntegerKind::Decimal
    }
}

/// Whether a numeric literal starts at `pos`: a decimal digit, or a `.`
/// followed by one.
pub open spec fn number_starts(src: Seq<char>, pos: int) -> bool {
    0 <= pos < src.len() && (is_digit(src[pos]) || (src[pos] == '.' && pos + 1 < src.len()
        && is_digit(src[pos + 1])))
}

/// The digits of a numeric literal, before any exponent or suffix: the base,
/// the integer digits `int_start..int_end`, whether there is a decimal
/// point, the fraction digits `frac_start..frac_end`, and where they end.
#[derive(Clone, Copy, Debug, PartialEq, Eq, Structural)]
pub struct Mantissa {
    pub base: u32,
    pub int_start: usize,
    pub int_end: usize,
    pub dot: bool,
    pub frac_start: usize,
    pub frac_end: usize,
    pub end: usize,
}

/// The exponent of a decimal literal: none, an `e` without digits (ending
/// at the index given), or a signed run of digits.
#[derive(Clone, Copy, Debug, PartialEq, Eq, Structural)]
pub enum Exponent {
    Absent,
    Malformed(usize),
    Present { negative: bool, start: usize, end: usize },
}

/// The digits of the numeric literal at `pos`. After `0x`, `0o` or `0b` (in
/// either case) and optional separators, a digit of that radix makes a radix
/// literal; otherwise the literal is decimal, with an optional `.` and
/// fraction digits.
pub open spec fn mantissa_at(src: Seq<char>, pos: int) -> Mantissa {
    let b = if pos + 1 < src.len() && src[pos] == '0' {
        radix_of(src[pos + 1])
    } else {
        0
    };
    let k = underscore_run_end(src, pos + 2);
    if b != 0 && k < src.len() && is_digit_of(src[k], b) {
        let e = digit_run_end(src, pos + 2, b);
        Mantissa {
            base: b as u32,
            int_start: (pos + 2) as usize,
            int_end: e as usize,
            dot: false,
            frac_start: e as usize,
            frac_end: e as usize,
            end: e as usize,
        }
    } else if src[pos] == '.' {
        let e = digit_run_end(src, pos + 1, 10);
        Mantissa {
            base: 10,
            int_start: pos as usize,
            int_end: pos as usize,
            dot: true,
            frac_start: (pos + 1) as usize,
            frac_end: e as usize,
            end: e as usize,
        }
    } else {
        let ie = digit_run_end(src, pos, 10);
        if ie < src.len() && src[ie] == '.' {
            let fe = if ie + 1 < src.len() && is_digit(src[ie + 1]) {
                digit_run_end(src, ie + 1, 10)
            } else {
                ie + 1
            };
            Mantissa {
                base: 10,
                int_start: pos as usize,
                int_end: ie as usize,
                dot: true,
                frac_start: (ie + 1) as usize,
                frac_end: fe as usize,
                end: fe as usize,
            }
        } else {
            Mantissa {
                base: 10,
                int_start: pos as usize,
                int_end: ie as usize,
                dot: false,
                frac_start: ie as usize,
                frac_end: ie as usize,
                end: ie as usize,
            }
        }
    }
}

/// The exponent at `i`: `e` or `E`, an optional sign, then decimal digits.
pub open spec fn exponent_at(src: Seq<char>, i: int) -> Exponent {
    if !(0 <= i < src.len() && (src[i] == 'e' || src[i] == 'E')) {
        Exponent::Absent
    } else {
        let signed = i + 1 < src.len() && (src[i + 1] == '+' || src[i + 1] == '-');
        let s = if signed {
            i + 2
        } else {
            i + 1
        };
        if s < src.len() && is_digit(src[s]) {
            Exponent::Present {
                negative: signed && src[i + 1] == '-',
                start: s as usize,
                end: digit_run_end(src, s, 10) as usize,
            }
        } else {
            Exponent::Malformed(s as usize)
        }
    }
}

/// The width at `i`: `8`, `16`, `32`, `64`, `128` or `size`.
pub open spec fn bit_count_at(src: Seq<char>, i: int) -> Option<(BitCount, int)> {
    if 0 <= i < src.len() && src[i] == '8' {
        Some((BitCount::_8, i + 1))
    } else if 0 <= i && i + 1 < src.len() && src[i] == '1' && src[i + 1] == '6' {
        Some((BitCount::_16, i + 2))
    } else if 0 <= i && i + 1 < src.len() && src[i] == '3' && src[i + 1] == '2' {
        Some((BitCount::_32, i + 2))
    } else if 0 <= i && i + 1 < src.len() && src[i] == '6' && src[i + 1] == '4' {
        Some((BitCount::_64, i + 2))
    } else if 0 <= i && i + 2 < src.len() && src[i] == '1' && src[i + 1] == '2' && src[i + 2]
        == '8' {
        Some((BitCount::_128, i + 3))
    } else if 0 <= i && i + 3 < src.len() && src[i] == 's' && src[i + 1] == 'i' && src[i + 2]
        == 'z' && src[i + 3] == 'e' {
        Some((BitCount::Size, i + 4))
    } else {
        None
    }
}

/// The type suffix at `i`: `f`, `i` or `u` and a width.
pub open spec fn suffix_at(src: Seq<char>, i: int) -> Option<(NumberKind, int)> {
    if 0 <= i < src.len() && (src[i] == 'f' || src[i] == 'i' || src[i] == 'u') {
        match bit_count_at(src, i + 1) {
            Some((b, e)) => Some((NumberKind(src[i], b), e)),
            None => None,
        }
    } else {
        None
    }
}

/// Whether a kind names a float type of a width other than 32 or 64.
pub open spec fn bad_float_width(k: NumberKind) -> bool {
    k.0 == 'f' && k.1 != BitCount::_32 && k.1 != BitCount::_64
}

/// The value of a literal: an integer in its base, or, when there is a
/// decimal point, an exponent or an `f` suffix, the decimal
/// `significand * 10^exponent`. A radix literal cannot be a float.
pub open spec fn decode_value(src: Seq<char>, m: Mantissa, x: Exponent, suffix: Option<NumberKind>) -> Result<NumberValue, LexErrorKind> {
    let f_suffix = suffix matches Some(k) && k.0 == 'f';
    if m.base != 10 && f_suffix {
        Err(LexErrorKind::NumberParseFailure)
    } else if m.base != 10 || !(m.dot || x is Present || f_suffix) {
        let v = seq_value(digits_in(src, m.int_start as int, m.int_end as int), m.base as nat);
        if v > u128::MAX {
            Err(LexErrorKind::NumberOverflow)
        } else {
            Ok(NumberValue::Integer { value: v as u128, base: integer_kind_of(m.base as nat) })
        }
    } else {
        let ds = digits_in(src, m.int_start as int, m.int_end as int) + digits_in(
            src,
            m.frac_start as int,
            m.frac_end as int,
        );
        let sig = seq_value(ds, 10);
        let fc = digits_in(src, m.frac_start as int, m.frac_end as int).len();
        let e10: int = match x {
            Exponent::Present { negative, start, end } => {
                let ev = seq_value(digits_in(src, start as int, end as int), 10);
                if negative {
                    -ev
                } else {
                    ev as int
                }
            },
            _ => 0,
        };
        if sig > u128::MAX {
            Err(LexErrorKind::NumberOverflow)
        } else if !(i64::MIN <= e10 <= i64::MAX) || e10 - fc < i64::MIN {
            Err(LexErrorKind::NumberOverflow)
        } else {
            Ok(NumberValue::Floating { significand: sig as u128, exponent: (e10 - fc) as i64 })
        }
    }
}

/// The type of a literal: with an exponent, `f64` unless a float suffix is
/// given (an integer suffix is an error); without one, the suffix, or `i32`
/// for an integer and `f64` for a float. A float type must be 32 or 64 bits
/// wide.
pub open spec fn decode_kind(x: Exponent, suffix: Option<NumberKind>, v: NumberValue) -> Result<NumberKind, LexErrorKind> {
    let k = if x is Present {
        match suffix {
            None => Ok(NumberKind('f', BitCount::_64)),
            Some(k) => if k.0 == 'f' {
                Ok(k)
            } else {
                Err(LexErrorKind::IntegerWithExponentSuffix)
            },
        }
    } else {
        match suffix {
            Some(k) => Ok(k),
            None => Ok(
                match v {
                    NumberValue::Integer { .. } => NumberKind('i', BitCount::_32),
                    NumberValue::Floating { .. } => NumberKind('f', BitCount::_64),
                },
            ),
        }
    };
    match k {
        Ok(k) => if bad_float_width(k) {
            Err(LexErrorKind::InvalidFloatPrecision)
        } else {
            Ok(k)
        },
        Err(e) => Err(e),
    }
}

/// The decoded literal: its value first, then its type.
pub open spec fn decode_number(src: Seq<char>, m: Mantissa, x: Exponent, suffix: Option<NumberKind>) -> Result<Number, LexErrorKind> {
    match decode_value(src, m, x, suffix) {
        Err(e) => Err(e),
        Ok(v) => match decode_kind(x, suffix, v) {
            Ok(k) => Ok(Number { value: v, kind: k }),
            Err(e) => Err(e),
        },
    }
}

/// The numeric literal at `pos`: its digits, an exponent for a decimal
/// literal, then an optional type suffix, decoded.
pub open spec fn number_at(src: Seq<char>, pos: int) -> (Result<KindView, LexErrorKind>, int) {
    let m = mantissa_at(src, pos);
    let x = if m.base == 10 {
        exponent_at(src, m.end as int)
    } else {
        Exponent::Absent
    };
    match x {
        Exponent::Malformed(e) => (Err(LexErrorKind::NumberParseFailure), e as int),
        _ => {
            let after: int = match x {
                Exponent::Present { end, .. } => end as int,
                _ => m.end as int,
            };
            let (suffix, end) = match suffix_at(src, after) {
                Some((k, e)) => (Some(k), e),
                None => (None, after),
            };
            (
                match decode_number(src, m, x, suffix) {
                    Ok(n) => Ok(KindView::Number(n)),
                    Err(e) => Err(e),
                },
                end,
            )
        },
    }
}


/// Whether `src[i..j]` holds only digits of `base` and `_` separators.
pub open spec fn digit_run(src: Seq<char>, i: int, j: int, base: nat) -> bool {
    0 <= i <= j <= src.len() && forall|k: int|
        i <= k < j ==> is_digit_of(#[trigger] src[k], base) || src[k] == '_'
}

/// What the scan of a literal's digits guarantees of their layout.
pub open spec fn mantissa_ok(src: Seq<char>, pos: int, m: Mantissa) -> bool {
    &&& m.base == 2 || m.base == 8 || m.base == 10 || m.base == 16
    &&& digit_run(src, m.int_start as int, m.int_end as int, m.base as nat)
    &&& digit_run(src, m.frac_start as int, m.frac_end as int, 10)
    &&& pos < m.end <= src.len()
}

/// What the scan of an exponent guarantees of its layout.
pub open spec fn exponent_ok(src: Seq<char>, i: int, x: Exponent) -> bool {
    match x {
        Exponent::Absent => true,
        Exponent::Malformed(e) => i < e <= src.len(),
        Exponent::Present { start, end, .. } => i < start < end <= src.len() && digit_run(
            src,
            start as int,
            end as int,
            10,
        ),
    }
}

proof fn lemma_digit_run(src: Seq<char>, i: int, base: nat)
    requires
        0 <= i <= src.len(),
    ensures
        i <= digit_run_end(src, i, base) <= src.len(),
        digit_run(src, i, digit_run_end(src, i, base), base),
    decreases src.len() - i,
{
    if i < src.len() && (is_digit_of(src[i], base) || src[i] == '_') {
        lemma_digit_run(src, i + 1, base);
    }
}

/// Skipping over digits and separators leaves the end of the run in place.
proof fn lemma_run_skip(src: Seq<char>, i: int, j: int, base: nat)
    requires
        0 <= i <= j <= src.len(),
        forall|k: int| i <= k < j ==> is_digit_of(#[trigger] src[k], base) || src[k] == '_',
    ensures
        digit_run_end(src, i, base) == digit_run_end(src, j, base),
    decreases j - i,
{
    if i < j {
        lemma_run_skip(src, i + 1, j, base);
    }
}

proof fn lemma_underscore_run(src: Seq<char>, i: int)
    requires
        0 <= i <= src.len(),
    ensures
        i <= underscore_run_end(src, i) <= src.len(),
        forall|k: int| i <= k < underscore_run_end(src, i) ==> #[trigger] src[k] == '_',
    decreases src.len() - i,
{
    if i < src.len() && src[i] == '_' {
        lemma_underscore_run(src, i + 1);
    }
}

proof fn lemma_digits_len(src: Seq<char>, i: int, j: int)
    requires
        i <= j,
    ensures
        digits_in(src, i, j).len() <= j - i,
    decreases j - i,
{
    if j > i {
        lemma_digits_len(src, i, j - 1);
    }
}

proof fn lemma_value_push(s: Seq<char>, c: char, base: nat)
    ensures
        seq_value(s.push(c), base) == seq_value(s, base) * base + digit_value(c),
{
    assert(s.push(c).drop_last() =~= s);
}

/// Appending digits never lowers a value.
proof fn lemma_value_mono(src: Seq<char>, prev: Seq<char>, i: int, k: int, j: int, base: nat)
    requires
        i <= k <= j,
        base >= 1,
    ensures
        seq_value(prev + digits_in(src, i, k), base) <= seq_value(prev + digits_in(src, i, j), base),
    decreases j - k,
{
    if k < j {
        lemma_value_mono(src, prev, i, k, j - 1, base);
        let a = prev + digits_in(src, i, j - 1);
        if src[j - 1] != '_' {
            assert(prev + digits_in(src, i, j) =~= a.push(src[j - 1]));
            lemma_value_push(a, src[j - 1], base);
            let v = seq_value(a, base);
            assert(v * base >= v) by (nonlinear_arith)
                requires
                    base >= 1,
                    v >= 0,
            ;
        }
    }
}

fn radix(c: char) -> (r: u32)
    ensures
        r == radix_of(c),
{
    if c == 'x' || c == 'X' {
        16
    } else if c == 'o' || c == 'O' {
        8
    } else if c == 'b' || c == 'B' {
        2
    } else {
        0
    }
}

fn scan_digit_run(src: &Vec<char>, i: usize, base: u32) -> (r: usize)
    requires
        i <= src@.len(),
        base == 2 || base == 8 || base == 10 || base == 16,
    ensures
        r == digit_run_end(src@, i as int, base as nat),
        digit_run(src@, i as int, r as int, base as nat),
        i < src@.len() && is_digit_of(src@[i as int], base as nat) ==> i < r,
{
    proof {
        lemma_digit_run(src@, i as int, base as nat);
        if i < src@.len() {
            lemma_digit_run(src@, i + 1, base as nat);
        }
    }
    let mut j = i;
    while j < src.len() && (src[j] == '_' || digit_of(src[j], base).is_some())
        invariant
            i <= j <= src@.len(),
            base == 2 || base == 8 || base == 10 || base == 16,
            digit_run_end(src@, j as int, base as nat) == digit_run_end(src@, i as int, base as nat),
        decreases src@.len() - j,
    {
        j = j + 1;
    }
    j
}

fn scan_underscores(src: &Vec<char>, i: usize) -> (r: usize)
    requires
        i <= src@.len(),
    ensures
        r == underscore_run_end(src@, i as int),
        i <= r <= src@.len(),
{
    let mut j = i;
    while j < src.len() && src[j] == '_'
        invariant
            i <= j <= src@.len(),
            underscore_run_end(src@, j as int) == underscore_run_end(src@, i as int),
        decreases src@.len() - j,
    {
        j = j + 1;
    }
    j
}

/// Reads the digits of the numeric literal at `pos`.
pub fn lex_mantissa(src: &Vec<char>, pos: usize) -> (m: Mantissa)
    requires
        number_starts(src@, pos as int),
    ensures
        m == mantissa_at(src@, pos as int),
        mantissa_ok(src@, pos as int, m),
{
    let len = src.len();
    let b: u32 = if pos + 1 < len && src[pos] == '0' {
        radix(src[pos + 1])
    } else {
        0
    };
    if b != 0 {
        let k = scan_underscores(src, pos + 2);
        if k < len && digit_of(src[k], b).is_some() {
            let e = scan_digit_run(src, pos + 2, b);
            proof {
                lemma_underscore_run(src@, pos + 2);
                lemma_digit_run(src@, k as int, b as nat);
            }
            proof {
                lemma_run_skip(src@, pos + 2, k as int, b as nat);
            }
            return Mantissa {
                base: b,
                int_start: pos + 2,
                int_end: e,
                dot: false,
                frac_start: e,
                frac_end: e,
                end: e,
            };
        }
    }
    if src[pos] == '.' {
        let e = scan_digit_run(src, pos + 1, 10);
        return Mantissa {
            base: 10,
            int_start: pos,
            int_end: pos,
            dot: true,
            frac_start: pos + 1,
            frac_end: e,
            end: e,
        };
    }
    let ie = scan_digit_run(src, pos, 10);
    if ie < len && src[ie] == '.' {
        let fe = if ie + 1 < len && digit_of(src[ie + 1], 10).is_some() {
            scan_digit_run(src, ie + 1, 10)
        } else {
            ie + 1
        };
        Mantissa {
            base: 10,
            int_start: pos,
            int_end: ie,
            dot: true,
            frac_start: ie + 1,
            frac_end: fe,
            end: fe,
        }
    } else {
        Mantissa {
            base: 10,
            int_start: pos,
            int_end: ie,
            dot: false,
            frac_start: ie,
            frac_end: ie,
            end: ie,
        }
    }
}


/// Reads the exponent at `i`, if there is one.
pub fn lex_exponent(src: &Vec<char>, i: usize) -> (x: Exponent)
    requires
        i <= src@.len(),
    ensures
        x == exponent_at(src@, i as int),
        exponent_ok(src@, i as int, x),
{
    let len = src.len();
    if !(i < len && (src[i] == 'e' || src[i] == 'E')) {
        return Exponent::Absent;
    }
    let signed = i + 1 < len && (src[i + 1] == '+' || src[i + 1] == '-');
    let s = if signed {
        i + 2
    } else {
        i + 1
    };
    if s < len && digit_of(src[s], 10).is_some() {
        let e = scan_digit_run(src, s, 10);
        Exponent::Present { negative: signed && src[i + 1] == '-', start: s, end: e }
    } else {
        Exponent::Malformed(s)
    }
}

/// Reads the width at `i`, if there is one.
pub fn lex_bit_count(src: &Vec<char>, i: usize) -> (r: Option<(BitCount, usize)>)
    requires
        i <= src@.len(),
    ensures
        match r {
            Some((b, e)) => bit_count_at(src@, i as int) == Some((b, e as int)) && i < e <= src@.len(),
            None => bit_count_at(src@, i as int) is None,
        },
{
    let n = src.len() - i;
    if n >= 1 && src[i] == '8' {
        Some((BitCount::_8, i + 1))
    } else if n >= 2 && src[i] == '1' && src[i + 1] == '6' {
        Some((BitCount::_16, i + 2))
    } else if n >= 2 && src[i] == '3' && src[i + 1] == '2' {
        Some((BitCount::_32, i + 2))
    } else if n >= 2 && src[i] == '6' && src[i + 1] == '4' {
        Some((BitCount::_64, i + 2))
    } else if n >= 3 && src[i] == '1' && src[i + 1] == '2' && src[i + 2] == '8' {
        Some((BitCount::_128, i + 3))
    } else if n >= 4 && src[i] == 's' && src[i + 1] == 'i' && src[i + 2] == 'z' && src[i + 3]
        == 'e' {
        Some((BitCount::Size, i + 4))
    } else {
        None
    }
}

/// Reads the type suffix at `i`, if there is one.
pub fn lex_number_kind(src: &Vec<char>, i: usize) -> (r: Option<(NumberKind, usize)>)
    requires
        i <= src@.len(),
    ensures
        match r {
            Some((k, e)) => suffix_at(src@, i as int) == Some((k, e as int)) && i < e <= src@.len(),
            None => suffix_at(src@, i as int) is None,
        },
{
    if i < src.len() && (src[i] == 'f' || src[i] == 'i' || src[i] == 'u') {
        match lex_bit_count(src, i + 1) {
            Some((b, e)) => Some((NumberKind(src[i], b), e)),
            None => None,
        }
    } else {
        None
    }
}

/// The value of the digits of `src[i..j]` in `base`, taken after the digits
/// `prev` whose value is `acc`; `None` when it exceeds `u128::MAX`.
fn accumulate(src: &Vec<char>, i: usize, j: usize, base: u32, acc: u128, Ghost(prev): Ghost<Seq<char>>) -> (r: Option<u128>)
    requires
        digit_run(src@, i as int, j as int, base as nat),
        base == 2 || base == 8 || base == 10 || base == 16,
        acc == seq_value(prev, base as nat),
    ensures
        match r {
            Some(v) => v == seq_value(prev + digits_in(src@, i as int, j as int), base as nat),
            None => seq_value(prev + digits_in(src@, i as int, j as int), base as nat) > u128::MAX,
        },
{
    let mut v = acc;
    let mut k = i;
    assert(prev + digits_in(src@, i as int, i as int) =~= prev);
    while k < j
        invariant
            digit_run(src@, i as int, j as int, base as nat),
            base == 2 || base == 8 || base == 10 || base == 16,
            i <= k <= j,
            v == seq_value(prev + digits_in(src@, i as int, k as int), base as nat),
        decreases j - k,
    {
        let c = src[k];
        if c != '_' {
            let d = digit_of(c, base).unwrap();
            let ghost before = prev + digits_in(src@, i as int, k as int);
            proof {
                assert(prev + digits_in(src@, i as int, k + 1) =~= before.push(c));
                lemma_value_push(before, c, base as nat);
            }
            match v.checked_mul(base as u128) {
                None => {
                    proof {
                        lemma_value_mono(src@, prev, i as int, k + 1, j as int, base as nat);
                    }
                    return None;
                },
                Some(m) => match m.checked_add(d as u128) {
                    None => {
                        proof {
                            lemma_value_mono(src@, prev, i as int, k + 1, j as int, base as nat);
                        }
                        return None;
                    },
                    Some(n) => {
                        v = n;
                    },
                },
            }
        }
        k = k + 1;
    }
    Some(v)
}

fn count_digits(src: &Vec<char>, i: usize, j: usize) -> (r: usize)
    requires
        i <= j <= src@.len(),
    ensures
        r == digits_in(src@, i as int, j as int).len(),
{
    let mut n: usize = 0;
    let mut k = i;
    while k < j
        invariant
            i <= k <= j <= src@.len(),
            n == digits_in(src@, i as int, k as int).len(),
        decreases j - k,
    {
        proof {
            lemma_digits_len(src@, i as int, k as int);
        }
        if src[k] != '_' {
            n = n + 1;
        }
        k = k + 1;
    }
    n
}

/// Decodes a literal from its scanned parts: the value, then the type.
pub fn parse_number(src: &Vec<char>, pos: usize, m: Mantissa, x: Exponent, suffix: Option<NumberKind>) -> (r: Result<Number, LexErrorKind>)
    requires
        mantissa_ok(src@, pos as int, m),
        x is Absent || (m.base == 10 && exponent_ok(src@, m.end as int, x) && !(x is Malformed)),
    ensures
        r == decode_number(src@, m, x, suffix),
{
    let f_suffix = match suffix {
        Some(k) => k.0 == 'f',
        None => false,
    };
    let present = match x {
        Exponent::Present { .. } => true,
        _ => false,
    };
    let value = if m.base != 10 && f_suffix {
        return Err(LexErrorKind::NumberParseFailure);
    } else if m.base != 10 || !(m.dot || present || f_suffix) {
        match accumulate(src, m.int_start, m.int_end, m.base, 0, Ghost(Seq::<char>::empty())) {
            None => {
                assert(Seq::<char>::empty() + digits_in(src@, m.int_start as int, m.int_end as int)
                    =~= digits_in(src@, m.int_start as int, m.int_end as int));
                return Err(LexErrorKind::NumberOverflow);
            },
            Some(v) => {
                assert(Seq::<char>::empty() + digits_in(src@, m.int_start as int, m.int_end as int)
                    =~= digits_in(src@, m.int_start as int, m.int_end as int));
                let base = if m.base == 16 {
                    IntegerKind::Hexadecimal
                } else if m.base == 8 {
                    IntegerKind::Octal
                } else if m.base == 2 {
                    IntegerKind::Binary
                } else {
                    IntegerKind::Decimal
                };
                NumberValue::Integer { value: v, base }
            },
        }
    } else {
        let ghost int_digits = digits_in(src@, m.int_start as int, m.int_end as int);
        let ghost frac_digits = digits_in(src@, m.frac_start as int, m.frac_end as int);
        let whole = accumulate(src, m.int_start, m.int_end, 10, 0, Ghost(Seq::<char>::empty()));
        assert(Seq::<char>::empty() + int_digits =~= int_digits);
        let sig = match whole {
            None => {
                proof {
                    lemma_value_mono(src@, int_digits, m.frac_start as int, m.frac_start as int, m.frac_end as int, 10);
                    assert(int_digits + digits_in(src@, m.frac_start as int, m.frac_start as int) =~= int_digits);
                }
                return Err(LexErrorKind::NumberOverflow);
            },
            Some(w) => match accumulate(src, m.frac_start, m.frac_end, 10, w, Ghost(int_digits)) {
                None => {
                    return Err(LexErrorKind::NumberOverflow);
                },
                Some(s) => s,
            },
        };
        let fc = count_digits(src, m.frac_start, m.frac_end);
        let e10: i128 = match x {
            Exponent::Present { negative, start, end } => {
                let bound: u128 = if negative {
                    0x8000_0000_0000_0000
                } else {
                    0x7FFF_FFFF_FFFF_FFFF
                };
                match accumulate(src, start, end, 10, 0, Ghost(Seq::<char>::empty())) {
                    None => {
                        assert(Seq::<char>::empty() + digits_in(src@, start as int, end as int)
                            =~= digits_in(src@, start as int, end as int));
                        return Err(LexErrorKind::NumberOverflow);
                    },
                    Some(ev) => {
                        assert(Seq::<char>::empty() + digits_in(src@, start as int, end as int)
                            =~= digits_in(src@, start as int, end as int));
                        if ev > bound {
                            return Err(LexErrorKind::NumberOverflow);
                        }
                        if negative {
                            -(ev as i128)
                        } else {
                            ev as i128
                        }
                    },
                }
            },
            _ => 0,
        };
        let exponent = e10 - fc as i128;
        if exponent < i64::MIN as i128 {
            return Err(LexErrorKind::NumberOverflow);
        }
        NumberValue::Floating { significand: sig, exponent: exponent as i64 }
    };
    let kind = if present {
        match suffix {
            None => NumberKind('f', BitCount::_64),
            Some(k) => if k.0 == 'f' {
                k
            } else {
                return Err(LexErrorKind::IntegerWithExponentSuffix);
            },
        }
    } else {
        match suffix {
            Some(k) => k,
            None => match value {
                NumberValue::Integer { .. } => NumberKind('i', BitCount::_32),
                NumberValue::Floating { .. } => NumberKind('f', BitCount::_64),
            },
        }
    };
    if kind.0 == 'f' && kind.1 != BitCount::_32 && kind.1 != BitCount::_64 {
        return Err(LexErrorKind::InvalidFloatPrecision);
    }
    Ok(Number { value, kind })
}

/// Reads the numeric literal at `pos`.
pub fn scan_number(src: &Vec<char>, pos: usize) -> (r: (Result<TokenKind, LexErrorKind>, usize))
    requires
        number_starts(src@, pos as int),
    ensures
        (outcome_view(r.0), r.1 as int) == number_at(src@, pos as int),
        pos < r.1 <= src@.len(),
{
    let m = lex_mantissa(src, pos);
    let x = if m.base == 10 {
        lex_exponent(src, m.end)
    } else {
        Exponent::Absent
    };
    let after = match x {
        Exponent::Malformed(e) => {
            return (Err(LexErrorKind::NumberParseFailure), e);
        },
        Exponent::Present { end, .. } => end,
        Exponent::Absent => m.end,
    };
    let (suffix, end) = match lex_number_kind(src, after) {
        Some((k, e)) => (Some(k), e),
        None => (None, after),
    };
    match parse_number(src, pos, m, x, suffix) {
        Ok(n) => (Ok(TokenKind::Number(n)), end),
        Err(e) => (Err(e), end),
    }
}

/// Reads the numeric literal at the start of `input`: `None` when none
/// starts there; else the number and the count of characters it takes, or
/// the error.
pub fn lex_number(input: &str) -> (r: Option<Result<(Number, usize), LexErrorKind>>)
    ensures
        !number_starts(input@, 0) <==> r is None,
        number_starts(input@, 0) ==> (r matches Some(res) && match res {
            Ok((n, len)) => number_at(input@, 0) == (Ok::<KindView, LexErrorKind>(KindView::Number(n)), len as int),
            Err(e) => number_at(input@, 0).0 == Err::<KindView, LexErrorKind>(e),
        }),
{
    let src = chars_of(input);
    if !(src.len() > 0 && (digit_of(src[0], 10).is_some() || (src[0] == '.' && src.len() > 1
        && digit_of(src[1], 10).is_some()))) {
        return None;
    }
    match scan_number(&src, 0) {
        (Ok(TokenKind::Number(n)), end) => Some(Ok((n, end))),
        (Err(e), _) => Some(Err(e)),
        _ => None,
    }
}

/// The digits of a literal take at least one character.
proof fn lemma_mantissa_bounds(src: Seq<char>, pos: int)
    requires
        number_starts(src, pos),
        src.len() <= usize::MAX,
    ensures
        pos < mantissa_at(src, pos).end <= src.len(),
{
    let b = if pos + 1 < src.len() && src[pos] == '0' {
        radix_of(src[pos + 1])
    } else {
        0
    };
    let k = underscore_run_end(src, pos + 2);
    if b != 0 && k < src.len() && is_digit_of(src[k], b) {
        lemma_underscore_run(src, pos + 2);
        lemma_run_skip(src, pos + 2, k, b);
        lemma_digit_run(src, k + 1, b);
    } else if src[pos] == '.' {
        lemma_digit_run(src, pos + 2, 10);
    } else {
        lemma_digit_run(src, pos + 1, 10);
        let ie = digit_run_end(src, pos, 10);
        if ie < src.len() && src[ie] == '.' && ie + 1 < src.len() && is_digit(src[ie + 1]) {
            lemma_digit_run(src, ie + 2, 10);
        }
    }
}

/// A numeric literal takes at least one character, and no more than there
/// are.
pub(crate) proof fn lemma_number_progress(src: Seq<char>, pos: int)
    requires
        number_starts(src, pos),
        src.len() <= usize::MAX,
    ensures
        pos < number_at(src, pos).1 <= src.len(),
{
    let m = mantissa_at(src, pos);
    lemma_mantissa_bounds(src, pos);
    let i = m.end as int;
    if m.base == 10 && i < src.len() && (src[i] == 'e' || src[i] == 'E') {
        let signed = i + 1 < src.len() && (src[i + 1] == '+' || src[i + 1] == '-');
        let s = if signed {
            i + 2
        } else {
            i + 1
        };
        if s < src.len() && is_digit(src[s]) {
            lemma_digit_run(src, s + 1, 10);
        }
    }
}

} // verus!
