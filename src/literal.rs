//! String and character literals, and the escape sequences inside them.

use vstd::prelude::*;

use crate::text::{char_from_u32, digit_of, is_digit_of, is_scalar_value, seq_value, string_of};
use crate::token::{outcome_view, KindView, LexErrorKind, TokenKind};

verus! {

/// The character that a one-letter escape (after the backslash) stands for.
pub open spec fn simple_escape(c: char) -> Option<char> {
    if c == 'n' {
        Some('\n')
    } else if c == 'r' {
        Some('\r')
    } else if c == 't' {
        Some('\t')
    } else if c == '\\' {
        Some('\\')
    } else if c == '/' {
        Some('/')
    } else if c == '"' {
        Some('"')
    } else if c == '\'' {
        Some('\'')
    } else {
        None
    }
}

/// The end of the run of hexadecimal digits that starts at `i`, not past
/// `stop`.
pub open spec fn hex_run_end(src: Seq<char>, i: int, stop: int) -> int
    decreases stop - i,
{
    if 0 <= i < stop && stop <= src.len() && is_digit_of(src[i], 16) {
        hex_run_end(src, i + 1, stop)
    } else {
        i
    }
}

/// The escape `u{H..H}` whose `{` is at `i`, with one to six hexadecimal
/// digits, within `src[..stop]`: the scalar it names and the index after it.
pub open spec fn unicode_escape_at(src: Seq<char>, i: int, stop: int) -> Result<(char, int), LexErrorKind> {
    if !(0 <= i < stop && src[i] == '{') {
        Err(LexErrorKind::InvalidEscapeSequence)
    } else {
        let e = hex_run_end(src, i + 1, stop);
        if !(1 <= e - (i + 1) <= 6 && e < stop && src[e] == '}') {
            Err(LexErrorKind::InvalidEscapeSequence)
        } else {
            let v = seq_value(src.subrange(i + 1, e), 16);
            if is_scalar_value(v as int) {
                Ok(((v as u32) as char, e + 1))
            } else {
                Err(LexErrorKind::InvalidUnicodeScalarEscape)
            }
        }
    }
}

/// The escape sequence whose letter is at `i` (just after a backslash),
/// within `src[..stop]`: the character it stands for and the index after it.
pub open spec fn escape_at(src: Seq<char>, i: int, stop: int) -> Result<(char, int), LexErrorKind> {
    if !(0 <= i < stop) {
        Err(LexErrorKind::InvalidEscapeSequence)
    } else if src[i] == 'u' {
        unicode_escape_at(src, i + 1, stop)
    } else {
        match simple_escape(src[i]) {
            Some(c) => Ok((c, i + 1)),
            None => Err(LexErrorKind::InvalidEscapeSequence),
        }
    }
}

/// Whether a decoded escape is the one that `escape_at` describes.
pub open spec fn same_escape(r: Result<(char, usize), LexErrorKind>, s: Result<(char, int), LexErrorKind>) -> bool {
    match r {
        Ok((c, j)) => s == Ok::<(char, int), LexErrorKind>((c, j as int)),
        Err(e) => s == Err::<(char, int), LexErrorKind>(e),
    }
}

/// Scanning a quoted literal's content from `i`: the index of the closing
/// quote `q`, where a backslash takes the character after it along.
pub open spec fn closing_quote(src: Seq<char>, i: int, q: char) -> Option<int>
    decreases src.len() + 1 - i,
{
    if !(0 <= i < src.len()) {
        None
    } else if src[i] == q {
        Some(i)
    } else if src[i] == '\\' {
        closing_quote(src, i + 2, q)
    } else {
        closing_quote(src, i + 1, q)
    }
}

/// Decoding `src[i..stop]` after `acc`: each character stands for itself,
/// but a backslash starts an escape sequence.
pub open spec fn decode_from(src: Seq<char>, i: int, stop: int, acc: Seq<char>) -> Result<Seq<char>, LexErrorKind>
    decreases stop - i,
{
    if !(0 <= i < stop) {
        Ok(acc)
    } else if src[i] == '\\' {
        match escape_at(src, i + 1, stop) {
            Ok((c, j)) => if j > i {
                decode_from(src, j, stop, acc.push(c))
            } else {
                Ok(acc)
            },
            Err(e) => Err(e),
        }
    } else {
        decode_from(src, i + 1, stop, acc.push(src[i]))
    }
}

/// The string literal whose opening `"` is at `pos`: its decoded content up
/// to the closing quote.
pub open spec fn string_at(src: Seq<char>, pos: int) -> (Result<KindView, LexErrorKind>, int) {
    match closing_quote(src, pos + 1, '"') {
        None => (Err(LexErrorKind::UnterminatedStringOrCharacterLiteral), src.len() as int),
        Some(c) => (
            match decode_from(src, pos + 1, c, seq![]) {
                Ok(s) => Ok(KindView::String(s)),
                Err(e) => Err(e),
            },
            c + 1,
        ),
    }
}

/// The character literal whose opening `'` is at `pos`: exactly one decoded
/// character up to the closing quote.
pub open spec fn character_at(src: Seq<char>, pos: int) -> (Result<KindView, LexErrorKind>, int) {
    match closing_quote(src, pos + 1, '\'') {
        None => (Err(LexErrorKind::UnterminatedStringOrCharacterLiteral), src.len() as int),
        Some(c) => (
            match decode_from(src, pos + 1, c, seq![]) {
                Ok(s) => if s.len() == 1 {
                    Ok(KindView::Character(s[0]))
                } else {
                    Err(LexErrorKind::InvalidCharacterLiteral)
                },
                Err(e) => Err(e),
            },
            c + 1,
        ),
    }
}

pub(crate) proof fn lemma_closing_quote_bounds(src: Seq<char>, i: int, q: char)
    requires
        0 <= i,
    ensures
        closing_quote(src, i, q) matches Some(c) ==> i <= c < src.len(),
    decreases src.len() + 1 - i,
{
    if 0 <= i < src.len() && src[i] != q {
        if src[i] == '\\' {
            lemma_closing_quote_bounds(src, i + 2, q);
        } else {
            lemma_closing_quote_bounds(src, i + 1, q);
        }
    }
}

spec fn pow16(n: nat) -> nat
    decreases n,
{
    if n == 0 {
        1
    } else {
        16 * pow16((n - 1) as nat)
    }
}

proof fn lemma_pow16_mono(n: nat, m: nat)
    requires
        n <= m,
    ensures
        pow16(n) <= pow16(m),
    decreases m,
{
    if n < m {
        lemma_pow16_mono(n, (m - 1) as nat);
    }
}

proof fn lemma_hex_run(src: Seq<char>, i: int, stop: int)
    requires
        0 <= i <= stop <= src.len(),
    ensures
        i <= hex_run_end(src, i, stop) <= stop,
        forall|j: int| i <= j < hex_run_end(src, i, stop) ==> is_digit_of(#[trigger] src[j], 16),
    decreases stop - i,
{
    if i < stop && is_digit_of(src[i], 16) {
        lemma_hex_run(src, i + 1, stop);
    }
}

/// Decodes the escape `u{H..H}` whose `{` is at `i`.
pub fn escape_unicode(src: &Vec<char>, i: usize, stop: usize) -> (r: Result<(char, usize), LexErrorKind>)
    requires
        i <= stop <= src@.len(),
    ensures
        same_escape(r, unicode_escape_at(src@, i as int, stop as int)),
{
    if !(i < stop && src[i] == '{') {
        return Err(LexErrorKind::InvalidEscapeSequence);
    }
    let first = i + 1;
    let mut e = first;
    while e < stop && digit_of(src[e], 16).is_some()
        invariant
            first <= e <= stop <= src@.len(),
            hex_run_end(src@, e as int, stop as int) == hex_run_end(src@, first as int, stop as int),
        decreases stop - e,
    {
        e = e + 1;
    }
    if e - first < 1 || e - first > 6 || e >= stop || src[e] != '}' {
        return Err(LexErrorKind::InvalidEscapeSequence);
    }
    proof {
        reveal_with_fuel(pow16, 7);
        lemma_hex_run(src@, first as int, stop as int);
    }
    let mut v: u32 = 0;
    let mut k = first;
    while k < e
        invariant
            first <= k <= e < stop <= src@.len(),
            e - first <= 6,
            e == hex_run_end(src@, first as int, stop as int),
            forall|j: int| first <= j < e ==> is_digit_of(#[trigger] src@[j], 16),
            v == seq_value(src@.subrange(first as int, k as int), 16),
            v < pow16((k - first) as nat),
        decreases e - k,
    {
        let d = digit_of(src[k], 16).unwrap();
        proof {
            reveal_with_fuel(pow16, 7);
            lemma_pow16_mono((k - first) as nat, 5);
        }
        assert(src@.subrange(first as int, k + 1).drop_last() =~= src@.subrange(first as int, k as int));
        v = v * 16 + d;
        k = k + 1;
    }
    match char_from_u32(v) {
        Some(c) => Ok((c, e + 1)),
        None => Err(LexErrorKind::InvalidUnicodeScalarEscape),
    }
}

/// Decodes the escape sequence whose letter is at `i`, just after a
/// backslash.
pub fn escape_char(src: &Vec<char>, i: usize, stop: usize) -> (r: Result<(char, usize), LexErrorKind>)
    requires
        i <= stop <= src@.len(),
    ensures
        same_escape(r, escape_at(src@, i as int, stop as int)),
{
    if i >= stop {
        return Err(LexErrorKind::InvalidEscapeSequence);
    }
    let c = src[i];
    if c == 'u' {
        escape_unicode(src, i + 1, stop)
    } else if c == 'n' {
        Ok(('\n', i + 1))
    } else if c == 'r' {
        Ok(('\r', i + 1))
    } else if c == 't' {
        Ok(('\t', i + 1))
    } else if c == '\\' {
        Ok(('\\', i + 1))
    } else if c == '/' {
        Ok(('/', i + 1))
    } else if c == '"' {
        Ok(('"', i + 1))
    } else if c == '\'' {
        Ok(('\'', i + 1))
    } else {
        Err(LexErrorKind::InvalidEscapeSequence)
    }
}

fn find_closing_quote(src: &Vec<char>, i: usize, q: char) -> (r: Option<usize>)
    requires
        i <= src@.len(),
    ensures
        r matches Some(c) ==> closing_quote(src@, i as int, q) == Some(c as int) && i <= c < src@.len(),
        r is None ==> closing_quote(src@, i as int, q) is None,
{
    let mut j = i;
    while j < src.len()
        invariant
            i <= j <= src@.len(),
            closing_quote(src@, j as int, q) == closing_quote(src@, i as int, q),
        decreases src@.len() - j,
    {
        if src[j] == q {
            return Some(j);
        } else if src[j] == '\\' {
            if src.len() - j < 2 {
                assert(closing_quote(src@, j + 2, q) is None);
                return None;
            }
            j = j + 2;
        } else {
            j = j + 1;
        }
    }
    None
}

/// Decodes the content `src[start..stop]` of a literal.
fn decode_literal(src: &Vec<char>, start: usize, stop: usize) -> (r: Result<Vec<char>, LexErrorKind>)
    requires
        start <= stop <= src@.len(),
    ensures
        match r {
            Ok(v) => decode_from(src@, start as int, stop as int, seq![]) == Ok::<Seq<char>, LexErrorKind>(v@),
            Err(e) => decode_from(src@, start as int, stop as int, seq![]) == Err::<Seq<char>, LexErrorKind>(e),
        },
{
    let mut out: Vec<char> = Vec::new();
    let mut i = start;
    while i < stop
        invariant
            start <= i <= stop <= src@.len(),
            decode_from(src@, i as int, stop as int, out@) == decode_from(src@, start as int, stop as int, seq![]),
        decreases stop - i,
    {
        if src[i] == '\\' {
            match escape_char(src, i + 1, stop) {
                Ok((c, j)) => {
                    out.push(c);
                    i = j;
                },
                Err(e) => {
                    return Err(e);
                },
            }
        } else {
            out.push(src[i]);
            i = i + 1;
        }
    }
    Ok(out)
}

/// Reads the string literal whose opening `"` is at `pos`.
pub fn lex_string(src: &Vec<char>, pos: usize) -> (r: (Result<TokenKind, LexErrorKind>, usize))
    requires
        pos < src@.len(),
        src@[pos as int] == '"',
    ensures
        (outcome_view(r.0), r.1 as int) == string_at(src@, pos as int),
        pos < r.1 <= src@.len(),
{
    let len = src.len();
    match find_closing_quote(src, pos + 1, '"') {
        None => (Err(LexErrorKind::UnterminatedStringOrCharacterLiteral), len),
        Some(c) => match decode_literal(src, pos + 1, c) {
            Ok(v) => {
                let s = string_of(&v, 0, v.len());
                assert(v@.subrange(0, v@.len() as int) =~= v@);
                (Ok(TokenKind::String(s)), c + 1)
            },
            Err(e) => (Err(e), c + 1),
        },
    }
}

/// Reads the character literal whose opening `'` is at `pos`.
pub fn lex_character(src: &Vec<char>, pos: usize) -> (r: (Result<TokenKind, LexErrorKind>, usize))
    requires
        pos < src@.len(),
        src@[pos as int] == '\'',
    ensures
        (outcome_view(r.0), r.1 as int) == character_at(src@, pos as int),
        pos < r.1 <= src@.len(),
{
    let len = src.len();
    match find_closing_quote(src, pos + 1, '\'') {
        None => (Err(LexErrorKind::UnterminatedStringOrCharacterLiteral), len),
        Some(c) => match decode_literal(src, pos + 1, c) {
            Ok(v) => if v.len() == 1 {
                (Ok(TokenKind::Character(v[0])), c + 1)
            } else {
                (Err(LexErrorKind::InvalidCharacterLiteral), c + 1)
            },
            Err(e) => (Err(e), c + 1),
        },
    }
}

} // verus!
