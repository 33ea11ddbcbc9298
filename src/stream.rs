//! The token stream: a cursor over a source text that yields one token or
//! error at a time, then `Eof`, then nothing.

use vstd::prelude::*;
use vstd::string::StringSliceAdditionalSpecFns;

use crate::lexer::{eof_of, items_from, joined, lemma_lex_progress, lex_token, scanned_at, views};
use crate::span::{
    byte_offset, char_width, lemma_byte_offset_step, lemma_encode_len, lemma_line_col_bound,
    line_col, span_of, utf8_len,
};
use crate::text::{chars_of, string_of};
use crate::token::{item_view, LexError, Scanned, Span, Token, TokenKind};

verus! {

/// A token stream over one source text. It yields the items of
/// `items_from(source, 0)` in order, then nothing.
pub struct Lexer {
    src: Vec<char>,
    pos: usize,
    offset: usize,
    line: u32,
    column: u32,
    finished: bool,
    produced: Ghost<Seq<Scanned>>,
}

proof fn lemma_joined_push(items: Seq<Scanned>, x: Scanned)
    ensures
        joined(items.push(x)) == joined(items) + x.text,
{
    assert(items.push(x).drop_last() =~= items);
}

impl Lexer {
    /// The characters of the source text.
    pub closed spec fn source(&self) -> Seq<char> {
        self.src@
    }

    /// The items yielded so far.
    pub closed spec fn produced(&self) -> Seq<Scanned> {
        self.produced@
    }

    /// Whether `Eof` has been yielded.
    pub closed spec fn is_finished(&self) -> bool {
        self.finished
    }

    /// How much is left to yield.
    pub closed spec fn remaining(&self) -> nat {
        if self.finished {
            0
        } else {
            (self.src@.len() - self.pos + 1) as nat
        }
    }

    /// The items yielded so far are the first ones of `items_from(source, 0)`,
    /// and all of them once `Eof` has been yielded.
    pub open spec fn in_order(&self) -> bool {
        let all = items_from(self.source(), 0);
        &&& self.produced().len() <= all.len()
        &&& self.produced() == all.subrange(0, self.produced().len() as int)
        &&& self.is_finished() <==> self.produced().len() == all.len()
    }

    proof fn lemma_in_order(&self)
        requires
            self.wf(),
        ensures
            self.in_order(),
    {
        let all = items_from(self.src@, 0);
        if !self.finished {
            let rest = items_from(self.src@, self.pos as int);
            assert(rest.len() > 0) by {
                if (self.pos as int) < self.src@.len() {
                    lemma_lex_progress(self.src@, self.pos as int);
                }
            }
            assert(all.subrange(0, self.produced@.len() as int) =~= self.produced@);
        } else {
            assert(all.subrange(0, self.produced@.len() as int) =~= self.produced@);
        }
    }

    /// The cursor agrees with the source and with what was yielded.
    pub closed spec fn wf(&self) -> bool {
        &&& self.pos <= self.src@.len() < u32::MAX
        &&& utf8_len(self.src@) <= usize::MAX
        &&& self.offset == byte_offset(self.src@, self.pos as int)
        &&& self.line == line_col(self.src@, self.pos as int).0
        &&& self.column == line_col(self.src@, self.pos as int).1
        &&& !self.finished ==> items_from(self.src@, 0) == self.produced@ + items_from(
            self.src@,
            self.pos as int,
        )
        &&& !self.finished ==> joined(self.produced@) == self.src@.subrange(0, self.pos as int)
        &&& self.finished ==> items_from(self.src@, 0) == self.produced@
        &&& self.finished ==> joined(self.produced@) == self.src@
    }

    /// A stream at the start of `source`. The source must be shorter than
    /// `u32::MAX` characters, so that lines and columns fit in a `u32`; its
    /// length in bytes fits in a `usize`, as that of every `str` does.
    pub fn new(source: &str) -> (r: Lexer)
        requires
            source@.len() < u32::MAX,
            source.spec_bytes().len() <= usize::MAX,
        ensures
            r.wf(),
            r.in_order(),
            r.source() == source@,
            r.produced() == Seq::<Scanned>::empty(),
            !r.is_finished(),
    {
        let src = chars_of(source);
        proof {
            lemma_encode_len(source@);
            assert(src@.subrange(0, 0) =~= Seq::<char>::empty());
            assert(Seq::<Scanned>::empty() + items_from(src@, 0) =~= items_from(src@, 0));
        }
        let r = Lexer {
            src,
            pos: 0,
            offset: 0,
            line: 1,
            column: 1,
            finished: false,
            produced: Ghost(Seq::empty()),
        };
        proof {
            r.lemma_in_order();
        }
        r
    }

    /// The next item: a token or a lexical error, covering the source text
    /// from the cursor on; at the end of the source, `Eof` once; after that,
    /// `None`.
    pub fn next(&mut self) -> (r: Option<Result<Token, LexError>>)
        requires
            old(self).wf(),
        ensures
            final(self).wf(),
            final(self).in_order(),
            final(self).source() == old(self).source(),
            !old(self).is_finished() ==> (r matches Some(item) && item_view(item) == items_from(
                old(self).source(),
                0,
            )[old(self).produced().len() as int]),
            old(self).is_finished() ==> r is None && final(self).produced() == old(self).produced()
                && final(self).is_finished(),
            !old(self).is_finished() ==> (r matches Some(item) && final(self).produced()
                == old(self).produced().push(item_view(item))),
            !old(self).is_finished() ==> final(self).remaining() < old(self).remaining(),
    {
        if self.finished {
            proof {
                self.lemma_in_order();
            }
            return None;
        }
        let len = self.src.len();
        if self.pos >= len {
            let span = Span { start: self.offset, end: self.offset, line: self.line, column: self.column };
            let item = Ok(Token { kind: TokenKind::Eof, lexeme: String::new(), span });
            proof {
                lemma_line_col_bound(self.src@, self.pos as int);
                assert(self.src@.subrange(0, self.pos as int) =~= self.src@);
                assert(item_view(item).text =~= eof_of(self.src@).text);
                assert(item_view(item) == eof_of(self.src@));
                assert(self.produced@ + seq![eof_of(self.src@)] =~= self.produced@.push(
                    item_view(item),
                ));
                assert(items_from(self.src@, self.pos as int) == seq![eof_of(self.src@)]);
                lemma_joined_push(self.produced@, item_view(item));
                assert(self.src@.subrange(0, self.pos as int) =~= self.src@);
                self.produced@ = self.produced@.push(item_view(item));
            }
            self.finished = true;
            proof {
                self.lemma_in_order();
            }
            return Some(item);
        }
        let pos = self.pos;
        let (out, end) = lex_token(&self.src, pos);
        let lexeme = string_of(&self.src, pos, end);
        let (mut offset, mut line, mut column) = (self.offset, self.line, self.column);
        let mut i = pos;
        while i < end
            invariant
                pos <= i <= end <= self.src@.len() < u32::MAX,
                utf8_len(self.src@) <= usize::MAX,
                offset == byte_offset(self.src@, i as int),
                line == line_col(self.src@, i as int).0,
                column == line_col(self.src@, i as int).1,
            decreases end - i,
        {
            proof {
                lemma_byte_offset_step(self.src@, i as int);
                lemma_line_col_bound(self.src@, i as int);
            }
            let c = self.src[i];
            offset = offset + char_width(c);
            if c == '\n' {
                line = line + 1;
                column = 1;
            } else {
                column = column + 1;
            }
            i = i + 1;
        }
        let span = Span { start: self.offset, end: offset, line: self.line, column: self.column };
        self.pos = end;
        self.offset = offset;
        self.line = line;
        self.column = column;
        let item = match out {
            Ok(kind) => Ok(Token { kind, lexeme, span }),
            Err(kind) => Err(LexError { kind, lexeme, span }),
        };
        proof {
            lemma_line_col_bound(self.src@, pos as int);
            lemma_byte_offset_step(self.src@, pos as int);
            lemma_byte_offset_step(self.src@, end - 1);
            assert(span == span_of(self.src@, pos as int, end as int));
            assert(item_view(item) == scanned_at(self.src@, pos as int));
            assert(items_from(self.src@, pos as int) == seq![scanned_at(self.src@, pos as int)]
                + items_from(self.src@, end as int));
            assert(self.produced@ + items_from(self.src@, pos as int) =~= self.produced@.push(
                item_view(item),
            ) + items_from(self.src@, end as int));
            lemma_joined_push(self.produced@, item_view(item));
            assert(self.src@.subrange(0, end as int) =~= self.src@.subrange(0, pos as int)
                + self.src@.subrange(pos as int, end as int));
            self.produced@ = self.produced@.push(item_view(item));
            self.lemma_in_order();
        }
        Some(item)
    }
}

/// Scanning a source twice gives the same items: two streams over the same
/// source text, once finished, have yielded the same items.
pub proof fn lemma_rescan_same_items(first: Lexer, second: Lexer)
    requires
        first.in_order(),
        second.in_order(),
        first.is_finished(),
        second.is_finished(),
        first.source() == second.source(),
    ensures
        first.produced() == second.produced(),
{
    let all = items_from(first.source(), 0);
    assert(first.produced() =~= all.subrange(0, all.len() as int));
    assert(second.produced() =~= all.subrange(0, all.len() as int));
}

/// All items of the stream over `source`, `Eof` included. They are those of
/// `items_from(source@, 0)`, a function of the source text alone, and their
/// texts, joined in order, give back the source.
pub fn tokenize(source: &str) -> (r: Vec<Result<Token, LexError>>)
    requires
        source@.len() < u32::MAX,
        source.spec_bytes().len() <= usize::MAX,
    ensures
        views(r@) == items_from(source@, 0),
        joined(views(r@)) == source@,
{
    let mut lexer = Lexer::new(source);
    let mut out: Vec<Result<Token, LexError>> = Vec::new();
    loop
        invariant
            lexer.wf(),
            lexer.source() == source@,
            views(out@) == lexer.produced(),
        ensures
            lexer.wf(),
            lexer.source() == source@,
            lexer.is_finished(),
            views(out@) == lexer.produced(),
        decreases lexer.remaining(),
    {
        match lexer.next() {
            Some(item) => {
                out.push(item);
                assert(views(out@) =~= lexer.produced());
            },
            None => {
                break;
            },
        }
    }
    out
}

} // verus!
