use lexer::{
    chars_of, lex_literal, lex_token, Literal, take_until_unbalanced, tokenize, BitCount, Comment, IntegerKind, LexError,
    LexErrorKind, Lexer, Number, NumberKind, NumberValue, Operator, Span, SyntaxKind, Token, TokenKind,
    SYNTAX_KIND_COUNT,
};

fn text_of(item: &Result<Token, LexError>) -> String {
    match item {
        Ok(token) => token.lexeme.clone(),
        Err(error) => error.lexeme.clone(),
    }
}

fn span_of(item: &Result<Token, LexError>) -> Span {
    match item {
        Ok(token) => token.span,
        Err(error) => error.span,
    }
}

fn first(src: &str) -> Result<TokenKind, LexErrorKind> {
    match Lexer::new(src).next().unwrap() {
        Ok(token) => Ok(token.kind),
        Err(error) => Err(error.kind),
    }
}

#[test]
fn lexemes_join_back_to_the_source() {
    for src in [
        "",
        "let x = 1 + 2;",
        "fn f(a: i32) -> i32 { return a * 2; } // done\n",
        "/* unterminated",
        "\"bad \\q escape\" 'ab' 0o7f32 123e3i32 & ¤ \"open",
        "x /*a /* b */ c*/ y\n\t\x0C'\\u{1F600}'",
    ] {
        let items = tokenize(src);
        let joined: String = items.iter().map(text_of).collect();
        assert_eq!(joined, src);
        assert!(matches!(items.last(), Some(Ok(Token { kind: TokenKind::Eof, .. }))));
    }
}

#[test]
fn spans_tile_the_source_in_bytes() {
    let src = "a ü\n  é + \"東\"\n";
    let items = tokenize(src);
    let mut at = 0;
    for item in &items {
        let span = span_of(item);
        assert_eq!(span.start, at);
        assert_eq!(&src[span.start..span.end], text_of(item));
        at = span.end;
    }
    assert_eq!(at, src.len());
}

#[test]
fn lines_and_columns_count_from_one() {
    let items = tokenize("ab\n  cd ü x");
    let positions: Vec<(u32, u32)> = items.iter().map(|i| (span_of(i).line, span_of(i).column)).collect();
    // ab, "\n  ", cd, " ", ü, " ", x, Eof
    assert_eq!(positions, vec![(1, 1), (1, 3), (2, 3), (2, 5), (2, 6), (2, 7), (2, 8), (2, 9)]);
    assert_eq!(span_of(&items[4]), Span { start: 8, end: 10, line: 2, column: 6 });
}

#[test]
fn scanning_twice_gives_the_same_tokens() {
    let src = "if x != 0x1F { y += 'c'; } /* note */ \"s\\n\" 3.5e2";
    assert_eq!(tokenize(src), tokenize(src));
    let mut a = Lexer::new(src);
    let mut b = Lexer::new(src);
    loop {
        let (x, y) = (a.next(), b.next());
        assert_eq!(x, y);
        if x.is_none() {
            break;
        }
    }
}

#[test]
fn eof_comes_once_then_nothing() {
    let mut lexer = Lexer::new("x");
    assert_eq!(lexer.next().unwrap().unwrap().kind, TokenKind::Identifier("x".to_string()));
    let eof = lexer.next().unwrap().unwrap();
    assert_eq!(eof.kind, TokenKind::Eof);
    assert_eq!(eof.lexeme, "");
    assert_eq!(eof.span, Span { start: 1, end: 1, line: 1, column: 2 });
    assert_eq!(lexer.next(), None);
    assert_eq!(lexer.next(), None);
    let mut empty = Lexer::new("");
    assert_eq!(empty.next().unwrap().unwrap().kind, TokenKind::Eof);
    assert_eq!(empty.next(), None);
}

#[test]
fn numeric_decode_cases() {
    assert_eq!(
        first("123u8"),
        Ok(TokenKind::Number(Number {
            value: NumberValue::Integer { value: 123, base: IntegerKind::Decimal },
            kind: NumberKind('u', BitCount::_8),
        }))
    );
    assert_eq!(
        first("0x1_ab"),
        Ok(TokenKind::Number(Number {
            value: NumberValue::Integer { value: 0x1ab, base: IntegerKind::Hexadecimal },
            kind: NumberKind('i', BitCount::_32),
        }))
    );
    assert_eq!(
        first("123.23e10f64"),
        Ok(TokenKind::Number(Number {
            value: NumberValue::Floating { significand: 12323, exponent: 8 },
            kind: NumberKind('f', BitCount::_64),
        }))
    );
    assert_eq!("12323e8".parse::<f64>().unwrap(), 123.23e10);
    assert_eq!(first("123e3i32"), Err(LexErrorKind::IntegerWithExponentSuffix));
    assert_eq!(first("123f8"), Err(LexErrorKind::InvalidFloatPrecision));
}

#[test]
fn nested_block_comment_is_one_token() {
    let src = "/*Nested /* Block */ Comment*/";
    let items = tokenize(src);
    assert_eq!(items.len(), 2);
    let token = items[0].clone().unwrap();
    assert_eq!(token.kind, TokenKind::Comment(Comment::BlockComment("Nested /* Block */ Comment".to_string())));
    assert_eq!(token.span, Span { start: 0, end: src.len(), line: 1, column: 1 });
    let chars = chars_of(src);
    assert_eq!(take_until_unbalanced(&chars, 2), Some(chars.len()));
}

#[test]
fn unterminated_comment() {
    let items = tokenize("/* test");
    let error = items[0].clone().unwrap_err();
    assert_eq!(error.kind, LexErrorKind::UnterminatedBlockComment);
    assert_eq!(error.span.start, 0);
    assert_eq!(error.lexeme, "/* test");
    assert_eq!(take_until_unbalanced(&chars_of("/* /* */"), 2), None);
}

#[test]
fn character_literal_arity() {
    assert_eq!(first("'ab'"), Err(LexErrorKind::InvalidCharacterLiteral));
    assert_eq!(first("''"), Err(LexErrorKind::InvalidCharacterLiteral));
    assert_eq!(first("'\\u{1F600}'"), Ok(TokenKind::Character('😀')));
}

#[test]
fn string_escapes() {
    assert_eq!(first("\"hello\\u{1F600}world\""), Ok(TokenKind::String("hello😀world".to_string())));
}

#[test]
fn each_error_kind() {
    assert_eq!(first("/* open"), Err(LexErrorKind::UnterminatedBlockComment));
    assert_eq!(first("\"open"), Err(LexErrorKind::UnterminatedStringOrCharacterLiteral));
    assert_eq!(first("'x"), Err(LexErrorKind::UnterminatedStringOrCharacterLiteral));
    assert_eq!(first("\"a\\qb\""), Err(LexErrorKind::InvalidEscapeSequence));
    assert_eq!(first("\"\\u{}\""), Err(LexErrorKind::InvalidEscapeSequence));
    assert_eq!(first("\"\\u{1234567}\""), Err(LexErrorKind::InvalidEscapeSequence));
    assert_eq!(first("'\\u{D800}'"), Err(LexErrorKind::InvalidUnicodeScalarEscape));
    assert_eq!(first("'\\u{110000}'"), Err(LexErrorKind::InvalidUnicodeScalarEscape));
    assert_eq!(first("'ab'"), Err(LexErrorKind::InvalidCharacterLiteral));
    assert_eq!(first("340282366920938463463374607431768211456"), Err(LexErrorKind::NumberOverflow));
    assert_eq!(first("1e"), Err(LexErrorKind::NumberParseFailure));
    assert_eq!(first("1e5u8"), Err(LexErrorKind::IntegerWithExponentSuffix));
    assert_eq!(first("1.0f16"), Err(LexErrorKind::InvalidFloatPrecision));
}

#[test]
fn errors_resume_after_the_bad_literal() {
    let items = tokenize("\"a\\qb\" x");
    assert_eq!(items[0].clone().unwrap_err().lexeme, "\"a\\qb\"");
    assert_eq!(items[2].clone().unwrap().kind, TokenKind::Identifier("x".to_string()));
}

#[test]
fn illegal_characters_take_one_scalar() {
    let items = tokenize("&¤|");
    let kinds: Vec<(TokenKind, String)> = items.into_iter().map(|i| { let t = i.unwrap(); (t.kind, t.lexeme) }).collect();
    assert_eq!(
        kinds,
        vec![
            (TokenKind::Illegal, "&".to_string()),
            (TokenKind::Illegal, "¤".to_string()),
            (TokenKind::Illegal, "|".to_string()),
            (TokenKind::Eof, "".to_string()),
        ]
    );
    // a non-ASCII digit can continue an identifier but not start one
    assert_eq!(first("\u{663}"), Ok(TokenKind::Illegal));
    assert_eq!(first("x\u{663}"), Ok(TokenKind::Identifier("x\u{663}".to_string())));
    assert_eq!(first("."), Ok(TokenKind::Illegal));
}

#[test]
fn maximal_munch_order() {
    assert_eq!(first("//x"), Ok(TokenKind::Comment(Comment::LineComment("x".to_string()))));
    assert_eq!(first("/=1"), Ok(TokenKind::Assign(lexer::Assign::SlashEqual)));
    assert_eq!(first("->"), Ok(TokenKind::Punctuation(lexer::Punctuation::RightArrow)));
    assert_eq!(first("-1"), Ok(TokenKind::Operator(Operator::Minus)));
    assert_eq!(first("*/"), Ok(TokenKind::Operator(Operator::Star)));
    let chars = chars_of("a==b");
    assert_eq!(lex_token(&chars, 1), (Ok(TokenKind::Operator(Operator::Equal)), 3));
}

#[test]
fn whitespace_is_one_token() {
    assert_eq!(first(" \t\n\x0C x"), Ok(TokenKind::Whitespace(" \t\n\x0C ".to_string())));
    // a carriage return is not whitespace here
    assert_eq!(first("\r"), Ok(TokenKind::Illegal));
}

#[test]
fn syntax_kinds_of_tokens() {
    assert_eq!(SyntaxKind::from(&TokenKind::Operator(Operator::Plus)), Some(SyntaxKind::Plus));
    assert_eq!(SyntaxKind::from(&TokenKind::Assign(lexer::Assign::Equal)), Some(SyntaxKind::SingleEqual));
    assert_eq!(
        SyntaxKind::from(&TokenKind::Keyword(lexer::Keyword::Return)),
        Some(SyntaxKind::ReturnKeyword)
    );
    assert_eq!(
        SyntaxKind::from(&TokenKind::Comment(Comment::LineComment(String::new()))),
        Some(SyntaxKind::LineComment)
    );
    assert_eq!(SyntaxKind::from(&TokenKind::Illegal), Some(SyntaxKind::Error));
    assert_eq!(SyntaxKind::from(&TokenKind::Eof), None);
}

#[test]
fn raw_syntax_kinds_round_trip() {
    assert_eq!(SyntaxKind::LineComment.to_raw(), 0);
    assert_eq!(SyntaxKind::Root.to_raw(), SYNTAX_KIND_COUNT - 1);
    for raw in 0..SYNTAX_KIND_COUNT {
        let kind = SyntaxKind::from_raw(raw).unwrap();
        assert_eq!(kind.to_raw(), raw);
    }
    assert_eq!(SyntaxKind::from_raw(SYNTAX_KIND_COUNT), None);
}

#[test]
fn widths_in_bits() {
    assert_eq!(BitCount::_8.bits(), 8);
    assert_eq!(BitCount::_128.bits(), 128);
    assert_eq!(BitCount::Size.bits(), usize::BITS);
}

#[test]
fn literals_by_themselves() {
    assert_eq!(lex_literal("true;"), Some(Ok((Literal::Boolean(true), 4))));
    assert_eq!(lex_literal("'x' "), Some(Ok((Literal::Character('x'), 3))));
    assert_eq!(lex_literal("\"a\\tb\""), Some(Ok((Literal::String("a\tb".to_string()), 6))));
    assert_eq!(
        lex_literal("7u16"),
        Some(Ok((
            Literal::Number(Number {
                value: NumberValue::Integer { value: 7, base: IntegerKind::Decimal },
                kind: NumberKind('u', BitCount::_16),
            }),
            4
        )))
    );
    assert_eq!(lex_literal("'ab'"), Some(Err(LexErrorKind::InvalidCharacterLiteral)));
    assert_eq!(lex_literal("name"), None);
    assert_eq!(lex_literal("/* open"), None);
    assert_eq!(lex_literal(""), None);
}
