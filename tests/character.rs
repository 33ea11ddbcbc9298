use lexer::{LexErrorKind, Lexer, TokenKind};

fn first(src: &str) -> Result<(TokenKind, String), LexErrorKind> {
    match Lexer::new(src).next().unwrap() {
        Ok(token) => Ok((token.kind, token.lexeme)),
        Err(error) => Err(error.kind),
    }
}

fn character(c: char, lexeme: &str) -> Result<(TokenKind, String), LexErrorKind> {
    Ok((TokenKind::Character(c), lexeme.to_string()))
}

#[test]
fn character_match_simple_character() {
    assert_eq!(first("'a'"), character('a', "'a'"));
}

#[test]
fn character_match_escaped_character() {
    assert_eq!(first(r#"'\n'"#), character('\n', "'\\n'"));
    assert_eq!(first(r#"'\r'"#), character('\r', "'\\r'"));
    assert_eq!(first(r#"'\t'"#), character('\t', "'\\t'"));
    assert_eq!(first(r#"'\\'"#), character('\\', "'\\\\'"));
    assert_eq!(first(r#"'/'"#), character('/', "'/'"));
    assert_eq!(first(r#"'"'"#), character('"', "'\"'"));
    assert_eq!(first(r#"' '"#), character(' ', "' '"));
    assert_eq!(first(r#"'\''"#), character('\'', "'\\''"));
}

#[test]
fn character_match_unicode_character() {
    assert_eq!(first("'\u{1F600}'"), character('\u{1F600}', "'\u{1F600}'"));
    // Each of these holds two or more characters between the quotes, which a
    // character literal does not allow.
    assert_eq!(first("'\u{11f}\u{178}\u{2dc}\u{20ac}'"), Err(LexErrorKind::InvalidCharacterLiteral));
    assert_eq!(first("'\u{e6}\u{b1}'"), Err(LexErrorKind::InvalidCharacterLiteral));
    assert_eq!(first("'\u{11e}\u{b4}'"), Err(LexErrorKind::InvalidCharacterLiteral));
    assert_eq!(first("'\u{d9}\u{201e}'"), Err(LexErrorKind::InvalidCharacterLiteral));
}
