use lexer::{Lexer, TokenKind};

fn first(src: &str) -> (TokenKind, String) {
    let token = Lexer::new(src).next().unwrap().unwrap();
    (token.kind, token.lexeme)
}

fn string(decoded: &str, lexeme: &str) -> (TokenKind, String) {
    (TokenKind::String(decoded.to_string()), lexeme.to_string())
}

#[test]
fn string_match_simple_string() {
    assert_eq!(first(r#""test""#), string("test", r#""test""#));
}

#[test]
fn string_match_escaped_string() {
    assert_eq!(first(r#""test\"""#), string("test\"", r#""test\"""#));
    assert_eq!(first(r#""12\"34""#), string("12\"34", r#""12\"34""#));
    assert_eq!(first(r#""hello\nworld""#), string("hello\nworld", r#""hello\nworld""#));
}

#[test]
fn string_match_unicode_string() {
    assert_eq!(first(r#""東京""#), string("東京", r#""東京""#));
    assert_eq!(first(r#""こんにちは""#), string("こんにちは", r#""こんにちは""#));
    assert_eq!(first(r#""erfüllen""#), string("erfüllen", r#""erfüllen""#));
    assert_eq!(first(r#""Здравствуйте""#), string("Здравствуйте", r#""Здравствуйте""#));
    assert_eq!(
        first(r#""\u{48}\u{65}\u{6C}\u{6C}\u{6F}""#),
        string("Hello", r#""\u{48}\u{65}\u{6C}\u{6C}\u{6F}""#)
    );
    assert_eq!(first(r#""hello\u{1F600}world""#), string("hello😀world", r#""hello\u{1F600}world""#));
    assert_eq!(first(r#""hello😀world""#), string("hello😀world", r#""hello😀world""#));
}

#[test]
fn string_match_whitespace_string() {
    assert_eq!(first(r#""     ""#), string("     ", r#""     ""#));
    assert_eq!(first(r#"" This is a test ""#), string(" This is a test ", r#"" This is a test ""#));
    assert_eq!(first(r#""test ""#), string("test ", r#""test ""#));
    assert_eq!(first(r#"" test""#), string(" test", r#"" test""#));
}
