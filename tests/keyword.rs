use lexer::{match_keyword, Keyword, Lexer, TokenKind};

fn assert_keyword_eq(text: &str, keyword: Keyword) {
    let token = Lexer::new(text).next().unwrap().unwrap();
    assert_eq!(token.kind, TokenKind::Keyword(keyword));
    assert_eq!(token.lexeme, text);
    assert_eq!(match_keyword(text), TokenKind::Keyword(keyword));
}

fn first_kind(src: &str) -> TokenKind {
    Lexer::new(src).next().unwrap().unwrap().kind
}

#[test]
fn keyword_match_function() {
    assert_keyword_eq("fn", Keyword::Function);
}

#[test]
fn keyword_match_let() {
    assert_keyword_eq("let", Keyword::Let);
}

#[test]
fn keyword_match_if() {
    assert_keyword_eq("if", Keyword::If);
}

#[test]
fn keyword_match_else() {
    assert_keyword_eq("else", Keyword::Else);
}

#[test]
fn keyword_match_return() {
    assert_keyword_eq("return", Keyword::Return);
}

#[test]
fn match_true() {
    assert_eq!(first_kind("true"), TokenKind::Bool(true));
}

#[test]
fn match_false() {
    assert_eq!(first_kind("false"), TokenKind::Bool(false));
}

#[test]
fn keyword_prefix_is_an_identifier() {
    assert_eq!(first_kind("fnord"), TokenKind::Identifier("fnord".to_string()));
    assert_eq!(first_kind("lets"), TokenKind::Identifier("lets".to_string()));
    assert_eq!(first_kind("truest"), TokenKind::Identifier("truest".to_string()));
    assert_eq!(match_keyword("retur"), TokenKind::Identifier("retur".to_string()));
}
