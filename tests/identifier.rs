use lexer::{Lexer, TokenKind};

fn first(src: &str) -> (TokenKind, String) {
    let token = Lexer::new(src).next().unwrap().unwrap();
    (token.kind, token.lexeme)
}

fn ident(name: &str) -> (TokenKind, String) {
    (TokenKind::Identifier(name.to_string()), name.to_string())
}

#[test]
fn match_simple() {
    assert_eq!(first("varname"), ident("varname"));
}

#[test]
fn identifier_match_underscore() {
    assert_eq!(first("var_name"), ident("var_name"));
    assert_eq!(first("varname_"), ident("varname_"));
    assert_eq!(first("_var_name"), ident("_var_name"));
    assert_eq!(first("_"), ident("_"));
}

#[test]
fn match_number() {
    assert_eq!(first("var1name"), ident("var1name"));
    assert_eq!(first("var_name1"), ident("var_name1"));
}

#[test]
fn common_match_simple_identifier() {
    assert_eq!(first("varname"), ident("varname"));
}

#[test]
fn common_match_underscore_identifier() {
    assert_eq!(first("var_name"), ident("var_name"));
}

#[test]
fn common_match_number_identifier() {
    assert_eq!(first("var_name1"), ident("var_name1"));
}

#[test]
fn common_match_indentifier_starting_underscore() {
    assert_eq!(first("_var_name"), ident("_var_name"));
}

#[test]
fn common_not_match_identifier_number() {
    assert!(!matches!(first("1var_name").0, TokenKind::Identifier(_)));
}

#[test]
fn identifier_match_simple_identifier() {
    assert_eq!(first("varname"), ident("varname"));
}

#[test]
fn identifier_match_underscore_identifier() {
    assert_eq!(first("var_name"), ident("var_name"));
}

#[test]
fn identifier_match_number_identifier() {
    assert_eq!(first("var_name1"), ident("var_name1"));
}

#[test]
fn identifier_match_indentifier_starting_underscore() {
    assert_eq!(first("_var_name"), ident("_var_name"));
}

#[test]
fn identifier_not_match_identifier_number() {
    assert!(!matches!(first("1var_name").0, TokenKind::Identifier(_)));
}

#[test]
fn non_ascii_identifiers() {
    assert_eq!(first("größe = 1"), ident("größe"));
    assert_eq!(first("переменная"), ident("переменная"));
    assert_eq!(first("x1_é9"), ident("x1_é9"));
}
