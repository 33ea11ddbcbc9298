use lexer::{Assign, Lexer, TokenKind};

fn first_kind(src: &str) -> TokenKind {
    Lexer::new(src).next().unwrap().unwrap().kind
}

#[test]
fn assign_match_plus() {
    assert_eq!(first_kind("+="), TokenKind::Assign(Assign::PlusEqual));
}

#[test]
fn assign_match_minus() {
    assert_eq!(first_kind("-="), TokenKind::Assign(Assign::MinusEqual));
}

#[test]
fn assign_match_star() {
    assert_eq!(first_kind("*="), TokenKind::Assign(Assign::StarEqual));
}

#[test]
fn assign_match_slash() {
    assert_eq!(first_kind("/="), TokenKind::Assign(Assign::SlashEqual));
}

#[test]
fn assign_match_modulo() {
    assert_eq!(first_kind("%="), TokenKind::Assign(Assign::ModuloEqual));
}

#[test]
fn assign_match_equal() {
    assert_eq!(first_kind("="), TokenKind::Assign(Assign::Equal));
}
