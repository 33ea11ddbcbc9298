use lexer::{lex_operator, match_operator, Lexer, Operator, TokenKind};

fn assert_operator_eq(text: &str, op: Operator) {
    assert_eq!(lex_operator(text), Some((op, text.chars().count())));
    let token = Lexer::new(text).next().unwrap().unwrap();
    assert_eq!(token.kind, TokenKind::Operator(op));
    assert_eq!(token.lexeme, text);
}

#[test]
fn operator_match_plus() {
    assert_operator_eq("+", Operator::Plus);
}

#[test]
fn operator_match_minus() {
    assert_operator_eq("-", Operator::Minus);
}

#[test]
fn operator_match_bang() {
    assert_operator_eq("!", Operator::Bang);
}

#[test]
fn operator_match_star() {
    assert_operator_eq("*", Operator::Star);
}

#[test]
fn operator_match_slash() {
    assert_operator_eq("/", Operator::Slash);
}

#[test]
fn operator_match_modulo() {
    assert_operator_eq("%", Operator::Modulo);
}

#[test]
fn operator_match_equal() {
    assert_operator_eq("==", Operator::Equal);
}

#[test]
fn operator_match_not_equal() {
    assert_operator_eq("!=", Operator::NotEqual);
}

#[test]
fn operator_match_less_than() {
    assert_operator_eq("<", Operator::LessThan);
}

#[test]
fn operator_match_greater_than() {
    assert_operator_eq(">", Operator::GreaterThan);
}

#[test]
fn operator_match_less_than_equal() {
    assert_operator_eq("<=", Operator::LessThanEqual);
}

#[test]
fn operator_match_greater_than_equal() {
    assert_operator_eq(">=", Operator::GreaterThanEqual);
}

#[test]
fn operator_match_logical_and() {
    assert_operator_eq("&&", Operator::LogicalAnd);
}

#[test]
fn operator_match_logical_or() {
    assert_operator_eq("||", Operator::LogicalOr);
}

#[test]
fn match_operator_spells_each_operator() {
    assert_eq!(match_operator("<="), Operator::LessThanEqual);
    assert_eq!(match_operator("%"), Operator::Modulo);
    assert_eq!(match_operator("||"), Operator::LogicalOr);
}

#[test]
fn lex_operator_takes_the_longest() {
    assert_eq!(lex_operator("<=3"), Some((Operator::LessThanEqual, 2)));
    assert_eq!(lex_operator("<3"), Some((Operator::LessThan, 1)));
    assert_eq!(lex_operator("&x"), None);
    assert_eq!(lex_operator(""), None);
}
