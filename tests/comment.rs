use lexer::{lex_comment, Comment, LexErrorKind, Lexer, TokenKind};

fn first_token(src: &str) -> (TokenKind, String) {
    let token = Lexer::new(src).next().unwrap().unwrap();
    (token.kind, token.lexeme)
}

fn line(body: &str) -> TokenKind {
    TokenKind::Comment(Comment::LineComment(body.to_string()))
}

fn block(body: &str) -> TokenKind {
    TokenKind::Comment(Comment::BlockComment(body.to_string()))
}

fn whole(text: &str, comment: Comment) -> Option<Result<(Comment, usize), LexErrorKind>> {
    Some(Ok((comment, text.chars().count())))
}

#[test]
fn comment_match_line_comment() {
    assert_eq!(first_token("// test comment"), (line(" test comment"), "// test comment".to_string()));
    // the line feed is part of the token
    assert_eq!(
        first_token("// test comment\n"),
        (line(" test comment"), "// test comment\n".to_string())
    );
    assert_eq!(first_token("// "), (line(" "), "// ".to_string()));
    assert_eq!(first_token("//"), (line(""), "//".to_string()));

    let text = "// Lorem ipsum\t";
    assert_eq!(lex_comment(text), whole(text, Comment::LineComment(" Lorem ipsum\t".to_string())));
    assert_eq!(lex_comment("// "), whole("// ", Comment::LineComment(" ".to_string())));
    assert_eq!(lex_comment("//"), whole("//", Comment::LineComment("".to_string())));
}

#[test]
fn match_block_comment() {
    assert_eq!(first_token("/*test*/"), (block("test"), "/*test*/".to_string()));
    assert_eq!(
        first_token("/* block comment */"),
        (block(" block comment "), "/* block comment */".to_string())
    );
}

#[test]
fn match_simple_block_comment() {
    assert_eq!(lex_comment("/*test*/"), whole("/*test*/", Comment::BlockComment("test".to_string())));
    assert_eq!(lex_comment("/* */"), whole("/* */", Comment::BlockComment(" ".to_string())));
}

#[test]
fn comment_match_multiline_block_comment() {
    let a = "/* Lorem\nipsum */";
    let b = "/* Line 1\nLine 2\nLine 3 */";
    assert_eq!(first_token(a), (block(" Lorem\nipsum "), a.to_string()));
    assert_eq!(first_token(b), (block(" Line 1\nLine 2\nLine 3 "), b.to_string()));
    assert_eq!(lex_comment(a), whole(a, Comment::BlockComment(" Lorem\nipsum ".to_string())));
    assert_eq!(
        lex_comment(b),
        whole(b, Comment::BlockComment(" Line 1\nLine 2\nLine 3 ".to_string()))
    );
}

#[test]
fn comment_fail_missing_delimiter_block_comment() {
    let first = Lexer::new("/* test").next().unwrap();
    assert!(first.is_err());
    assert_eq!(first.unwrap_err().kind, LexErrorKind::UnterminatedBlockComment);

    assert!(!matches!(lex_comment("/* test"), Some(Ok(_))));
    assert!(!matches!(lex_comment("test */"), Some(Ok(_))));
    assert!(!matches!(lex_comment("test"), Some(Ok(_))));
}

#[test]
fn comment_match_nested_block_comment() {
    let a = "/*Nested /* Block */ Comment*/";
    let b = "/*Nested /* Block /* Lorem */ */ Comment*/";
    let c = "/*Nested /* Block */ /* Lorem */ Comment*/";
    assert_eq!(first_token(a), (block("Nested /* Block */ Comment"), a.to_string()));
    assert_eq!(first_token(b), (block("Nested /* Block /* Lorem */ */ Comment"), b.to_string()));
    assert_eq!(first_token(c), (block("Nested /* Block */ /* Lorem */ Comment"), c.to_string()));
    assert_eq!(lex_comment(a), whole(a, Comment::BlockComment("Nested /* Block */ Comment".to_string())));
    assert_eq!(
        lex_comment(b),
        whole(b, Comment::BlockComment("Nested /* Block /* Lorem */ */ Comment".to_string()))
    );
}
