use flop::error::LexerError;
use flop::token::TokenKind;

fn kinds_and_texts(code: &str) -> Vec<(TokenKind, String)> {
    let tokens = flop::lexer::tokenise(&code.to_string(), &"test".to_string()).unwrap();
    tokens.data.iter().map(|t| (t.token_kind, t.token.clone())).collect()
}

fn tok(kind: TokenKind, text: &str) -> (TokenKind, String) {
    (kind, text.to_string())
}

#[test]
fn lexer_test_lexor() {
    let code = "(+ 1 2)".to_string();
    let tokens = kinds_and_texts(&code);
    assert_eq!(
        tokens,
        vec![
            tok(TokenKind::LeftRoundBracket, "("),
            tok(TokenKind::Symbol, "+"),
            tok(TokenKind::Integer, "1"),
            tok(TokenKind::Integer, "2"),
            tok(TokenKind::RightRoundBracket, ")"),
        ]
    )
}

#[test]
fn lexer_test_lexor_list() {
    let code = "(+ [1 2])".to_string();
    let tokens = kinds_and_texts(&code);
    assert_eq!(
        tokens,
        vec![
            tok(TokenKind::LeftRoundBracket, "("),
            tok(TokenKind::Symbol, "+"),
            tok(TokenKind::LeftSquareBracket, "["),
            tok(TokenKind::Integer, "1"),
            tok(TokenKind::Integer, "2"),
            tok(TokenKind::RightSquareBracket, "]"),
            tok(TokenKind::RightRoundBracket, ")"),
        ]
    )
}

#[test]
fn lexer_test_string() {
    let code = r#"(print "hi")"#.to_string();
    let tokens = kinds_and_texts(&code);
    assert_eq!(
        tokens,
        vec![
            tok(TokenKind::LeftRoundBracket, "("),
            tok(TokenKind::Symbol, "print"),
            tok(TokenKind::StringLiteral, "hi"),
            tok(TokenKind::RightRoundBracket, ")"),
        ]
    )
}

#[test]
fn lexer_test_variable() {
    let code = r#"(setq lmao "hi")"#.to_string();
    let tokens = kinds_and_texts(&code);
    assert_eq!(
        tokens,
        vec![
            tok(TokenKind::VariableDefinition, "setq"),
            tok(TokenKind::Symbol, "lmao"),
            tok(TokenKind::StringLiteral, "hi"),
        ]
    )
}

#[test]
fn lexer_test_function_definition() {
    let code = "(defn add [x y] (+ x y))".to_string();
    let tokens = kinds_and_texts(&code);
    assert_eq!(
        tokens,
        vec![
            tok(TokenKind::FunctionDefinition, "defn"),
            tok(TokenKind::Symbol, "add"),
            tok(TokenKind::LeftSquareBracket, "["),
            tok(TokenKind::Symbol, "x"),
            tok(TokenKind::Symbol, "y"),
            tok(TokenKind::RightSquareBracket, "]"),
            tok(TokenKind::LeftRoundBracket, "("),
            tok(TokenKind::Symbol, "+"),
            tok(TokenKind::Symbol, "x"),
            tok(TokenKind::Symbol, "y"),
            tok(TokenKind::RightRoundBracket, ")"),
        ]
    )
}

#[test]
fn lexer_docstring_after_parameter_list() {
    let code = r#"(defn hi [name] "doc" (+ 1 1))"#.to_string();
    let tokens = kinds_and_texts(&code);
    assert_eq!(tokens[5], tok(TokenKind::DocString, "doc"));
}

#[test]
fn lexer_comment_skips_line() {
    let code = ";; a comment line\n(+ 1 2)".to_string();
    let tokens = kinds_and_texts(&code);
    assert_eq!(
        tokens,
        vec![
            tok(TokenKind::LeftRoundBracket, "("),
            tok(TokenKind::Symbol, "+"),
            tok(TokenKind::Integer, "1"),
            tok(TokenKind::Integer, "2"),
            tok(TokenKind::RightRoundBracket, ")"),
        ]
    )
}

#[test]
fn lexer_string_at_start_is_an_error() {
    let r = flop::lexer::tokenise(&r#""hi" (+ 1 2)"#.to_string(), &"test".to_string());
    assert!(matches!(r, Err(LexerError::IncompleteStringError(_))));
}

#[test]
fn lexer_conditional_keyword() {
    let code = "(if".to_string();
    let tokens = kinds_and_texts(&code);
    assert_eq!(tokens, vec![tok(TokenKind::Conditional, "if")]);
}

#[test]
fn lexer_overflowing_number_is_a_symbol() {
    let code = "99999999999999999999999".to_string();
    let tokens = kinds_and_texts(&code);
    assert_eq!(tokens, vec![tok(TokenKind::Symbol, "99999999999999999999999")]);
}

#[test]
fn lexer_positions() {
    let code = "(+ 1\n   22)".to_string();
    let tokens = flop::lexer::tokenise(&code, &"test".to_string()).unwrap();
    // the token on the second row carries its row and column
    let t = &tokens.data[3];
    assert_eq!(t.token, "22");
    assert_eq!(t.row, 1);
    assert_eq!(t.offset, 4);
    assert_eq!(t.length, 2);
    assert_eq!(t.namespace, "test");
}
