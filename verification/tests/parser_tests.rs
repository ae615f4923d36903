use flop::ast::Node;
use flop::error::ParseError;
use flop::parser::parse;
use flop::token::TokenKind;

fn parse_source(code: &str) -> Result<Node, ParseError> {
    let mut tokens = flop::lexer::tokenise(&code.to_string(), &"test".to_string()).unwrap();
    parse(&mut tokens)
}

#[test]
fn test_parse() {
    let code = "(+ 1 2)".to_string();
    match parse_source(&code) {
        Ok(Node::FunctionCall(fc)) => {
            assert_eq!(fc.name.token, "+");
            assert_eq!(fc.arguments.data.len(), 2);
            match (&fc.arguments.data[0], &fc.arguments.data[1]) {
                (Node::Literal(a), Node::Literal(b)) => {
                    assert_eq!(a.token_kind, TokenKind::Integer);
                    assert_eq!(a.token, "1");
                    assert_eq!(b.token_kind, TokenKind::Integer);
                    assert_eq!(b.token, "2");
                }
                other => panic!("{:?}", other),
            }
        }
        other => panic!("{:?}", other),
    }
}

#[test]
fn test_parse_nested() {
    let code = "(+ 1 (+ 1 2))".to_string();
    match parse_source(&code) {
        Ok(Node::FunctionCall(fc)) => {
            assert_eq!(fc.name.token, "+");
            assert_eq!(fc.arguments.data.len(), 2);
            match &fc.arguments.data[0] {
                Node::Literal(a) => assert_eq!(a.token, "1"),
                other => panic!("{:?}", other),
            }
            match &fc.arguments.data[1] {
                Node::FunctionCall(inner) => {
                    assert_eq!(inner.name.token, "+");
                    assert_eq!(inner.arguments.data.len(), 2);
                    match (&inner.arguments.data[0], &inner.arguments.data[1]) {
                        (Node::Literal(a), Node::Literal(b)) => {
                            assert_eq!(a.token, "1");
                            assert_eq!(b.token, "2");
                        }
                        other => panic!("{:?}", other),
                    }
                }
                other => panic!("{:?}", other),
            }
        }
        other => panic!("{:?}", other),
    }
}

#[test]
fn test_list() {
    let code = "(+ [1 2 3])".to_string();
    match parse_source(&code) {
        Ok(Node::FunctionCall(fc)) => {
            assert_eq!(fc.name.token, "+");
            assert_eq!(fc.arguments.data.len(), 1);
            match &fc.arguments.data[0] {
                Node::List(l) => {
                    let texts: Vec<String> = l
                        .data
                        .data
                        .iter()
                        .map(|n| match n {
                            Node::Literal(t) => t.token.clone(),
                            other => panic!("{:?}", other),
                        })
                        .collect();
                    assert_eq!(texts, vec!["1", "2", "3"]);
                }
                other => panic!("{:?}", other),
            }
        }
        other => panic!("{:?}", other),
    }
}

#[test]
fn parser_test_function_definition() {
    let code = r#"(defn hi [name] "lmao" (+ 1 1))"#.to_string();
    match parse_source(&code) {
        Ok(Node::FunctionDefinition(fd)) => {
            assert_eq!(fd.name.token, "hi");
            assert_eq!(fd.parameters.data.len(), 1);
            assert_eq!(fd.parameters.data[0].token, "name");
            assert_eq!(fd.docstrings.token, "lmao");
            assert_eq!(fd.body.data.len(), 1);
            match &fd.body.data[0] {
                Node::FunctionCall(fc) => {
                    assert_eq!(fc.name.token, "+");
                    assert_eq!(fc.arguments.data.len(), 2);
                }
                other => panic!("{:?}", other),
            }
        }
        other => panic!("{:?}", other),
    }
}

#[test]
fn test_function_add() {
    // A function definition must carry a docstring after its parameter
    // list; without one the body's opening bracket is reported.
    let code = "(defn add [x y] (+ x y))".to_string();
    match parse_source(&code) {
        Err(ParseError::FunctionDocstring(t)) => {
            assert_eq!(t.token_kind, TokenKind::LeftRoundBracket);
        }
        other => panic!("{:?}", other),
    }
}

#[test]
fn parser_test_variable() {
    let code = r#"(setq v "hi")"#.to_string();
    match parse_source(&code) {
        Ok(Node::VariableDefinition(vd)) => {
            assert_eq!(vd.name.token, "v");
            match &*vd.assignment {
                Node::Literal(t) => {
                    assert_eq!(t.token_kind, TokenKind::StringLiteral);
                    assert_eq!(t.token, "hi");
                }
                other => panic!("{:?}", other),
            }
        }
        other => panic!("{:?}", other),
    }
}

#[test]
fn test_variable_call() {
    let code = r#"v"#.to_string();
    let tokens = flop::lexer::tokenise(&code, &"test".to_string()).unwrap();
    assert_eq!(tokens.data.len(), 1);
    assert_eq!(tokens.data[0].token_kind, TokenKind::Symbol);
    assert_eq!(tokens.data[0].token, "v");
    match parse_source(&code) {
        Ok(Node::VariableCall(vc)) => {
            assert_eq!(vc.name.token, "v");
        }
        other => panic!("{:?}", other),
    }
}

#[test]
fn parser_unterminated_call_is_an_error() {
    let code = "(+ 1 2".to_string();
    assert!(matches!(parse_source(&code), Err(ParseError::StackError { .. })));
}

#[test]
fn parser_unterminated_list_is_an_error() {
    let code = "[1 2".to_string();
    assert!(matches!(parse_source(&code), Err(ParseError::StackError { .. })));
}

#[test]
fn parser_extra_tokens_are_an_error() {
    let code = "(+ 1 2) (+ 3 4)".to_string();
    assert!(matches!(parse_source(&code), Err(ParseError::ExtraTokens(_))));
}

#[test]
fn parser_symbol_inside_list_is_an_error() {
    let code = "[a]".to_string();
    assert!(matches!(parse_source(&code), Err(ParseError::ListDefinition(_))));
}

#[test]
fn parser_empty_input_is_an_error() {
    let code = "".to_string();
    assert!(matches!(parse_source(&code), Err(ParseError::StackError { .. })));
}

#[test]
fn parser_conditional_keyword_is_rejected() {
    let code = "(if".to_string();
    assert!(matches!(parse_source(&code), Err(ParseError::ParseError(_))));
}

#[test]
fn parser_nested_list_keeps_order() {
    let code = "[1 [2 3] 4]".to_string();
    match parse_source(&code) {
        Ok(Node::List(l)) => {
            assert_eq!(l.data.data.len(), 3);
            match &l.data.data[1] {
                Node::List(inner) => assert_eq!(inner.data.data.len(), 2),
                other => panic!("{:?}", other),
            }
        }
        other => panic!("{:?}", other),
    }
}
