use flop::ast::{Conditional, Documentation, Node};
use flop::env::Environment;
use flop::error::EvalError;
use flop::eval::{evaluate, EvalResult};
use flop::helpers::eval_test;
use flop::token::{Token, TokenKind};

fn run(code: &str, env: &mut Environment) -> Result<EvalResult, EvalError> {
    let mut tokens = flop::lexer::tokenise(&code.to_string(), &"test".to_string()).unwrap();
    let node = flop::parser::parse(&mut tokens).unwrap();
    evaluate(&node, env)
}

fn run_int(code: &str, env: &mut Environment) -> i64 {
    match run(code, env) {
        Ok(EvalResult::Literal(t)) => {
            assert_eq!(t.token_kind, TokenKind::Integer);
            t.token.parse::<i64>().unwrap()
        }
        other => panic!("{:?}", other),
    }
}

fn run_bool(code: &str, env: &mut Environment) -> bool {
    match run(code, env) {
        Ok(EvalResult::Literal(t)) => {
            assert_eq!(t.token_kind, TokenKind::Bool);
            match t.token.as_str() {
                "true" => true,
                "false" => false,
                other => panic!("{:?}", other),
            }
        }
        other => panic!("{:?}", other),
    }
}

#[test]
fn eval_add() {
    let code = eval_test("(+ 1 2)").unwrap();
    assert_eq!(code, 3)
}

#[test]
fn eval_nested_add() {
    let code = eval_test("(+ 1 (+ 1 2))").unwrap();
    assert_eq!(code, 4)
}

#[test]
fn eval_minus() {
    let code = eval_test("(- 1 2)").unwrap();
    assert_eq!(code, -1)
}

#[test]
fn eval_nested_minus() {
    let code = eval_test("(- 1 (- 1 2))").unwrap();
    assert_eq!(code, 2)
}

#[test]
fn eval_nested_mixed() {
    let code = eval_test("(+ 1 (- 1 2))").unwrap();
    assert_eq!(code, 0)
}

#[test]
fn eval_nested_mixed2() {
    let code = eval_test("(- 1 (+ 1 2))").unwrap();
    assert_eq!(code, -2)
}

#[test]
fn eval_function_call() {
    let function_def = r#"
        (defn add [x y] "adding lmao" (+ x y))
    "#
    .to_string();

    let mut env = Environment::new();
    run(&function_def, &mut env).unwrap();

    // check if add has been defined
    assert!(env.functions.contains_key("add"));

    // call add function
    let result = run(r#"(add 2 3)"#, &mut env);

    // Check the result
    match result {
        Ok(EvalResult::Literal(t)) => assert_eq!(t.token.parse::<i64>().unwrap(), 5),
        Err(e) => panic!("Expected integer result of 5: got {:?}", e),
        _ => panic!("Expected integer result of 5"),
    }
}

#[test]
fn add_function_definition() {
    let code = r#"(defn add [x y] "info" (+ x y))"#.to_string();
    let mut env = Environment::new();
    match run(&code, &mut env) {
        Ok(EvalResult::Void) => {}
        other => panic!("{:?}", other),
    }
    let fd = env.functions.get("add").unwrap();
    assert_eq!(fd.name.token, "add");
    let params: Vec<String> = fd.parameters.data.iter().map(|t| t.token.clone()).collect();
    assert_eq!(params, vec!["x".to_string(), "y".to_string()]);
    assert_eq!(fd.docstrings.token, "info");
    match &fd.body.data[0] {
        Node::FunctionCall(fc) => {
            assert_eq!(fc.name.token, "+");
            assert_eq!(fc.arguments.data.len(), 2);
        }
        other => panic!("{:?}", other),
    }
}

#[test]
fn function_call_arity_error() {
    let mut env = Environment::new();
    run(r#"(defn add [x y] "docs" (+ x y))"#, &mut env).unwrap();
    let result = run("(add 2)", &mut env);
    assert!(matches!(result, Err(EvalError::Parameter(_))));
}

#[test]
fn variable_definition_then_read() {
    let mut env = Environment::new();
    match run(r#"(setq v "hi")"#, &mut env) {
        Ok(EvalResult::Void) => {}
        other => panic!("{:?}", other),
    }
    match run("v", &mut env) {
        Ok(EvalResult::Literal(t)) => {
            assert_eq!(t.token_kind, TokenKind::StringLiteral);
            assert_eq!(t.token, "hi");
        }
        other => panic!("{:?}", other),
    }
}

#[test]
fn undefined_variable_error() {
    let mut env = Environment::new();
    assert!(matches!(run("w", &mut env), Err(EvalError::Variable(_))));
}

#[test]
fn unknown_callee_error() {
    let mut env = Environment::new();
    assert!(matches!(run("(foo 1)", &mut env), Err(EvalError::SymbolError(_))));
}

#[test]
fn non_integer_operand_error() {
    let mut env = Environment::new();
    assert!(matches!(run(r#"(+ "x" 1)"#, &mut env), Err(EvalError::Integer(_))));
}

#[test]
fn division_by_zero_error() {
    let mut env = Environment::new();
    assert!(matches!(run("(/ 1 0)", &mut env), Err(EvalError::DivisionByZero(_))));
}

#[test]
fn overflow_error() {
    let mut env = Environment::new();
    assert!(matches!(
        run("(+ 9223372036854775807 1)", &mut env),
        Err(EvalError::Overflow(_))
    ));
}

#[test]
fn comparison_needs_two_operands() {
    let mut env = Environment::new();
    assert!(matches!(run("(= 1)", &mut env), Err(EvalError::Operands(_))));
}

#[test]
fn too_deep_recursion_error() {
    let mut env = Environment::new();
    run(r#"(defn f [] "docs" (f))"#, &mut env).unwrap();
    assert!(matches!(run("(f)", &mut env), Err(EvalError::Depth(_))));
}

#[test]
fn division_truncates_toward_zero() {
    let mut env = Environment::new();
    assert_eq!(run_int("(/ 7 2)", &mut env), 3);
    assert_eq!(run_int("(/ -7 2)", &mut env), -3);
}

#[test]
fn multiplication_folds_left() {
    let mut env = Environment::new();
    assert_eq!(run_int("(* 2 3 4)", &mut env), 24);
}

#[test]
fn comparisons() {
    let mut env = Environment::new();
    assert!(run_bool("(> 5 3)", &mut env));
    assert!(!run_bool("(> 3 5)", &mut env));
    assert!(run_bool("(< 1 2)", &mut env));
    assert!(run_bool("(>= 2 2)", &mut env));
    assert!(run_bool("(<= 2 2)", &mut env));
    assert!(run_bool("(= 4 4)", &mut env));
    assert!(!run_bool("(= 4 5)", &mut env));
}

#[test]
fn equality_chains_through_the_running_value() {
    // the running value becomes the outcome of each pairwise comparison,
    // so a three-way equality of fives compares one against five at the end
    let mut env = Environment::new();
    assert!(!run_bool("(= 5 5 5)", &mut env));
    assert!(run_bool("(= 1 1 1)", &mut env));
}

#[test]
fn list_evaluates_elements_in_order() {
    let mut env = Environment::new();
    match run("[1 2 3]", &mut env) {
        Ok(EvalResult::List(items)) => {
            let texts: Vec<String> = items
                .iter()
                .map(|r| match r {
                    EvalResult::Literal(t) => t.token.clone(),
                    other => panic!("{:?}", other),
                })
                .collect();
            assert_eq!(texts, vec!["1", "2", "3"]);
        }
        other => panic!("{:?}", other),
    }
}

#[test]
fn conditional_takes_one_branch() {
    let ns = "test".to_string();
    let node = Node::Conditional(Conditional {
        condition: Box::new(Node::Literal(Token::new("true", TokenKind::Bool, 0, 0, 4, &ns))),
        true_expression: Box::new(Node::Literal(Token::new("1", TokenKind::Integer, 0, 0, 1, &ns))),
        false_expression: Box::new(Node::Literal(Token::new("2", TokenKind::Integer, 0, 0, 1, &ns))),
    });
    let mut env = Environment::new();
    match evaluate(&node, &mut env) {
        Ok(EvalResult::Literal(t)) => assert_eq!(t.token, "1"),
        other => panic!("{:?}", other),
    }
}

#[test]
fn conditional_needs_a_boolean() {
    let ns = "test".to_string();
    let node = Node::Conditional(Conditional {
        condition: Box::new(Node::Literal(Token::new("7", TokenKind::Integer, 0, 0, 1, &ns))),
        true_expression: Box::new(Node::Literal(Token::new("1", TokenKind::Integer, 0, 0, 1, &ns))),
        false_expression: Box::new(Node::Literal(Token::new("2", TokenKind::Integer, 0, 0, 1, &ns))),
    });
    let mut env = Environment::new();
    assert!(matches!(evaluate(&node, &mut env), Err(EvalError::Condition(_))));
}

#[test]
fn documentation_node_is_unsupported() {
    let ns = "test".to_string();
    let node = Node::Documentation(Documentation {
        commentary: Token::new("note", TokenKind::Comment, 0, 0, 4, &ns),
        code: None,
    });
    let mut env = Environment::new();
    assert!(matches!(evaluate(&node, &mut env), Err(EvalError::Node(_))));
}

#[test]
fn pure_expression_leaves_environment_unchanged() {
    let mut env = Environment::new();
    run(r#"(defn add [x y] "docs" (+ x y))"#, &mut env).unwrap();
    let first = run_int("(+ 1 2)", &mut env);
    let second = run_int("(+ 1 2)", &mut env);
    assert_eq!(first, 3);
    assert_eq!(second, 3);
    assert!(env.functions.contains_key("add"));
    assert_eq!(env.variables.data.len(), 0);
}

#[test]
fn call_local_bindings_do_not_leak() {
    let mut env = Environment::new();
    run(r#"(defn add [x y] "docs" (+ x y))"#, &mut env).unwrap();
    assert_eq!(run_int("(add 2 3)", &mut env), 5);
    // the parameters were bound only inside the call
    assert!(matches!(run("x", &mut env), Err(EvalError::Variable(_))));
    assert!(matches!(run("y", &mut env), Err(EvalError::Variable(_))));
}
