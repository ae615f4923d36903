use flop::ast::{FunctionDefinition, VariableDefinition, Node};
use flop::env::NameMap;
use flop::eval::EvalResult;
use flop::file::{Program, RunError};
use flop::helpers::eval_test;
use flop::number::{parse_i64, render_i64};
use flop::repl::{is_exit, Repl};
use flop::stack::Stack;
use flop::token::{str_eq, Token, TokenKind};

#[test]
fn parse_i64_accepts_plain_literals() {
    assert_eq!(parse_i64("0"), Some(0));
    assert_eq!(parse_i64("42"), Some(42));
    assert_eq!(parse_i64("-42"), Some(-42));
    assert_eq!(parse_i64("+42"), Some(42));
    assert_eq!(parse_i64("007"), Some(7));
    assert_eq!(parse_i64("-0"), Some(0));
}

#[test]
fn parse_i64_rejects_non_literals() {
    assert_eq!(parse_i64(""), None);
    assert_eq!(parse_i64("-"), None);
    assert_eq!(parse_i64("+"), None);
    assert_eq!(parse_i64("12a"), None);
    assert_eq!(parse_i64("1 2"), None);
    assert_eq!(parse_i64("--1"), None);
}

#[test]
fn parse_i64_bounds() {
    assert_eq!(parse_i64("9223372036854775807"), Some(i64::MAX));
    assert_eq!(parse_i64("-9223372036854775808"), Some(i64::MIN));
    assert_eq!(parse_i64("9223372036854775808"), None);
    assert_eq!(parse_i64("-9223372036854775809"), None);
}

#[test]
fn render_i64_round_trips() {
    for v in [0i64, 1, -1, 7, -7, 42, 100, -100, i64::MAX, i64::MIN] {
        let text = render_i64(v);
        assert_eq!(parse_i64(&text), Some(v));
        assert_eq!(text, v.to_string());
    }
}

#[test]
fn stack_pushes_and_pops_both_ends() {
    let mut s: Stack<i64> = Stack::new();
    assert!(s.is_empty());
    s.push(1);
    s.push(2);
    s.push(3);
    assert_eq!(s.last(), Some(&3));
    assert_eq!(s.pop(), Some(3));
    assert_eq!(s.pop_front(), Some(1));
    assert_eq!(s.pop_front(), Some(2));
    assert_eq!(s.pop_front(), None);
    assert!(s.is_empty());
}

#[test]
fn name_map_last_write_wins() {
    let ns = "test".to_string();
    let mut m: NameMap<VariableDefinition> = NameMap::new();
    let make = |text: &str| VariableDefinition {
        name: Token::new("v", TokenKind::Symbol, 0, 0, 1, &ns),
        assignment: Box::new(Node::Literal(Token::new(
            text,
            TokenKind::Integer,
            0,
            0,
            1,
            &ns,
        ))),
    };
    m.insert("v".to_string(), make("1"));
    m.insert("v".to_string(), make("2"));
    assert!(m.contains_key("v"));
    assert!(!m.contains_key("w"));
    match &*m.get("v").unwrap().assignment {
        Node::Literal(t) => assert_eq!(t.token, "2"),
        other => panic!("{:?}", other),
    }
}

#[test]
fn str_eq_compares_content() {
    assert!(str_eq("abc", "abc"));
    assert!(!str_eq("abc", "abd"));
    assert!(!str_eq("abc", "ab"));
    assert!(str_eq("", ""));
}

#[test]
fn is_exit_recognises_the_sentinel() {
    assert!(is_exit("exit"));
    assert!(is_exit("quit"));
    assert!(is_exit("  exit  "));
    assert!(is_exit("\tquit\n"));
    assert!(!is_exit("exit now"));
    assert!(!is_exit(""));
    assert!(!is_exit("(+ 1 2)"));
}

#[test]
fn repl_keeps_state_across_lines() {
    let ns = "repl".to_string();
    let mut repl = Repl::new();
    let r1 = repl.eval_line(&r#"(setq v "hi")"#.to_string(), &ns).unwrap();
    assert!(matches!(r1, Some(EvalResult::Void)));
    match repl.eval_line(&"v".to_string(), &ns).unwrap() {
        Some(EvalResult::Literal(t)) => assert_eq!(t.token, "hi"),
        other => panic!("{:?}", other),
    }
    assert!(repl.eval_line(&"exit".to_string(), &ns).unwrap().is_none());
}

#[test]
fn program_runs_one_form() {
    let ns = "file".to_string();
    let mut program = Program::new();
    match program.run_source(&"(+ 20 22)".to_string(), &ns) {
        Ok(EvalResult::Literal(t)) => {
            assert_eq!(t.token_kind, TokenKind::Integer);
            assert_eq!(t.token, "42");
        }
        other => panic!("{:?}", other),
    }
}

#[test]
fn program_reports_each_stage() {
    let ns = "file".to_string();
    let mut program = Program::new();
    assert!(matches!(
        program.run_source(&r#""text" first"#.to_string(), &ns),
        Err(RunError::Lex(_))
    ));
    assert!(matches!(
        program.run_source(&"(+ 1".to_string(), &ns),
        Err(RunError::Parse(_))
    ));
    assert!(matches!(
        program.run_source(&"(foo 1)".to_string(), &ns),
        Err(RunError::Eval(_))
    ));
}

#[test]
fn eval_test_reports_non_integer_results() {
    assert!(eval_test(r#"(setq v "hi")"#).is_err());
    assert!(eval_test("(+ 1").is_err());
    assert_eq!(eval_test("(* 6 7)").unwrap(), 42);
}

#[test]
fn clones_are_deep() {
    let ns = "test".to_string();
    let token = Token::new("x", TokenKind::Symbol, 1, 2, 1, &ns);
    let copy = token.clone();
    assert_eq!(copy.token, token.token);
    assert_eq!(copy.token_kind, token.token_kind);
    assert_eq!(copy.row, token.row);
    let fd = FunctionDefinition {
        name: Token::new("f", TokenKind::Symbol, 0, 0, 1, &ns),
        parameters: Stack { data: vec![token] },
        docstrings: Token::new("d", TokenKind::DocString, 0, 0, 1, &ns),
        body: Stack { data: vec![Node::Literal(Token::new("1", TokenKind::Integer, 0, 0, 1, &ns))] },
    };
    let fd2 = fd.clone();
    assert_eq!(fd2.name.token, "f");
    assert_eq!(fd2.parameters.data.len(), 1);
    match &fd2.body.data[0] {
        Node::Literal(t) => assert_eq!(t.token, "1"),
        other => panic!("{:?}", other),
    }
}
