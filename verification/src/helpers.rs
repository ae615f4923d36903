//! A small harness around the pipeline: scans, parses and evaluates one
//! source text in a fresh environment and extracts an integer result.

use vstd::prelude::*;

use crate::env::{Environment, EnvironmentV};
use crate::eval::{as_int, default_fuel, evaluate, spec_eval, EvalResult};
use crate::lexer::{spec_tokenise, tokenise};
use crate::number::parse_i64;
use crate::parser::{parse, spec_parse};
use crate::token::TokenKind;

verus! {

/// The integer that scanning, parsing and evaluating a source text in a
/// fresh environment yields, if the pipeline succeeds and the result is an
/// integer literal.
pub open spec fn spec_eval_source(src: Seq<char>) -> Option<i64> {
    match spec_tokenise(src, Seq::empty()) {
        Err(_) => None,
        Ok(ts) => match spec_parse(ts) {
            Err(_) => None,
            Ok(n) => {
                let env = EnvironmentV { functions: Map::empty(), variables: Map::empty() };
                let (r, _) = spec_eval(n, env, default_fuel());
                match r {
                    Ok(v) => as_int(v),
                    Err(_) => None,
                }
            },
        },
    }
}

/// Evaluates one source text in a fresh environment and yields its integer
/// result: `Ok` exactly when `spec_eval_source` names an integer.
pub fn eval_test(code: &str) -> (r: Result<i64, String>)
    ensures
        match r {
            Ok(v) => spec_eval_source(code@) == Some(v),
            Err(_) => spec_eval_source(code@) == None::<i64>,
        },
{
    let src = code.to_owned();
    let ns = String::new();
    let mut tokens = match tokenise(&src, &ns) {
        Ok(t) => t,
        Err(_) => {
            return Err("failed to scan the source text".to_owned());
        },
    };
    let node = match parse(&mut tokens) {
        Ok(n) => n,
        Err(_) => {
            return Err("failed to parse the source text".to_owned());
        },
    };
    let mut env = Environment::new();
    proof {
        assert(env@ =~= (EnvironmentV { functions: Map::empty(), variables: Map::empty() }));
    }
    let res = match evaluate(&node, &mut env) {
        Ok(v) => v,
        Err(_) => {
            return Err("failed to evaluate the expression".to_owned());
        },
    };
    match res {
        EvalResult::Literal(t) => {
            let is_int = match t.token_kind {
                TokenKind::Integer => true,
                _ => false,
            };
            if is_int {
                match parse_i64(t.token.as_str()) {
                    Some(v) => Ok(v),
                    None => Err("expected an integer result".to_owned()),
                }
            } else {
                Err("expected an integer result".to_owned())
            }
        },
        _ => Err("expected an integer result".to_owned()),
    }
}

} // verus!
