//! Batch evaluation: one source text is scanned, parsed as one top-level
//! form, and evaluated against a persistent environment. Reading files and
//! printing results stay with the caller; this module does the computing.

use vstd::prelude::*;

use crate::env::{Environment, EnvironmentV};
use crate::error::{EvalError, EvalErrorV, LexerError, LexerErrorV, ParseError, ParseErrorV};
use crate::eval::{default_fuel, evaluate, spec_eval, EvalResult, EvalResultV};
use crate::lexer::{spec_tokenise, tokenise};
use crate::parser::{parse, spec_parse};

verus! {

/// Everything that can go wrong between source text and result: a lexical
/// error, a parse error, or an evaluation error.
#[derive(Debug)]
pub enum RunError {
    Lex(LexerError),
    Parse(ParseError),
    Eval(EvalError),
}

/// Mathematical model of a run error.
pub enum RunErrorV {
    Lex(LexerErrorV),
    Parse(ParseErrorV),
    Eval(EvalErrorV),
}

impl View for RunError {
    type V = RunErrorV;

    open spec fn view(&self) -> RunErrorV {
        match self {
            RunError::Lex(e) => RunErrorV::Lex(e@),
            RunError::Parse(e) => RunErrorV::Parse(e@),
            RunError::Eval(e) => RunErrorV::Eval(e@),
        }
    }
}

/// What running one source text against an environment yields, and the
/// environment it leaves behind: scan, parse one form, evaluate. A lexical
/// or parse error leaves the environment untouched.
pub open spec fn spec_run_source(src: Seq<char>, ns: Seq<char>, env: EnvironmentV) -> (Result<
    EvalResultV,
    RunErrorV,
>, EnvironmentV) {
    match spec_tokenise(src, ns) {
        Err(e) => (Err(RunErrorV::Lex(e)), env),
        Ok(ts) => match spec_parse(ts) {
            Err(e) => (Err(RunErrorV::Parse(e)), env),
            Ok(n) => {
                let (r, e2) = spec_eval(n, env, default_fuel());
                match r {
                    Ok(v) => (Ok(v), e2),
                    Err(er) => (Err(RunErrorV::Eval(er)), e2),
                }
            },
        },
    }
}

/// Scans, parses and evaluates one source text against the environment,
/// exactly as `spec_run_source` says.
pub fn run_source(env: &mut Environment, code: &String, namespace: &String) -> (r: Result<
    EvalResult,
    RunError,
>)
    ensures
        ({
            let (sr, se) = spec_run_source(code@, namespace@, old(env)@);
            &&& final(env)@ == se
            &&& match r {
                Ok(v) => sr == Ok::<EvalResultV, RunErrorV>(v@),
                Err(e) => sr == Err::<EvalResultV, RunErrorV>(e@),
            }
        }),
{
    let mut tokens = match tokenise(code, namespace) {
        Ok(t) => t,
        Err(e) => {
            return Err(RunError::Lex(e));
        },
    };
    let node = match parse(&mut tokens) {
        Ok(n) => n,
        Err(e) => {
            return Err(RunError::Parse(e));
        },
    };
    match evaluate(&node, env) {
        Ok(v) => Ok(v),
        Err(e) => Err(RunError::Eval(e)),
    }
}

/// A file-mode run: one environment that lives for the whole run.
#[derive(Debug)]
pub struct Program {
    pub state: Environment,
}

impl Program {
    /// Starts a run with an empty environment.
    pub fn new() -> (r: Self)
        ensures
            r.state@.functions == Map::<Seq<char>, crate::ast::FunctionDefinitionV>::empty(),
            r.state@.variables == Map::<Seq<char>, crate::ast::VariableDefinitionV>::empty(),
    {
        Program { state: Environment::new() }
    }

    /// Runs one source text against the program's environment.
    pub fn run_source(&mut self, code: &String, namespace: &String) -> (r: Result<
        EvalResult,
        RunError,
    >)
        ensures
            ({
                let (sr, se) = spec_run_source(code@, namespace@, old(self).state@);
                &&& final(self).state@ == se
                &&& match r {
                    Ok(v) => sr == Ok::<EvalResultV, RunErrorV>(v@),
                    Err(e) => sr == Err::<EvalResultV, RunErrorV>(e@),
                }
            }),
    {
        run_source(&mut self.state, code, namespace)
    }
}

} // verus!
