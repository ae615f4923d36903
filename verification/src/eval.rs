//! The evaluator: walks one expression-tree node against a mutable binding
//! environment and yields a result value or a structured error. Definitions
//! mutate the environment; built-in operations fold their operands left to
//! right; a user-function call runs its body in a call-local environment
//! (the caller's function table, empty variables) that is discarded when the
//! call returns. Nesting of calls and of variable resolutions is followed to
//! a fixed depth and reported as an error beyond it.

use vstd::prelude::*;

use crate::ast::{
    lemma_node_views, node_view, node_views, Conditional, FunctionCall, FunctionDefinition, Node,
    NodeV, VariableDefinition, VariableDefinitionV,
};
use crate::env::{dup_functions, Environment, EnvironmentV, NameMap};
use crate::error::{EvalError, EvalErrorV};
use crate::number::{is_i64_literal, literal_val, parse_i64, render_i64, spec_render_i64};
use crate::operation::{is_arith, spec_apply, spec_op_of, Operation};
use crate::stack::Stack;
use crate::token::{token_views, Token, TokenKind, TokenV};
use vstd::string::StrSliceExecFns;

verus! {

broadcast use crate::token::lemma_token_views_len, crate::token::lemma_token_views_index, crate::ast::lemma_node_views;

/// How deeply calls and variable resolutions may nest.
pub const CALL_DEPTH: u64 = 64;

/// The model of the default depth.
pub open spec fn default_fuel() -> nat {
    64
}

/// A value an evaluation yields: nothing, one literal token, or a list of
/// values.
#[derive(Debug)]
pub enum EvalResult {
    Void,
    Literal(Token),
    List(Vec<EvalResult>),
}

/// Mathematical model of an evaluation result.
#[verifier::ext_equal]
pub enum EvalResultV {
    Void,
    Literal(TokenV),
    List(Seq<EvalResultV>),
}

/// The model of one result.
pub open spec fn eval_result_view(r: &EvalResult) -> EvalResultV
    decreases r,
{
    match r {
        EvalResult::Void => EvalResultV::Void,
        EvalResult::Literal(t) => EvalResultV::Literal(t@),
        EvalResult::List(l) => EvalResultV::List(eval_result_views(l@)),
    }
}

/// The models of a sequence of results, in order.
pub open spec fn eval_result_views(s: Seq<EvalResult>) -> Seq<EvalResultV>
    decreases s,
{
    if s.len() == 0 {
        Seq::empty()
    } else {
        seq![eval_result_view(&s[0])] + eval_result_views(s.drop_first())
    }
}

/// `eval_result_views` maps the model of each element in place.
pub broadcast proof fn lemma_eval_result_views(s: Seq<EvalResult>)
    ensures
        (#[trigger] eval_result_views(s)).len() == s.len(),
        forall|i: int| 0 <= i < s.len() ==> eval_result_views(s)[i] == eval_result_view(&s[i]),
    decreases s.len(),
{
    if s.len() > 0 {
        lemma_eval_result_views(s.drop_first());
    }
}

impl View for EvalResult {
    type V = EvalResultV;

    open spec fn view(&self) -> EvalResultV {
        eval_result_view(self)
    }
}

/// The integer a result stands for: a literal token of integer kind whose
/// text is an integer literal.
pub open spec fn as_int(r: EvalResultV) -> Option<i64> {
    match r {
        EvalResultV::Literal(t) => if t.token_kind == TokenKind::Integer && is_i64_literal(
            t.token,
        ) {
            Some(literal_val(t.token) as i64)
        } else {
            None
        },
        _ => None,
    }
}

/// The boolean a result stands for: a literal token of boolean kind reading
/// `true` or `false`.
pub open spec fn as_bool(r: EvalResultV) -> Option<bool> {
    match r {
        EvalResultV::Literal(t) => if t.token_kind == TokenKind::Bool && t.token == "true"@ {
            Some(true)
        } else if t.token_kind == TokenKind::Bool && t.token == "false"@ {
            Some(false)
        } else {
            None
        },
        _ => None,
    }
}

/// The token to blame in a diagnostic about a result: its literal token, or
/// an empty error token for a result that carries none.
pub open spec fn blame_token(r: EvalResultV) -> TokenV {
    match r {
        EvalResultV::Literal(t) => t,
        _ => TokenV {
            token: Seq::empty(),
            token_kind: TokenKind::Error,
            row: 0,
            offset: 0,
            length: 0,
            namespace: Seq::empty(),
        },
    }
}

/// The token an arithmetic outcome is printed into.
pub open spec fn int_token(v: i64, ns: Seq<char>) -> TokenV {
    TokenV {
        token: spec_render_i64(v as int),
        token_kind: TokenKind::Integer,
        row: 1,
        offset: 1,
        length: spec_render_i64(v as int).len(),
        namespace: ns,
    }
}

/// The token a comparison outcome is printed into.
pub open spec fn bool_token(b: bool, ns: Seq<char>) -> TokenV {
    let text = if b {
        "true"@
    } else {
        "false"@
    };
    TokenV {
        token: text,
        token_kind: TokenKind::Bool,
        row: 1,
        offset: 1,
        length: text.len(),
        namespace: ns,
    }
}

/// One step of a built-in operation, with its failures named: a zero divisor
/// and a result out of range.
pub open spec fn spec_apply_checked(op: Operation, a: i64, b: i64, blame: TokenV) -> Result<
    i64,
    EvalErrorV,
> {
    if op == Operation::Divide && b == 0 {
        Err(EvalErrorV::DivisionByZero(blame))
    } else {
        match spec_apply(op, a, b) {
            Some(c) => Ok(c),
            None => Err(EvalErrorV::Overflow(blame)),
        }
    }
}

/// The variable bindings of a call-local environment: each parameter name
/// bound to its unevaluated argument; a repeated name keeps the last pair.
pub open spec fn bind_params(ps: Seq<TokenV>, args: Seq<NodeV>) -> Map<Seq<char>, VariableDefinitionV>
    decreases ps.len(),
{
    if ps.len() == 0 {
        Map::empty()
    } else {
        bind_params(ps.drop_last(), args.drop_last()).insert(
            ps.last().token,
            VariableDefinitionV { name: ps.last(), assignment: Box::new(args.last()) },
        )
    }
}

/// What evaluating one node against an environment yields, and the
/// environment it leaves behind. `fuel` bounds how deeply user-function
/// calls and variable resolutions nest; all other recursion is over the tree
/// itself.
pub open spec fn spec_eval(n: NodeV, env: EnvironmentV, fuel: nat) -> (Result<
    EvalResultV,
    EvalErrorV,
>, EnvironmentV)
    decreases fuel, n, 2int,
{
    match n {
        NodeV::Literal(t) => (Ok(EvalResultV::Literal(t)), env),
        NodeV::VariableCall(vc) => {
            if env.variables.contains_key(vc.name.token) {
                if fuel == 0 {
                    (Err(EvalErrorV::Depth(vc.name)), env)
                } else {
                    (
                        spec_eval(
                            *env.variables[vc.name.token].assignment,
                            env,
                            (fuel - 1) as nat,
                        ).0,
                        env,
                    )
                }
            } else {
                (Err(EvalErrorV::Variable(vc.name)), env)
            }
        },
        NodeV::VariableDefinition(vd) => (
            Ok(EvalResultV::Void),
            EnvironmentV {
                functions: env.functions,
                variables: env.variables.insert(vd.name.token, vd),
            },
        ),
        NodeV::FunctionDefinition(fd) => (
            Ok(EvalResultV::Void),
            EnvironmentV {
                functions: env.functions.insert(fd.name.token, fd),
                variables: env.variables,
            },
        ),
        NodeV::List(l) => {
            let (r, e) = spec_eval_seq(l.data, env, fuel);
            match r {
                Ok(vs) => (Ok(EvalResultV::List(vs)), e),
                Err(er) => (Err(er), e),
            }
        },
        NodeV::Conditional(c) => {
            let (r, e) = spec_eval(*c.condition, env, fuel);
            match r {
                Err(er) => (Err(er), e),
                Ok(v) => match as_bool(v) {
                    Some(true) => spec_eval(*c.true_expression, e, fuel),
                    Some(false) => spec_eval(*c.false_expression, e, fuel),
                    None => (Err(EvalErrorV::Condition(blame_token(v))), e),
                },
            }
        },
        NodeV::Documentation(d) => (Err(EvalErrorV::Node(d.commentary)), env),
        NodeV::FunctionCall(fc) => {
            match spec_op_of(fc.name.token) {
                Some(op) => {
                    if is_arith(op) {
                        if fc.arguments.len() < 1 {
                            (Err(EvalErrorV::Operands(fc.name)), env)
                        } else {
                            let (r0, e0) = spec_eval(fc.arguments[0], env, fuel);
                            match r0 {
                                Err(er) => (Err(er), e0),
                                Ok(v0) => match as_int(v0) {
                                    None => (Err(EvalErrorV::Integer(fc.name)), e0),
                                    Some(a) => {
                                        let (r1, e1) = spec_eval_arith(
                                            op,
                                            fc.arguments.subrange(1, fc.arguments.len() as int),
                                            a,
                                            fc.name,
                                            e0,
                                            fuel,
                                        );
                                        match r1 {
                                            Ok(c) => (
                                                Ok(
                                                    EvalResultV::Literal(
                                                        int_token(c, fc.name.namespace),
                                                    ),
                                                ),
                                                e1,
                                            ),
                                            Err(er) => (Err(er), e1),
                                        }
                                    },
                                },
                            }
                        }
                    } else {
                        if fc.arguments.len() < 2 {
                            (Err(EvalErrorV::Operands(fc.name)), env)
                        } else {
                            let (r0, e0) = spec_eval(fc.arguments[0], env, fuel);
                            match r0 {
                                Err(er) => (Err(er), e0),
                                Ok(v0) => match as_int(v0) {
                                    None => (Err(EvalErrorV::Integer(fc.name)), e0),
                                    Some(a) => {
                                        let (r1, e1) = spec_eval_cmp(
                                            op,
                                            fc.arguments.subrange(1, fc.arguments.len() as int),
                                            a,
                                            fc.name,
                                            e0,
                                            fuel,
                                        );
                                        match r1 {
                                            Ok(c) => (
                                                Ok(
                                                    EvalResultV::Literal(
                                                        bool_token(c != 0, fc.name.namespace),
                                                    ),
                                                ),
                                                e1,
                                            ),
                                            Err(er) => (Err(er), e1),
                                        }
                                    },
                                },
                            }
                        }
                    }
                },
                None => {
                    if env.functions.contains_key(fc.name.token) {
                        let fd = env.functions[fc.name.token];
                        if fc.arguments.len() != fd.parameters.len() {
                            (Err(EvalErrorV::Parameter(fc.name)), env)
                        } else if fuel == 0 {
                            (Err(EvalErrorV::Depth(fc.name)), env)
                        } else if fd.body.len() == 0 {
                            (Ok(EvalResultV::Void), env)
                        } else {
                            let local = EnvironmentV {
                                functions: env.functions,
                                variables: bind_params(fd.parameters, fc.arguments),
                            };
                            (spec_eval(fd.body[0], local, (fuel - 1) as nat).0, env)
                        }
                    } else {
                        (Err(EvalErrorV::SymbolError(fc.name)), env)
                    }
                },
            }
        },
    }
}

/// What evaluating a sequence of nodes in order against one threaded
/// environment yields.
pub open spec fn spec_eval_seq(items: Seq<NodeV>, env: EnvironmentV, fuel: nat) -> (Result<
    Seq<EvalResultV>,
    EvalErrorV,
>, EnvironmentV)
    decreases fuel, items, 1int,
{
    if items.len() == 0 {
        (Ok(Seq::empty()), env)
    } else {
        let (r0, e0) = spec_eval(items[0], env, fuel);
        match r0 {
            Err(er) => (Err(er), e0),
            Ok(v) => {
                let (r1, e1) = spec_eval_seq(items.drop_first(), e0, fuel);
                match r1 {
                    Ok(vs) => (Ok(seq![v] + vs), e1),
                    Err(er) => (Err(er), e1),
                }
            },
        }
    }
}

/// What folding an arithmetic operation over operand nodes yields, starting
/// from the accumulated value: each operand is evaluated in order against
/// the threaded environment and must be an integer.
pub open spec fn spec_eval_arith(
    op: Operation,
    args: Seq<NodeV>,
    acc: i64,
    blame: TokenV,
    env: EnvironmentV,
    fuel: nat,
) -> (Result<i64, EvalErrorV>, EnvironmentV)
    decreases fuel, args, 1int,
{
    if args.len() == 0 {
        (Ok(acc), env)
    } else {
        let (r0, e0) = spec_eval(args[0], env, fuel);
        match r0 {
            Err(er) => (Err(er), e0),
            Ok(v) => match as_int(v) {
                None => (Err(EvalErrorV::Integer(blame)), e0),
                Some(b) => match spec_apply_checked(op, acc, b, blame) {
                    Err(er) => (Err(er), e0),
                    Ok(c) => spec_eval_arith(op, args.drop_first(), c, blame, e0, fuel),
                },
            },
        }
    }
}

/// What chaining a comparison over operand nodes yields: the running value
/// becomes the comparison outcome (one or zero), and every operation but
/// equality stops at zero without evaluating the rest.
pub open spec fn spec_eval_cmp(
    op: Operation,
    args: Seq<NodeV>,
    acc: i64,
    blame: TokenV,
    env: EnvironmentV,
    fuel: nat,
) -> (Result<i64, EvalErrorV>, EnvironmentV)
    decreases fuel, args, 1int,
{
    if args.len() == 0 {
        (Ok(acc), env)
    } else {
        let (r0, e0) = spec_eval(args[0], env, fuel);
        match r0 {
            Err(er) => (Err(er), e0),
            Ok(v) => match as_int(v) {
                None => (Err(EvalErrorV::Integer(blame)), e0),
                Some(b) => match spec_apply_checked(op, acc, b, blame) {
                    Err(er) => (Err(er), e0),
                    Ok(c) => if op != Operation::Equal && c == 0 {
                        (Ok(0), e0)
                    } else {
                        spec_eval_cmp(op, args.drop_first(), c, blame, e0, fuel)
                    },
                },
            },
        }
    }
}

/// A pure expression: one whose evaluation binds nothing — no variable or
/// function definition stands anywhere in the tree where evaluation threads
/// the caller's environment through it.
pub open spec fn is_pure(n: NodeV) -> bool
    decreases n,
{
    match n {
        NodeV::Literal(_) => true,
        NodeV::VariableCall(_) => true,
        NodeV::VariableDefinition(_) => false,
        NodeV::FunctionDefinition(_) => false,
        NodeV::FunctionCall(fc) => is_pure_seq(fc.arguments),
        NodeV::List(l) => is_pure_seq(l.data),
        NodeV::Conditional(c) => is_pure(*c.condition) && is_pure(*c.true_expression) && is_pure(
            *c.false_expression,
        ),
        NodeV::Documentation(_) => true,
    }
}

/// Every node of the sequence is pure.
pub open spec fn is_pure_seq(s: Seq<NodeV>) -> bool
    decreases s,
{
    if s.len() == 0 {
        true
    } else {
        is_pure(s[0]) && is_pure_seq(s.drop_first())
    }
}

proof fn lemma_pure_seq_index(s: Seq<NodeV>, i: int)
    requires
        is_pure_seq(s),
        0 <= i < s.len(),
    ensures
        is_pure(s[i]),
        is_pure_seq(s.skip(i)),
    decreases i,
{
    if i > 0 {
        assert(s.drop_first().skip(i - 1) =~= s.skip(i));
        lemma_pure_seq_index(s.drop_first(), i - 1);
    } else {
        assert(s.skip(0) =~= s);
    }
}

/// Evaluating a pure expression leaves the environment exactly as it was:
/// neither the function table nor the variable table changes.
pub proof fn lemma_pure_eval_preserves_env(n: NodeV, env: EnvironmentV, fuel: nat)
    requires
        is_pure(n),
    ensures
        spec_eval(n, env, fuel).1 == env,
    decreases fuel, n, 2int,
{
    match n {
        NodeV::FunctionCall(fc) => {
            match spec_op_of(fc.name.token) {
                Some(op) => {
                    if fc.arguments.len() >= 1 {
                        assert(is_pure_seq(fc.arguments));
                        assert(is_pure(fc.arguments[0]));
                        lemma_pure_eval_preserves_env(fc.arguments[0], env, fuel);
                        let (r0, e0) = spec_eval(fc.arguments[0], env, fuel);
                        let rest = fc.arguments.subrange(1, fc.arguments.len() as int);
                        assert(fc.arguments.drop_first() =~= rest);
                        assert(is_pure_seq(rest));
                        match r0 {
                            Ok(v0) => match as_int(v0) {
                                Some(a) => {
                                    lemma_pure_arith_preserves_env(op, rest, a, fc.name, e0, fuel);
                                    lemma_pure_cmp_preserves_env(op, rest, a, fc.name, e0, fuel);
                                },
                                None => {},
                            },
                            Err(_) => {},
                        }
                    }
                },
                None => {},
            }
        },
        NodeV::List(l) => {
            lemma_pure_seq_preserves_env(l.data, env, fuel);
        },
        NodeV::Conditional(c) => {
            lemma_pure_eval_preserves_env(*c.condition, env, fuel);
            let (r, e) = spec_eval(*c.condition, env, fuel);
            match r {
                Ok(v) => match as_bool(v) {
                    Some(true) => lemma_pure_eval_preserves_env(*c.true_expression, e, fuel),
                    Some(false) => lemma_pure_eval_preserves_env(*c.false_expression, e, fuel),
                    None => {},
                },
                Err(_) => {},
            }
        },
        _ => {},
    }
}

proof fn lemma_pure_seq_preserves_env(items: Seq<NodeV>, env: EnvironmentV, fuel: nat)
    requires
        is_pure_seq(items),
    ensures
        spec_eval_seq(items, env, fuel).1 == env,
    decreases fuel, items, 1int,
{
    if items.len() > 0 {
        lemma_pure_eval_preserves_env(items[0], env, fuel);
        let (r0, e0) = spec_eval(items[0], env, fuel);
        match r0 {
            Ok(_) => {
                lemma_pure_seq_preserves_env(items.drop_first(), e0, fuel);
            },
            Err(_) => {},
        }
    }
}

proof fn lemma_pure_arith_preserves_env(
    op: Operation,
    args: Seq<NodeV>,
    acc: i64,
    blame: TokenV,
    env: EnvironmentV,
    fuel: nat,
)
    requires
        is_pure_seq(args),
    ensures
        spec_eval_arith(op, args, acc, blame, env, fuel).1 == env,
    decreases fuel, args, 1int,
{
    if args.len() > 0 {
        lemma_pure_eval_preserves_env(args[0], env, fuel);
        let (r0, e0) = spec_eval(args[0], env, fuel);
        match r0 {
            Ok(v) => match as_int(v) {
                Some(b) => match spec_apply_checked(op, acc, b, blame) {
                    Ok(c) => {
                        lemma_pure_arith_preserves_env(op, args.drop_first(), c, blame, e0, fuel);
                    },
                    Err(_) => {},
                },
                None => {},
            },
            Err(_) => {},
        }
    }
}

proof fn lemma_pure_cmp_preserves_env(
    op: Operation,
    args: Seq<NodeV>,
    acc: i64,
    blame: TokenV,
    env: EnvironmentV,
    fuel: nat,
)
    requires
        is_pure_seq(args),
    ensures
        spec_eval_cmp(op, args, acc, blame, env, fuel).1 == env,
    decreases fuel, args, 1int,
{
    if args.len() > 0 {
        lemma_pure_eval_preserves_env(args[0], env, fuel);
        let (r0, e0) = spec_eval(args[0], env, fuel);
        match r0 {
            Ok(v) => match as_int(v) {
                Some(b) => match spec_apply_checked(op, acc, b, blame) {
                    Ok(c) => {
                        if !(op != Operation::Equal && c == 0) {
                            lemma_pure_cmp_preserves_env(op, args.drop_first(), c, blame, e0, fuel);
                        }
                    },
                    Err(_) => {},
                },
                None => {},
            },
            Err(_) => {},
        }
    }
}

/// Evaluating a pure expression is idempotent on the environment: the first
/// evaluation hands back the environment unchanged, and evaluating the same
/// expression again against it yields the same outcome and the same
/// environment.
pub proof fn lemma_pure_eval_idempotent(n: NodeV, env: EnvironmentV, fuel: nat)
    requires
        is_pure(n),
    ensures
        spec_eval(n, env, fuel).1 == env,
        spec_eval(n, spec_eval(n, env, fuel).1, fuel) == spec_eval(n, env, fuel),
{
    lemma_pure_eval_preserves_env(n, env, fuel);
}

/// The loop invariant of evaluating a node sequence: what the spec run
/// yields from the whole sequence and the entry environment is what it
/// yields from the remaining suffix and the current environment, prefixed
/// with the results built so far.
pub open spec fn eval_seq_unfold(
    all: Seq<NodeV>,
    env0: EnvironmentV,
    fuel: nat,
    built: Seq<EvalResultV>,
    k: int,
    cur: EnvironmentV,
) -> bool {
    let (r, e) = spec_eval_seq(all.skip(k), cur, fuel);
    let (sr, se) = spec_eval_seq(all, env0, fuel);
    match r {
        Ok(vs) => sr == Ok::<Seq<EvalResultV>, EvalErrorV>(built + vs) && se == e,
        Err(er) => sr == Err::<Seq<EvalResultV>, EvalErrorV>(er) && se == e,
    }
}

/// Turns a result into the integer it stands for, or the integer-operand
/// error blaming the given token.
fn parse_literal(r: &EvalResult, blame: &Token) -> (out: Result<i64, EvalError>)
    ensures
        match out {
            Ok(v) => as_int(r@) == Some(v),
            Err(e) => as_int(r@) == None::<i64> && e@ == EvalErrorV::Integer(blame@),
        },
{
    match r {
        EvalResult::Literal(t) => {
            let is_int = match t.token_kind {
                TokenKind::Integer => true,
                _ => false,
            };
            if is_int {
                match parse_i64(t.token.as_str()) {
                    Some(v) => Ok(v),
                    None => Err(EvalError::Integer(blame.clone())),
                }
            } else {
                Err(EvalError::Integer(blame.clone()))
            }
        },
        _ => Err(EvalError::Integer(blame.clone())),
    }
}

/// Registers a variable binding: inserts it under its name and yields
/// nothing.
fn insert_variable(vd: &VariableDefinition, env: &mut Environment) -> (r: Result<
    EvalResult,
    EvalError,
>)
    ensures
        ({
            let (sr, se) = spec_eval(NodeV::VariableDefinition(vd@), old(env)@, 0);
            &&& final(env)@ == se
            &&& r matches Ok(v) && sr == Ok::<EvalResultV, EvalErrorV>(v@)
        }),
{
    env.variables.insert(vd.name.token.clone(), vd.clone());
    proof {
        assert(final(env)@ =~= (EnvironmentV {
            functions: old(env)@.functions,
            variables: old(env)@.variables.insert(vd@.name.token, vd@),
        }));
    }
    Ok(EvalResult::Void)
}

/// Registers a function definition: inserts it under its name, unevaluated,
/// and yields nothing.
fn insert_function_definition(fd: &FunctionDefinition, env: &mut Environment) -> (r: Result<
    EvalResult,
    EvalError,
>)
    ensures
        ({
            let (sr, se) = spec_eval(NodeV::FunctionDefinition(fd@), old(env)@, 0);
            &&& final(env)@ == se
            &&& r matches Ok(v) && sr == Ok::<EvalResultV, EvalErrorV>(v@)
        }),
{
    env.functions.insert(fd.name.token.clone(), fd.clone());
    proof {
        assert(final(env)@ =~= (EnvironmentV {
            functions: old(env)@.functions.insert(fd@.name.token, fd@),
            variables: old(env)@.variables,
        }));
    }
    Ok(EvalResult::Void)
}

/// Evaluates every element of a list in order against the same environment
/// and collects the results.
fn evaluate_list(items: &Stack<Node>, env: &mut Environment, fuel: u64) -> (r: Result<
    EvalResult,
    EvalError,
>)
    ensures
        ({
            let (sr, se) = spec_eval(
                NodeV::List(crate::ast::ListV { data: node_views(items@) }),
                old(env)@,
                fuel as nat,
            );
            &&& final(env)@ == se
            &&& match r {
                Ok(v) => sr == Ok::<EvalResultV, EvalErrorV>(v@),
                Err(e) => sr == Err::<EvalResultV, EvalErrorV>(e@),
            }
        }),
    decreases fuel, *items, 1int,
{
    broadcast use lemma_eval_result_views;

    let ghost all = node_views(items.data@);
    let ghost env0 = env@;
    let mut out: Vec<EvalResult> = Vec::new();
    let n = items.data.len();
    let mut k: usize = 0;
    proof {
        assert(all.skip(0) =~= all);
        assert(eval_result_views(out@) =~= Seq::<EvalResultV>::empty());
        let (r, e) = spec_eval_seq(all, env0, fuel as nat);
        match r {
            Ok(vs) => {
                assert(eval_result_views(out@) + vs =~= vs);
            },
            Err(er) => {},
        }
    }
    while k < n
        invariant
            k <= n,
            n == items.data@.len(),
            all == node_views(items.data@),
            env0 == old(env)@,
            eval_seq_unfold(all, env0, fuel as nat, eval_result_views(out@), k as int, env@),
        decreases n - k,
    {
        let ghost built = eval_result_views(out@);
        let ghost envk = env@;
        let res = evaluate_node(&items.data[k], env, fuel);
        proof {
            assert(all.skip(k as int)[0] == all[k as int]);
            assert(all[k as int] == node_view(&items.data@[k as int]));
            assert(all.skip(k as int).drop_first() =~= all.skip(k + 1));
        }
        let v = match res {
            Ok(v) => v,
            Err(e) => {
                return Err(e);
            },
        };
        proof {
            assert(eval_result_views(out@.push(v)) =~= built.push(v@)) by {
                lemma_eval_result_views(out@.push(v));
                lemma_eval_result_views(out@);
            }
            let (r1, e1) = spec_eval_seq(all.skip(k + 1), env@, fuel as nat);
            match r1 {
                Ok(vs) => {
                    assert(built.push(v@) + vs =~= built + (seq![v@] + vs));
                },
                Err(er) => {},
            }
        }
        out.push(v);
        k += 1;
    }
    proof {
        assert(all.skip(n as int) =~= Seq::<NodeV>::empty());
        let (r, e) = spec_eval_seq(all.skip(n as int), env@, fuel as nat);
        assert(eval_result_views(out@) + Seq::<EvalResultV>::empty() =~= eval_result_views(out@));
    }
    Ok(EvalResult::List(out))
}

/// Evaluates a conditional: the condition must yield a boolean literal, and
/// exactly one branch is then evaluated.
fn evaluate_conditional(c: &Conditional, env: &mut Environment, fuel: u64) -> (r: Result<
    EvalResult,
    EvalError,
>)
    ensures
        ({
            let (sr, se) = spec_eval(NodeV::Conditional(c@), old(env)@, fuel as nat);
            &&& final(env)@ == se
            &&& match r {
                Ok(v) => sr == Ok::<EvalResultV, EvalErrorV>(v@),
                Err(e) => sr == Err::<EvalResultV, EvalErrorV>(e@),
            }
        }),
    decreases fuel, *c, 1int,
{
    let cond = match evaluate_node(&*c.condition, env, fuel) {
        Ok(v) => v,
        Err(e) => {
            return Err(e);
        },
    };
    match &cond {
        EvalResult::Literal(t) => {
            let is_bool = match t.token_kind {
                TokenKind::Bool => true,
                _ => false,
            };
            if is_bool && crate::token::str_eq(t.token.as_str(), "true") {
                evaluate_node(&*c.true_expression, env, fuel)
            } else if is_bool && crate::token::str_eq(t.token.as_str(), "false") {
                evaluate_node(&*c.false_expression, env, fuel)
            } else {
                Err(EvalError::Condition(t.clone()))
            }
        },
        _ => {
            let ns = String::new();
            let blank = Token::new("", TokenKind::Error, 0, 0, 0, &ns);
            proof {
                reveal_strlit("");
                assert(""@ =~= Seq::<char>::empty());
                assert(blank@ == blame_token(cond@));
            }
            Err(EvalError::Condition(blank))
        },
    }
}

/// Folds an arithmetic operation over the operands after the first, exactly
/// as `spec_eval_arith` says from the seed value.
pub fn operation(
    op: Operation,
    args: &Stack<Node>,
    first: i64,
    blame: &Token,
    env: &mut Environment,
    fuel: u64,
) -> (r: Result<i64, EvalError>)
    requires
        args@.len() >= 1,
    ensures
        ({
            let (sr, se) = spec_eval_arith(
                op,
                node_views(args@).skip(1),
                first,
                blame@,
                old(env)@,
                fuel as nat,
            );
            &&& final(env)@ == se
            &&& match r {
                Ok(v) => sr == Ok::<i64, EvalErrorV>(v),
                Err(e) => sr == Err::<i64, EvalErrorV>(e@),
            }
        }),
    decreases fuel, *args, 1int,
{
    let ghost all = node_views(args.data@);
    let ghost env0 = env@;
    let n = args.data.len();
    let mut acc = first;
    let mut k: usize = 1;
    while k < n
        invariant
            1 <= k <= n,
            n == args.data@.len(),
            all == node_views(args.data@),
            env0 == old(env)@,
            spec_eval_arith(op, all.skip(1), first, blame@, env0, fuel as nat) == spec_eval_arith(
                op,
                all.skip(k as int),
                acc,
                blame@,
                env@,
                fuel as nat,
            ),
        decreases n - k,
    {
        let res = evaluate_node(&args.data[k], env, fuel);
        proof {
            assert(all.skip(k as int)[0] == all[k as int]);
            assert(all[k as int] == node_view(&args.data@[k as int]));
            assert(all.skip(k as int).drop_first() =~= all.skip(k + 1));
        }
        let v = match res {
            Ok(v) => v,
            Err(e) => {
                return Err(e);
            },
        };
        let b = match parse_literal(&v, blame) {
            Ok(b) => b,
            Err(e) => {
                return Err(e);
            },
        };
        let is_div = match op {
            Operation::Divide => true,
            _ => false,
        };
        if is_div && b == 0 {
            return Err(EvalError::DivisionByZero(blame.clone()));
        }
        let c = match op.apply(acc, b) {
            Some(c) => c,
            None => {
                return Err(EvalError::Overflow(blame.clone()));
            },
        };
        acc = c;
        k += 1;
    }
    proof {
        assert(all.skip(n as int) =~= Seq::<NodeV>::empty());
    }
    Ok(acc)
}

/// Chains a comparison over the operands after the first, exactly as
/// `spec_eval_cmp` says from the seed value.
fn binary_expression(
    op: Operation,
    args: &Stack<Node>,
    first: i64,
    blame: &Token,
    env: &mut Environment,
    fuel: u64,
) -> (r: Result<i64, EvalError>)
    requires
        args@.len() >= 1,
    ensures
        ({
            let (sr, se) = spec_eval_cmp(
                op,
                node_views(args@).skip(1),
                first,
                blame@,
                old(env)@,
                fuel as nat,
            );
            &&& final(env)@ == se
            &&& match r {
                Ok(v) => sr == Ok::<i64, EvalErrorV>(v),
                Err(e) => sr == Err::<i64, EvalErrorV>(e@),
            }
        }),
    decreases fuel, *args, 1int,
{
    let ghost all = node_views(args.data@);
    let ghost env0 = env@;
    let n = args.data.len();
    let mut acc = first;
    let mut k: usize = 1;
    while k < n
        invariant
            1 <= k <= n,
            n == args.data@.len(),
            all == node_views(args.data@),
            env0 == old(env)@,
            spec_eval_cmp(op, all.skip(1), first, blame@, env0, fuel as nat) == spec_eval_cmp(
                op,
                all.skip(k as int),
                acc,
                blame@,
                env@,
                fuel as nat,
            ),
        decreases n - k,
    {
        let res = evaluate_node(&args.data[k], env, fuel);
        proof {
            assert(all.skip(k as int)[0] == all[k as int]);
            assert(all[k as int] == node_view(&args.data@[k as int]));
            assert(all.skip(k as int).drop_first() =~= all.skip(k + 1));
        }
        let v = match res {
            Ok(v) => v,
            Err(e) => {
                return Err(e);
            },
        };
        let b = match parse_literal(&v, blame) {
            Ok(b) => b,
            Err(e) => {
                return Err(e);
            },
        };
        let is_div = match op {
            Operation::Divide => true,
            _ => false,
        };
        if is_div && b == 0 {
            return Err(EvalError::DivisionByZero(blame.clone()));
        }
        let c = match op.apply(acc, b) {
            Some(c) => c,
            None => {
                return Err(EvalError::Overflow(blame.clone()));
            },
        };
        let is_equal = match op {
            Operation::Equal => true,
            _ => false,
        };
        if !is_equal && c == 0 {
            return Ok(0);
        }
        acc = c;
        k += 1;
    }
    proof {
        assert(all.skip(n as int) =~= Seq::<NodeV>::empty());
    }
    Ok(acc)
}

/// Evaluates a call: a built-in arithmetic or comparison symbol folds its
/// operands; otherwise the callee must be a defined function, whose body is
/// run in a call-local environment with each parameter bound to its
/// unevaluated argument.
#[verifier::rlimit(50)]
fn evaluate_expression(fc: &FunctionCall, env: &mut Environment, fuel: u64) -> (r: Result<
    EvalResult,
    EvalError,
>)
    ensures
        ({
            let (sr, se) = spec_eval(NodeV::FunctionCall(fc@), old(env)@, fuel as nat);
            &&& final(env)@ == se
            &&& match r {
                Ok(v) => sr == Ok::<EvalResultV, EvalErrorV>(v@),
                Err(e) => sr == Err::<EvalResultV, EvalErrorV>(e@),
            }
        }),
    decreases fuel, *fc, 1int,
{
    let sym = fc.name.token.as_str();
    let ghost all = node_views(fc.arguments.data@);
    match Operation::from_symbol(sym) {
        Some(op) => {
            let arith = match op {
                Operation::Add | Operation::Subtract | Operation::Multiply
                | Operation::Divide => true,
                _ => false,
            };
            let min_args: usize = if arith {
                1
            } else {
                2
            };
            if fc.arguments.data.len() < min_args {
                return Err(EvalError::Operands(fc.name.clone()));
            }
            let res = evaluate_node(&fc.arguments.data[0], env, fuel);
            proof {
                assert(all[0] == node_view(&fc.arguments.data@[0]));
            }
            let v = match res {
                Ok(v) => v,
                Err(e) => {
                    return Err(e);
                },
            };
            let a = match parse_literal(&v, &fc.name) {
                Ok(a) => a,
                Err(e) => {
                    return Err(e);
                },
            };
            proof {
                assert(all.skip(1) =~= all.subrange(1, all.len() as int));
            }
            if arith {
                let c = match operation(op, &fc.arguments, a, &fc.name, env, fuel) {
                    Ok(c) => c,
                    Err(e) => {
                        return Err(e);
                    },
                };
                let text = render_i64(c);
                let len = text.as_str().unicode_len();
                let t = Token::new(text.as_str(), TokenKind::Integer, 1, 1, len, &fc.name.namespace);
                proof {
                    assert(t@ == int_token(c, fc@.name.namespace));
                }
                Ok(EvalResult::Literal(t))
            } else {
                let c = match binary_expression(op, &fc.arguments, a, &fc.name, env, fuel) {
                    Ok(c) => c,
                    Err(e) => {
                        return Err(e);
                    },
                };
                let t = if c != 0 {
                    let t = Token::new("true", TokenKind::Bool, 1, 1, 4, &fc.name.namespace);
                    proof {
                        reveal_strlit("true");
                        assert(t@ == bool_token(true, fc@.name.namespace));
                    }
                    t
                } else {
                    let t = Token::new("false", TokenKind::Bool, 1, 1, 5, &fc.name.namespace);
                    proof {
                        reveal_strlit("false");
                        assert(t@ == bool_token(false, fc@.name.namespace));
                    }
                    t
                };
                Ok(EvalResult::Literal(t))
            }
        },
        None => {
            let fd: FunctionDefinition = match env.functions.get(sym) {
                Some(f) => f.clone(),
                None => {
                    return Err(EvalError::SymbolError(fc.name.clone()));
                },
            };
            if fd.parameters.data.len() != fc.arguments.data.len() {
                return Err(EvalError::Parameter(fc.name.clone()));
            }
            if fuel == 0 {
                return Err(EvalError::Depth(fc.name.clone()));
            }
            if fd.body.data.len() == 0 {
                return Ok(EvalResult::Void);
            }
            let ghost psv = token_views(fd.parameters.data@);
            let ghost agv = node_views(fc.arguments.data@);
            let mut local = Environment {
                functions: dup_functions(&env.functions),
                variables: NameMap::new(),
            };
            let n = fd.parameters.data.len();
            let mut k: usize = 0;
    proof {
        assert(psv.take(0) =~= Seq::<TokenV>::empty());
        assert(agv.take(0) =~= Seq::<NodeV>::empty());
    }
            while k < n
                invariant
                    k <= n,
                    n == fd.parameters.data@.len(),
                    n == fc.arguments.data@.len(),
                    psv == token_views(fd.parameters.data@),
                    agv == node_views(fc.arguments.data@),
                    local.variables@ == bind_params(psv.take(k as int), agv.take(k as int)),
                    local.functions@ == env@.functions,
                decreases n - k,
            {
                let key = fd.parameters.data[k].token.clone();
                let vd = VariableDefinition {
                    name: fd.parameters.data[k].clone(),
                    assignment: Box::new(fc.arguments.data[k].clone()),
                };
                proof {
                    assert(psv.take(k + 1).drop_last() =~= psv.take(k as int));
                    assert(agv.take(k + 1).drop_last() =~= agv.take(k as int));
                    assert(psv.take(k + 1).last() == psv[k as int]);
                    assert(agv.take(k + 1).last() == agv[k as int]);
                    assert(vd@ == (VariableDefinitionV {
                        name: psv[k as int],
                        assignment: Box::new(agv[k as int]),
                    }));
                }
                local.variables.insert(key, vd);
                k += 1;
            }
            proof {
                assert(psv.take(n as int) =~= psv);
                assert(agv.take(n as int) =~= agv);
                assert(local@ =~= (EnvironmentV {
                    functions: old(env)@.functions,
                    variables: bind_params(psv, agv),
                }));
                assert(fd@.body[0] == node_view(&fd.body.data@[0]));
            }
            evaluate_node(&fd.body.data[0], &mut local, fuel - 1)
        },
    }
}

/// Evaluates one node against the environment, following calls and variable
/// resolutions at most `fuel` deep: exactly what `spec_eval` yields, both in
/// the outcome and in how the environment is left.
pub fn evaluate_node(node: &Node, env: &mut Environment, fuel: u64) -> (r: Result<
    EvalResult,
    EvalError,
>)
    ensures
        ({
            let (sr, se) = spec_eval(node_view(node), old(env)@, fuel as nat);
            &&& final(env)@ == se
            &&& match r {
                Ok(v) => sr == Ok::<EvalResultV, EvalErrorV>(v@),
                Err(e) => sr == Err::<EvalResultV, EvalErrorV>(e@),
            }
        }),
    decreases fuel, *node, 2int,
{
    match node {
        Node::Literal(t) => Ok(EvalResult::Literal(t.clone())),
        Node::VariableCall(vc) => {
            let name = vc.name.token.as_str();
            let asg: Node = match env.variables.get(name) {
                None => {
                    return Err(EvalError::Variable(vc.name.clone()));
                },
                Some(vd) => (&*vd.assignment).clone(),
            };
            if fuel == 0 {
                return Err(EvalError::Depth(vc.name.clone()));
            }
            let mut scratch = env.clone();
            let res = evaluate_node(&asg, &mut scratch, fuel - 1);
            proof {
                assert(node_view(&asg) == *old(env)@.variables[vc@.name.token].assignment);
            }
            res
        },
        Node::VariableDefinition(vd) => insert_variable(vd, env),
        Node::FunctionDefinition(fd) => insert_function_definition(fd, env),
        Node::List(l) => evaluate_list(&l.data, env, fuel),
        Node::Conditional(c) => evaluate_conditional(c, env, fuel),
        Node::Documentation(d) => Err(EvalError::Node(d.commentary.clone())),
        Node::FunctionCall(fc) => evaluate_expression(fc, env, fuel),
    }
}

/// Evaluates one node against the environment with the default depth bound.
pub fn evaluate(ast: &Node, env: &mut Environment) -> (r: Result<EvalResult, EvalError>)
    ensures
        ({
            let (sr, se) = spec_eval(node_view(ast), old(env)@, default_fuel());
            &&& final(env)@ == se
            &&& match r {
                Ok(v) => sr == Ok::<EvalResultV, EvalErrorV>(v@),
                Err(e) => sr == Err::<EvalResultV, EvalErrorV>(e@),
            }
        }),
{
    evaluate_node(ast, env, CALL_DEPTH)
}

} // verus!
