//! The parser: shapes a token stream into one top-level expression-tree node
//! by recursive descent. The first pending token picks the production;
//! bracketed productions recurse for nesting and end at their own closing
//! bracket; tokens left over after one complete form are an error.
//!
//! The spec parser `spec_parse` walks the token models positionally; each
//! executable production is proved to return exactly what the spec parser
//! names at its position, consuming exactly the tokens the spec parser
//! consumes.

use vstd::prelude::*;

use crate::ast::{
    node_view, node_views, FunctionCall, FunctionCallV, FunctionDefinition, FunctionDefinitionV,
    List, ListV, Node, NodeV, VariableCall, VariableCallV, VariableDefinition, VariableDefinitionV,
};
use crate::ast::{clone_tokens, lemma_node_views};
use crate::error::{ParseError, ParseErrorV};
use crate::stack::Stack;
use crate::token::{token_views, Token, TokenKind, TokenV};

verus! {

broadcast use crate::token::lemma_token_views_len, crate::token::lemma_token_views_index, crate::ast::lemma_node_views;

/// The position a production resumes at after a nested production returned
/// `j`: clamped so that it always moves forward and never passes the end.
/// Nested productions always consume at least one token, so for them this is
/// `j` itself.
pub open spec fn next_pos(ts: Seq<TokenV>, i: int, j: int) -> int {
    let k = if j <= i {
        i + 1
    } else {
        j
    };
    if k > ts.len() {
        ts.len() as int
    } else {
        k
    }
}

/// The token kind is a scalar literal: integer, boolean or string.
pub open spec fn is_scalar_kind(k: TokenKind) -> bool {
    k == TokenKind::Integer || k == TokenKind::Bool || k == TokenKind::StringLiteral
}

/// The variable-definition production at position `i`: a symbol name, then
/// one scalar value token.
pub open spec fn spec_parse_variable_definition(ts: Seq<TokenV>, i: int) -> Result<
    (NodeV, int),
    ParseErrorV,
> {
    if i >= ts.len() {
        Err(ParseErrorV::StackError { name: "variable name"@, stack: Seq::empty() })
    } else {
        let name = ts[i];
        if name.token_kind != TokenKind::Symbol {
            Err(ParseErrorV::VariableDefinition(name))
        } else if i + 1 >= ts.len() {
            Err(ParseErrorV::StackError { name: "variable value"@, stack: Seq::empty() })
        } else {
            let value = ts[i + 1];
            if is_scalar_kind(value.token_kind) {
                Ok(
                    (
                        NodeV::VariableDefinition(
                            VariableDefinitionV {
                                name: name,
                                assignment: Box::new(NodeV::Literal(value)),
                            },
                        ),
                        i + 2,
                    ),
                )
            } else {
                Err(ParseErrorV::VariableAssignment(value))
            }
        }
    }
}

/// The elements of a list production at position `i`, up to and including the
/// closing square bracket: scalars become literals, a nested opening square
/// bracket recurses, anything else is an error.
pub open spec fn spec_parse_list_items(ts: Seq<TokenV>, i: int) -> Result<
    (Seq<NodeV>, int),
    ParseErrorV,
>
    decreases ts.len() - i, 1int,
{
    if i >= ts.len() {
        Err(ParseErrorV::StackError { name: "closing square bracket"@, stack: Seq::empty() })
    } else {
        let t = ts[i];
        if is_scalar_kind(t.token_kind) {
            match spec_parse_list_items(ts, i + 1) {
                Ok((items, j)) => Ok((seq![NodeV::Literal(t)] + items, j)),
                Err(e) => Err(e),
            }
        } else if t.token_kind == TokenKind::LeftSquareBracket {
            match spec_parse_list_items(ts, i + 1) {
                Ok((child, j)) => {
                    let k = next_pos(ts, i + 1, j);
                    match spec_parse_list_items(ts, k) {
                        Ok((items, m)) => Ok(
                            (seq![NodeV::List(ListV { data: child })] + items, m),
                        ),
                        Err(e) => Err(e),
                    }
                },
                Err(e) => Err(e),
            }
        } else if t.token_kind == TokenKind::RightSquareBracket {
            Ok((Seq::empty(), i + 1))
        } else {
            Err(ParseErrorV::ListDefinition(t))
        }
    }
}

/// The list production at position `i` (after its opening bracket).
pub open spec fn spec_parse_list(ts: Seq<TokenV>, i: int) -> Result<(NodeV, int), ParseErrorV> {
    match spec_parse_list_items(ts, i) {
        Ok((items, j)) => Ok((NodeV::List(ListV { data: items }), j)),
        Err(e) => Err(e),
    }
}

/// The arguments of a call production at position `i`, up to and including
/// the closing round bracket: scalars become literals, symbols become
/// variable reads, a nested opening round bracket recurses as a nested call,
/// an opening square bracket recurses as a list.
pub open spec fn spec_parse_args(ts: Seq<TokenV>, i: int) -> Result<(Seq<NodeV>, int), ParseErrorV>
    decreases ts.len() - i, 3int,
{
    if i >= ts.len() {
        Err(ParseErrorV::StackError { name: "closing round bracket"@, stack: Seq::empty() })
    } else {
        let t = ts[i];
        if is_scalar_kind(t.token_kind) {
            match spec_parse_args(ts, i + 1) {
                Ok((args, j)) => Ok((seq![NodeV::Literal(t)] + args, j)),
                Err(e) => Err(e),
            }
        } else if t.token_kind == TokenKind::Symbol {
            match spec_parse_args(ts, i + 1) {
                Ok((args, j)) => Ok(
                    (seq![NodeV::VariableCall(VariableCallV { name: t })] + args, j),
                ),
                Err(e) => Err(e),
            }
        } else if t.token_kind == TokenKind::LeftRoundBracket {
            match spec_parse_expression(ts, i + 1) {
                Ok((child, j)) => {
                    let k = next_pos(ts, i + 1, j);
                    match spec_parse_args(ts, k) {
                        Ok((args, m)) => Ok((seq![child] + args, m)),
                        Err(e) => Err(e),
                    }
                },
                Err(e) => Err(e),
            }
        } else if t.token_kind == TokenKind::LeftSquareBracket {
            match spec_parse_list_items(ts, i + 1) {
                Ok((child, j)) => {
                    let k = next_pos(ts, i + 1, j);
                    match spec_parse_args(ts, k) {
                        Ok((args, m)) => Ok(
                            (seq![NodeV::List(ListV { data: child })] + args, m),
                        ),
                        Err(e) => Err(e),
                    }
                },
                Err(e) => Err(e),
            }
        } else if t.token_kind == TokenKind::RightRoundBracket {
            Ok((Seq::empty(), i + 1))
        } else {
            Err(ParseErrorV::FunctionCallArg(t))
        }
    }
}

/// The call production at position `i` (after its opening bracket): a symbol
/// callee, then the arguments.
pub open spec fn spec_parse_expression(ts: Seq<TokenV>, i: int) -> Result<
    (NodeV, int),
    ParseErrorV,
>
    decreases ts.len() - i, 4int,
{
    if i >= ts.len() {
        Err(ParseErrorV::StackError { name: "a callee symbol"@, stack: Seq::empty() })
    } else {
        let name = ts[i];
        if name.token_kind != TokenKind::Symbol {
            Err(ParseErrorV::FunctionCallName(name))
        } else {
            match spec_parse_args(ts, i + 1) {
                Ok((args, j)) => Ok(
                    (NodeV::FunctionCall(FunctionCallV { name: name, arguments: args }), j),
                ),
                Err(e) => Err(e),
            }
        }
    }
}

/// The parameter list of a function definition at position `i`, up to and
/// including the closing square bracket: zero or more symbols.
pub open spec fn spec_parse_params(ts: Seq<TokenV>, i: int) -> Result<
    (Seq<TokenV>, int),
    ParseErrorV,
>
    decreases ts.len() - i,
{
    if i >= ts.len() {
        Err(
            ParseErrorV::StackError {
                name: "closing bracket of the parameter list"@,
                stack: Seq::empty(),
            },
        )
    } else {
        let t = ts[i];
        if t.token_kind == TokenKind::Symbol {
            match spec_parse_params(ts, i + 1) {
                Ok((ps, j)) => Ok((seq![t] + ps, j)),
                Err(e) => Err(e),
            }
        } else if t.token_kind == TokenKind::RightSquareBracket {
            Ok((Seq::empty(), i + 1))
        } else {
            Err(ParseErrorV::FunctionParameter(t))
        }
    }
}

/// The function-definition production at position `i` (after its keyword):
/// a symbol name, a bracketed parameter list, a docstring, then a body that
/// must start with an opening round bracket and is exactly one call
/// production.
pub open spec fn spec_parse_function_definition(ts: Seq<TokenV>, i: int) -> Result<
    (NodeV, int),
    ParseErrorV,
> {
    if i >= ts.len() {
        Err(ParseErrorV::StackError { name: "a function name"@, stack: Seq::empty() })
    } else {
        let name = ts[i];
        if name.token_kind != TokenKind::Symbol {
            Err(ParseErrorV::FunctionName(name))
        } else if i + 1 >= ts.len() {
            Err(ParseErrorV::StackError { name: "the parameter list"@, stack: Seq::empty() })
        } else if ts[i + 1].token_kind != TokenKind::LeftSquareBracket {
            Err(ParseErrorV::NoLeftBracket(ts[i + 1]))
        } else {
            match spec_parse_params(ts, i + 2) {
                Err(e) => Err(e),
                Ok((params, j)) => {
                    if j >= ts.len() {
                        Err(ParseErrorV::StackError { name: "a docstring"@, stack: Seq::empty() })
                    } else if ts[j].token_kind != TokenKind::DocString {
                        Err(ParseErrorV::FunctionDocstring(ts[j]))
                    } else if j + 1 >= ts.len() {
                        Err(
                            ParseErrorV::StackError {
                                name: "the function body"@,
                                stack: Seq::empty(),
                            },
                        )
                    } else if ts[j + 1].token_kind != TokenKind::LeftRoundBracket {
                        Err(ParseErrorV::FunctionBody(ts[j + 1]))
                    } else {
                        match spec_parse_expression(ts, j + 2) {
                            Ok((body, k)) => Ok(
                                (
                                    NodeV::FunctionDefinition(
                                        FunctionDefinitionV {
                                            name: name,
                                            parameters: params,
                                            docstrings: ts[j],
                                            body: seq![body],
                                        },
                                    ),
                                    k,
                                ),
                            ),
                            Err(e) => Err(e),
                        }
                    }
                },
            }
        }
    }
}

/// One top-level form at position `i`: the first pending token picks the
/// production.
pub open spec fn spec_parse_form(ts: Seq<TokenV>, i: int) -> Result<(NodeV, int), ParseErrorV> {
    if i >= ts.len() {
        Err(ParseErrorV::StackError { name: "a top-level form"@, stack: Seq::empty() })
    } else {
        let t = ts[i];
        if t.token_kind == TokenKind::VariableDefinition {
            spec_parse_variable_definition(ts, i + 1)
        } else if t.token_kind == TokenKind::LeftSquareBracket {
            spec_parse_list(ts, i + 1)
        } else if t.token_kind == TokenKind::FunctionDefinition {
            spec_parse_function_definition(ts, i + 1)
        } else if t.token_kind == TokenKind::LeftRoundBracket {
            spec_parse_expression(ts, i + 1)
        } else if t.token_kind == TokenKind::Symbol {
            Ok((NodeV::VariableCall(VariableCallV { name: t }), i + 1))
        } else {
            Err(ParseErrorV::ParseError(t))
        }
    }
}

/// What parsing a whole token stream yields: exactly one top-level form,
/// with tokens left over reported as an error.
pub open spec fn spec_parse(ts: Seq<TokenV>) -> Result<NodeV, ParseErrorV> {
    match spec_parse_form(ts, 0) {
        Err(e) => Err(e),
        Ok((node, j)) => {
            if j >= ts.len() {
                Ok(node)
            } else {
                Err(ParseErrorV::ExtraTokens(ts[j]))
            }
        },
    }
}

/// A production that returns successfully consumed at least one token and
/// never read past the end.
proof fn lemma_parse_consumes(ts: Seq<TokenV>, i: int, which: int)
    requires
        0 <= i,
    ensures
        which == 0 ==> (spec_parse_list_items(ts, i) matches Ok((_, j)) ==> i < j <= ts.len()),
        which == 1 ==> (spec_parse_args(ts, i) matches Ok((_, j)) ==> i < j <= ts.len()),
        which == 2 ==> (spec_parse_params(ts, i) matches Ok((_, j)) ==> i < j <= ts.len()),
        which == 3 ==> (spec_parse_expression(ts, i) matches Ok((_, j)) ==> i < j <= ts.len()),
    decreases ts.len() - i, 5int,
{
    if i < ts.len() {
        if which == 0 {
            lemma_parse_consumes(ts, i + 1, 0);
            match spec_parse_list_items(ts, i + 1) {
                Ok((child, j)) => lemma_parse_consumes(ts, next_pos(ts, i + 1, j), 0),
                Err(_) => (),
            }
        } else if which == 1 {
            lemma_parse_consumes(ts, i + 1, 1);
            lemma_parse_consumes(ts, i + 1, 3);
            lemma_parse_consumes(ts, i + 1, 0);
            match spec_parse_expression(ts, i + 1) {
                Ok((child, j)) => lemma_parse_consumes(ts, next_pos(ts, i + 1, j), 1),
                Err(_) => (),
            }
            match spec_parse_list_items(ts, i + 1) {
                Ok((child, j)) => lemma_parse_consumes(ts, next_pos(ts, i + 1, j), 1),
                Err(_) => (),
            }
        } else if which == 2 {
            lemma_parse_consumes(ts, i + 1, 2);
        } else if which == 3 {
            lemma_parse_consumes(ts, i + 1, 1);
        }
    }
}

proof fn lemma_args_err_without_closer(ts: Seq<TokenV>, i: int, which: int)
    requires
        0 <= i,
        forall|j: int| i <= j < ts.len() ==> ts[j].token_kind != TokenKind::RightRoundBracket,
    ensures
        which == 0 ==> spec_parse_args(ts, i) is Err,
        which == 1 ==> spec_parse_expression(ts, i) is Err,
    decreases ts.len() - i, 2 + which,
{
    if i < ts.len() {
        if which == 0 {
            lemma_args_err_without_closer(ts, i + 1, 0);
            lemma_args_err_without_closer(ts, i + 1, 1);
            match spec_parse_list_items(ts, i + 1) {
                Ok((child, j)) => {
                    lemma_parse_consumes(ts, i + 1, 0);
                    lemma_args_err_without_closer(ts, next_pos(ts, i + 1, j), 0);
                },
                Err(_) => (),
            }
        } else {
            lemma_args_err_without_closer(ts, i + 1, 0);
        }
    }
}

/// A form that opens a round bracket which no later token closes ends in a
/// parse error: on unterminated bracket nesting the parser stops with a
/// structural error rather than looping or panicking.
pub proof fn lemma_unclosed_bracket_is_error(ts: Seq<TokenV>)
    requires
        ts.len() > 0,
        ts[0].token_kind == TokenKind::LeftRoundBracket,
        forall|j: int| 0 <= j < ts.len() ==> ts[j].token_kind != TokenKind::RightRoundBracket,
    ensures
        spec_parse(ts) is Err,
{
    lemma_args_err_without_closer(ts, 1, 1);
}

/// The loop invariant of a production that accumulates items: what the spec
/// production yields at the entry position is what it yields at the current
/// position, prefixed with the items built so far.
pub open spec fn list_items_unfold(ts: Seq<TokenV>, i: int, built: Seq<NodeV>, cur: int) -> bool {
    match spec_parse_list_items(ts, cur) {
        Ok((rest, j)) => spec_parse_list_items(ts, i) == Ok::<(Seq<NodeV>, int), ParseErrorV>(
            (built + rest, j),
        ),
        Err(e) => spec_parse_list_items(ts, i) == Err::<(Seq<NodeV>, int), ParseErrorV>(e),
    }
}

/// As `list_items_unfold`, for the argument production.
pub open spec fn args_unfold(ts: Seq<TokenV>, i: int, built: Seq<NodeV>, cur: int) -> bool {
    match spec_parse_args(ts, cur) {
        Ok((rest, j)) => spec_parse_args(ts, i) == Ok::<(Seq<NodeV>, int), ParseErrorV>(
            (built + rest, j),
        ),
        Err(e) => spec_parse_args(ts, i) == Err::<(Seq<NodeV>, int), ParseErrorV>(e),
    }
}

/// As `list_items_unfold`, for the parameter production.
pub open spec fn params_unfold(ts: Seq<TokenV>, i: int, built: Seq<TokenV>, cur: int) -> bool {
    match spec_parse_params(ts, cur) {
        Ok((rest, j)) => spec_parse_params(ts, i) == Ok::<(Seq<TokenV>, int), ParseErrorV>(
            (built + rest, j),
        ),
        Err(e) => spec_parse_params(ts, i) == Err::<(Seq<TokenV>, int), ParseErrorV>(e),
    }
}

/// Popping the front token of a stack that holds the tokens from position
/// `cur` onwards: the popped token is the model at `cur`, and the rest holds
/// the tokens from `cur + 1`.
proof fn lemma_pop_front_step(pre: Seq<Token>, ts: Seq<TokenV>, cur: int)
    requires
        0 <= cur <= ts.len(),
        token_views(pre) == ts.skip(cur),
        pre.len() > 0,
    ensures
        cur < ts.len(),
        pre[0]@ == ts[cur],
        token_views(pre.drop_first()) == ts.skip(cur + 1),
{
    assert(ts.skip(cur).len() == ts.len() - cur);
    assert(token_views(pre)[0] == pre[0]@);
    assert(ts.skip(cur)[0] == ts[cur]);
    assert forall|k: int| 0 <= k < pre.len() - 1 implies token_views(pre.drop_first())[k]
        == ts.skip(cur + 1)[k] by {
        assert(pre.drop_first()[k] == pre[k + 1]);
        assert(token_views(pre)[k + 1] == pre[k + 1]@);
        assert(ts.skip(cur)[k + 1] == ts[cur + k + 1]);
        assert(ts.skip(cur + 1)[k] == ts[cur + 1 + k]);
    }
    assert(token_views(pre.drop_first()) =~= ts.skip(cur + 1));
}

/// The list production: elements until the closing square bracket, exactly
/// as `spec_parse_list` names them at position `i`.
fn parse_list(tokens: &mut Stack<Token>, Ghost(ts): Ghost<Seq<TokenV>>, Ghost(i): Ghost<int>) -> (r:
    Result<Node, ParseError>)
    requires
        0 <= i <= ts.len(),
        token_views(old(tokens)@) == ts.skip(i),
    ensures
        match r {
            Ok(node) => {
                let j = ts.len() - final(tokens)@.len();
                &&& i <= j <= ts.len()
                &&& spec_parse_list(ts, i) == Ok::<(NodeV, int), ParseErrorV>((node@, j))
                &&& token_views(final(tokens)@) == ts.skip(j)
            },
            Err(e) => spec_parse_list(ts, i) == Err::<(NodeV, int), ParseErrorV>(e@),
        },
    decreases ts.len() - i,
{
    let mut items: Stack<Node> = Stack::new();
    let ghost mut cur: int = i;
    proof {
        assert(node_views(items@) =~= Seq::<NodeV>::empty());
        match spec_parse_list_items(ts, i) {
            Ok((rest, j)) => {
                assert(node_views(items@) + rest =~= rest);
            },
            Err(e) => {},
        }
    }
    loop
        invariant
            0 <= i <= cur <= ts.len(),
            token_views(tokens@) == ts.skip(cur),
            list_items_unfold(ts, i, node_views(items@), cur),
        decreases ts.len() - cur,
    {
        let ghost built = node_views(items@);
        let ghost pre = tokens@;
        let t = match tokens.pop_front() {
            None => {
                let rest = clone_tokens(tokens);
                    proof {
                        assert(token_views(rest@) =~= Seq::<TokenV>::empty());
                    }
                    return Err(ParseError::StackError { name: "closing square bracket", stack: rest });
            },
            Some(t) => t,
        };
        proof {
            lemma_pop_front_step(pre, ts, cur);
            assert(t@ == ts[cur]);
        }
        match t.token_kind {
            TokenKind::Integer | TokenKind::Bool | TokenKind::StringLiteral => {
                let node = Node::Literal(t);
                proof {
                    assert(node_views(items@.push(node)) =~= built.push(node@)) by {
                        lemma_node_views(items@.push(node));
                        lemma_node_views(items@);
                    }
                    match spec_parse_list_items(ts, cur + 1) {
                        Ok((rest, j)) => {
                            assert(built.push(node@) + rest =~= built + (seq![node@] + rest));
                        },
                        Err(e) => {},
                    }
                }
                items.push(node);
                proof {
                    cur = cur + 1;
                }
            },
            TokenKind::LeftSquareBracket => {
                let child = match parse_list(tokens, Ghost(ts), Ghost(cur + 1)) {
                    Ok(c) => c,
                    Err(e) => {
                        return Err(e);
                    },
                };
                proof {
                    let j = ts.len() - token_views(tokens@).len();
                    lemma_parse_consumes(ts, cur + 1, 0);
                    assert(next_pos(ts, cur + 1, j) == j);
                    assert(node_views(items@.push(child)) =~= built.push(child@)) by {
                        lemma_node_views(items@.push(child));
                        lemma_node_views(items@);
                    }
                    match spec_parse_list_items(ts, j) {
                        Ok((rest, m)) => {
                            assert(built.push(child@) + rest =~= built + (seq![child@] + rest));
                        },
                        Err(e) => {},
                    }
                    cur = j;
                }
                items.push(child);
            },
            TokenKind::RightSquareBracket => {
                let node = List { data: items };
                proof {
                    assert(node_views(node.data@) + Seq::<NodeV>::empty() =~= node_views(
                        node.data@,
                    ));
                }
                return Ok(Node::List(node));
            },
            _ => {
                return Err(ParseError::ListDefinition(t));
            },
        }
    }
}

/// The call production: a callee symbol, then arguments until the closing
/// round bracket, exactly as `spec_parse_expression` names them at `i`.
fn parse_expression(
    tokens: &mut Stack<Token>,
    Ghost(ts): Ghost<Seq<TokenV>>,
    Ghost(i): Ghost<int>,
) -> (r: Result<Node, ParseError>)
    requires
        0 <= i <= ts.len(),
        token_views(old(tokens)@) == ts.skip(i),
    ensures
        match r {
            Ok(node) => {
                let j = ts.len() - final(tokens)@.len();
                &&& i <= j <= ts.len()
                &&& spec_parse_expression(ts, i) == Ok::<(NodeV, int), ParseErrorV>((node@, j))
                &&& token_views(final(tokens)@) == ts.skip(j)
            },
            Err(e) => spec_parse_expression(ts, i) == Err::<(NodeV, int), ParseErrorV>(e@),
        },
    decreases ts.len() - i, 1int,
{
    let ghost pre = tokens@;
    let name = match tokens.pop_front() {
        None => {
            let rest = clone_tokens(tokens);
                proof {
                    assert(token_views(rest@) =~= Seq::<TokenV>::empty());
                }
                return Err(ParseError::StackError { name: "a callee symbol", stack: rest });
        },
        Some(t) => t,
    };
    proof {
        lemma_pop_front_step(pre, ts, i);
        assert(name@ == ts[i]);
    }
    let is_symbol = match name.token_kind {
        TokenKind::Symbol => true,
        _ => false,
    };
    if !is_symbol {
        return Err(ParseError::FunctionCallName(name));
    }
    let mut args: Stack<Node> = Stack::new();
    let ghost mut cur: int = i + 1;
    proof {
        assert(node_views(args@) =~= Seq::<NodeV>::empty());
        match spec_parse_args(ts, cur) {
            Ok((rest, j)) => {
                assert(node_views(args@) + rest =~= rest);
            },
            Err(e) => {},
        }
    }
    loop
        invariant
            0 <= i < ts.len(),
            i + 1 <= cur <= ts.len(),
            token_views(tokens@) == ts.skip(cur),
            args_unfold(ts, i + 1, node_views(args@), cur),
            name@ == ts[i],
            ts[i].token_kind == TokenKind::Symbol,
        decreases ts.len() - cur,
    {
        let ghost built = node_views(args@);
        let ghost pre = tokens@;
        let t = match tokens.pop_front() {
            None => {
                let rest = clone_tokens(tokens);
                    proof {
                        assert(token_views(rest@) =~= Seq::<TokenV>::empty());
                    }
                    return Err(ParseError::StackError { name: "closing round bracket", stack: rest });
            },
            Some(t) => t,
        };
        proof {
            lemma_pop_front_step(pre, ts, cur);
            assert(t@ == ts[cur]);
        }
        match t.token_kind {
            TokenKind::Integer | TokenKind::Bool | TokenKind::StringLiteral => {
                let node = Node::Literal(t);
                proof {
                    assert(node_views(args@.push(node)) =~= built.push(node@)) by {
                        lemma_node_views(args@.push(node));
                        lemma_node_views(args@);
                    }
                    match spec_parse_args(ts, cur + 1) {
                        Ok((rest, j)) => {
                            assert(built.push(node@) + rest =~= built + (seq![node@] + rest));
                        },
                        Err(e) => {},
                    }
                }
                args.push(node);
                proof {
                    cur = cur + 1;
                }
            },
            TokenKind::Symbol => {
                let node = Node::VariableCall(VariableCall { name: t });
                proof {
                    assert(node_views(args@.push(node)) =~= built.push(node@)) by {
                        lemma_node_views(args@.push(node));
                        lemma_node_views(args@);
                    }
                    match spec_parse_args(ts, cur + 1) {
                        Ok((rest, j)) => {
                            assert(built.push(node@) + rest =~= built + (seq![node@] + rest));
                        },
                        Err(e) => {},
                    }
                }
                args.push(node);
                proof {
                    cur = cur + 1;
                }
            },
            TokenKind::LeftRoundBracket => {
                let child = match parse_expression(tokens, Ghost(ts), Ghost(cur + 1)) {
                    Ok(c) => c,
                    Err(e) => {
                        return Err(e);
                    },
                };
                proof {
                    let j = ts.len() - token_views(tokens@).len();
                    lemma_parse_consumes(ts, cur + 1, 3);
                    assert(next_pos(ts, cur + 1, j) == j);
                    assert(node_views(args@.push(child)) =~= built.push(child@)) by {
                        lemma_node_views(args@.push(child));
                        lemma_node_views(args@);
                    }
                    match spec_parse_args(ts, j) {
                        Ok((rest, m)) => {
                            assert(built.push(child@) + rest =~= built + (seq![child@] + rest));
                        },
                        Err(e) => {},
                    }
                    cur = j;
                }
                args.push(child);
            },
            TokenKind::LeftSquareBracket => {
                let child = match parse_list(tokens, Ghost(ts), Ghost(cur + 1)) {
                    Ok(c) => c,
                    Err(e) => {
                        return Err(e);
                    },
                };
                proof {
                    let j = ts.len() - token_views(tokens@).len();
                    lemma_parse_consumes(ts, cur + 1, 0);
                    assert(next_pos(ts, cur + 1, j) == j);
                    assert(node_views(args@.push(child)) =~= built.push(child@)) by {
                        lemma_node_views(args@.push(child));
                        lemma_node_views(args@);
                    }
                    match spec_parse_args(ts, j) {
                        Ok((rest, m)) => {
                            assert(built.push(child@) + rest =~= built + (seq![child@] + rest));
                        },
                        Err(e) => {},
                    }
                    cur = j;
                }
                args.push(child);
            },
            TokenKind::RightRoundBracket => {
                let node = FunctionCall { name: name, arguments: args };
                proof {
                    assert(node_views(node.arguments@) + Seq::<NodeV>::empty() =~= node_views(
                        node.arguments@,
                    ));
                }
                return Ok(Node::FunctionCall(node));
            },
            _ => {
                return Err(ParseError::FunctionCallArg(t));
            },
        }
    }
}

/// The variable-definition production: a symbol name and one scalar value,
/// exactly as `spec_parse_variable_definition` names them at `i`.
fn parse_variable_definition(
    tokens: &mut Stack<Token>,
    Ghost(ts): Ghost<Seq<TokenV>>,
    Ghost(i): Ghost<int>,
) -> (r: Result<Node, ParseError>)
    requires
        0 <= i <= ts.len(),
        token_views(old(tokens)@) == ts.skip(i),
    ensures
        match r {
            Ok(node) => {
                let j = ts.len() - final(tokens)@.len();
                &&& i <= j <= ts.len()
                &&& spec_parse_variable_definition(ts, i) == Ok::<(NodeV, int), ParseErrorV>(
                    (node@, j),
                )
                &&& token_views(final(tokens)@) == ts.skip(j)
            },
            Err(e) => spec_parse_variable_definition(ts, i) == Err::<(NodeV, int), ParseErrorV>(
                e@,
            ),
        },
{
    let ghost pre = tokens@;
    let var_token = match tokens.pop_front() {
        None => {
            let rest = clone_tokens(tokens);
                proof {
                    assert(token_views(rest@) =~= Seq::<TokenV>::empty());
                }
                return Err(ParseError::StackError { name: "variable name", stack: rest });
        },
        Some(t) => t,
    };
    proof {
        lemma_pop_front_step(pre, ts, i);
        assert(var_token@ == ts[i]);
    }
    let is_symbol = match var_token.token_kind {
        TokenKind::Symbol => true,
        _ => false,
    };
    if !is_symbol {
        return Err(ParseError::VariableDefinition(var_token));
    }
    let ghost pre2 = tokens@;
    let value_token = match tokens.pop_front() {
        None => {
            let rest = clone_tokens(tokens);
                proof {
                    assert(token_views(rest@) =~= Seq::<TokenV>::empty());
                }
                return Err(ParseError::StackError { name: "variable value", stack: rest });
        },
        Some(t) => t,
    };
    proof {
        lemma_pop_front_step(pre2, ts, i + 1);
        assert(value_token@ == ts[i + 1]);
    }
    let is_scalar = match value_token.token_kind {
        TokenKind::Integer | TokenKind::Bool | TokenKind::StringLiteral => true,
        _ => false,
    };
    if !is_scalar {
        return Err(ParseError::VariableAssignment(value_token));
    }
    proof {
        let lit = Node::Literal(value_token);
        assert(node_view(&lit) == NodeV::Literal(value_token@));
    }
    Ok(
        Node::VariableDefinition(
            VariableDefinition {
                name: var_token,
                assignment: Box::new(Node::Literal(value_token)),
            },
        ),
    )
}

/// The function-definition production: name, parameter list, docstring and a
/// single-expression body, exactly as `spec_parse_function_definition` names
/// them at `i`.
fn parse_function_definition(
    tokens: &mut Stack<Token>,
    Ghost(ts): Ghost<Seq<TokenV>>,
    Ghost(i): Ghost<int>,
) -> (r: Result<Node, ParseError>)
    requires
        0 <= i <= ts.len(),
        token_views(old(tokens)@) == ts.skip(i),
    ensures
        match r {
            Ok(node) => {
                let j = ts.len() - final(tokens)@.len();
                &&& i <= j <= ts.len()
                &&& spec_parse_function_definition(ts, i) == Ok::<(NodeV, int), ParseErrorV>(
                    (node@, j),
                )
                &&& token_views(final(tokens)@) == ts.skip(j)
            },
            Err(e) => spec_parse_function_definition(ts, i) == Err::<(NodeV, int), ParseErrorV>(
                e@,
            ),
        },
    decreases ts.len() - i, 2int,
{
    let ghost pre = tokens@;
    let name = match tokens.pop_front() {
        None => {
            let rest = clone_tokens(tokens);
                proof {
                    assert(token_views(rest@) =~= Seq::<TokenV>::empty());
                }
                return Err(ParseError::StackError { name: "a function name", stack: rest });
        },
        Some(t) => t,
    };
    proof {
        lemma_pop_front_step(pre, ts, i);
        assert(name@ == ts[i]);
    }
    let is_symbol = match name.token_kind {
        TokenKind::Symbol => true,
        _ => false,
    };
    if !is_symbol {
        return Err(ParseError::FunctionName(name));
    }
    let ghost pre2 = tokens@;
    let left = match tokens.pop_front() {
        None => {
            let rest = clone_tokens(tokens);
                proof {
                    assert(token_views(rest@) =~= Seq::<TokenV>::empty());
                }
                return Err(ParseError::StackError { name: "the parameter list", stack: rest });
        },
        Some(t) => t,
    };
    proof {
        lemma_pop_front_step(pre2, ts, i + 1);
        assert(left@ == ts[i + 1]);
    }
    let is_left = match left.token_kind {
        TokenKind::LeftSquareBracket => true,
        _ => false,
    };
    if !is_left {
        return Err(ParseError::NoLeftBracket(left));
    }
    let mut parameters: Stack<Token> = Stack::new();
    let ghost mut cur: int = i + 2;
    proof {
        assert(token_views(parameters@) =~= Seq::<TokenV>::empty());
        match spec_parse_params(ts, cur) {
            Ok((rest, j)) => {
                assert(token_views(parameters@) + rest =~= rest);
            },
            Err(e) => {},
        }
    }
    loop
        invariant_except_break
            params_unfold(ts, i + 2, token_views(parameters@), cur),
        invariant
            0 <= i,
            i + 2 <= cur <= ts.len(),
            i + 1 < ts.len(),
            ts[i].token_kind == TokenKind::Symbol,
            ts[i + 1].token_kind == TokenKind::LeftSquareBracket,
            token_views(tokens@) == ts.skip(cur),
        ensures
            spec_parse_params(ts, i + 2) == Ok::<(Seq<TokenV>, int), ParseErrorV>(
                (token_views(parameters@), cur),
            ),
        decreases ts.len() - cur,
    {
        let ghost built = token_views(parameters@);
        let ghost pre3 = tokens@;
        let t = match tokens.pop_front() {
            None => {
                let rest = clone_tokens(tokens);
                    proof {
                        assert(token_views(rest@) =~= Seq::<TokenV>::empty());
                    }
                    return Err(ParseError::StackError { name: "closing bracket of the parameter list", stack: rest });
            },
            Some(t) => t,
        };
        proof {
            lemma_pop_front_step(pre3, ts, cur);
            assert(t@ == ts[cur]);
        }
        match t.token_kind {
            TokenKind::Symbol => {
                proof {
                    assert(token_views(parameters@.push(t)) =~= built.push(t@));
                    match spec_parse_params(ts, cur + 1) {
                        Ok((rest, j)) => {
                            assert(built.push(t@) + rest =~= built + (seq![t@] + rest));
                        },
                        Err(e) => {},
                    }
                }
                parameters.push(t);
                proof {
                    cur = cur + 1;
                }
            },
            TokenKind::RightSquareBracket => {
                proof {
                    assert(built + Seq::<TokenV>::empty() =~= built);
                    cur = cur + 1;
                }
                break ;
            },
            _ => {
                return Err(ParseError::FunctionParameter(t));
            },
        }
    }
    proof {
        assert(i + 2 <= cur <= ts.len());
    }
    let ghost pre4 = tokens@;
    let docstrings = match tokens.pop_front() {
        None => {
            let rest = clone_tokens(tokens);
            proof {
                assert(token_views(rest@) =~= Seq::<TokenV>::empty());
            }
            return Err(ParseError::StackError { name: "a docstring", stack: rest });
        },
        Some(t) => t,
    };
    proof {
        lemma_pop_front_step(pre4, ts, cur);
        assert(docstrings@ == ts[cur]);
    }
    let is_doc = match docstrings.token_kind {
        TokenKind::DocString => true,
        _ => false,
    };
    if !is_doc {
        return Err(ParseError::FunctionDocstring(docstrings));
    }
    let ghost pre5 = tokens@;
    let first_body = match tokens.pop_front() {
        None => {
            let rest = clone_tokens(tokens);
                proof {
                    assert(token_views(rest@) =~= Seq::<TokenV>::empty());
                }
                return Err(ParseError::StackError { name: "the function body", stack: rest });
        },
        Some(t) => t,
    };
    proof {
        lemma_pop_front_step(pre5, ts, cur + 1);
        assert(first_body@ == ts[cur + 1]);
    }
    let is_lrb = match first_body.token_kind {
        TokenKind::LeftRoundBracket => true,
        _ => false,
    };
    if !is_lrb {
        return Err(ParseError::FunctionBody(first_body));
    }
    let body_node = match parse_expression(tokens, Ghost(ts), Ghost(cur + 2)) {
        Ok(n) => n,
        Err(e) => {
            return Err(e);
        },
    };
    let mut body: Stack<Node> = Stack::new();
    body.push(body_node);
    let node = FunctionDefinition { name, parameters, docstrings, body };
    proof {
        assert(node_views(body@) =~= seq![body_node@]) by {
            lemma_node_views(body@);
        }
    }
    Ok(Node::FunctionDefinition(node))
}

/// The variable-call production: wraps a bare symbol as a variable read.
fn parse_var_call(token: Token) -> (r: Result<Node, ParseError>)
    ensures
        r matches Ok(node) && node@ == NodeV::VariableCall(VariableCallV { name: token@ }),
{
    Ok(Node::VariableCall(VariableCall { name: token }))
}

/// Parses exactly one top-level form from the token stream: the first
/// pending token picks the production, and tokens left over after the form
/// are an error. Returns or fails exactly as `spec_parse` names on the
/// stream's content.
pub fn parse(tokens: &mut Stack<Token>) -> (r: Result<Node, ParseError>)
    ensures
        match r {
            Ok(node) => spec_parse(token_views(old(tokens)@)) == Ok::<NodeV, ParseErrorV>(node@)
                && final(tokens)@.len() == 0,
            Err(e) => spec_parse(token_views(old(tokens)@)) == Err::<NodeV, ParseErrorV>(e@),
        },
{
    let ghost ts = token_views(old(tokens)@);
    proof {
        assert(token_views(old(tokens)@) =~= ts.skip(0));
    }
    let ghost pre = tokens@;
    let first = match tokens.pop_front() {
        None => {
            let rest = clone_tokens(tokens);
                proof {
                    assert(token_views(rest@) =~= Seq::<TokenV>::empty());
                }
                return Err(ParseError::StackError { name: "a top-level form", stack: rest });
        },
        Some(t) => t,
    };
    proof {
        lemma_pop_front_step(pre, ts, 0);
        assert(first@ == ts[0]);
    }
    let parsed = match first.token_kind {
        TokenKind::VariableDefinition => parse_variable_definition(tokens, Ghost(ts), Ghost(1)),
        TokenKind::LeftSquareBracket => parse_list(tokens, Ghost(ts), Ghost(1)),
        TokenKind::FunctionDefinition => parse_function_definition(tokens, Ghost(ts), Ghost(1)),
        TokenKind::LeftRoundBracket => parse_expression(tokens, Ghost(ts), Ghost(1)),
        TokenKind::Symbol => parse_var_call(first),
        _ => {
            return Err(ParseError::ParseError(first));
        },
    };
    let node = match parsed {
        Ok(n) => n,
        Err(e) => {
            return Err(e);
        },
    };
    if tokens.is_empty() {
        Ok(node)
    } else {
        let ghost j = ts.len() - tokens@.len();
        let ghost pre2 = tokens@;
        let extra = match tokens.pop_front() {
            None => {
                let rest = clone_tokens(tokens);
                    proof {
                        assert(token_views(rest@) =~= Seq::<TokenV>::empty());
                    }
                    return Err(ParseError::StackError { name: "a top-level form", stack: rest });
            },
            Some(t) => t,
        };
        proof {
            lemma_pop_front_step(pre2, ts, j);
            assert(extra@ == ts[j]);
        }
        Err(ParseError::ExtraTokens(extra))
    }
}

} // verus!
