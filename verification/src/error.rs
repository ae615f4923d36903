//! Structured errors for the lexer, the parser and the evaluator. Every
//! variant carries the offending token, so a driver can render a
//! source-anchored diagnostic.

use vstd::prelude::*;

use crate::stack::Stack;
use crate::token::{token_views, Token, TokenV};

verus! {

/// An error raised while turning source text into tokens.
#[derive(Debug)]
pub enum LexerError {
    /// A string literal stands where neither a string nor a docstring can:
    /// at the very start of the input.
    IncompleteStringError(Token),
    /// A keyword form that is none of the known keywords.
    KeywordError(Token),
    /// A word could not be taken off the input.
    ExtractWordError(Token),
}

/// Mathematical model of a lexer error.
pub enum LexerErrorV {
    IncompleteStringError(TokenV),
    KeywordError(TokenV),
    ExtractWordError(TokenV),
}

impl View for LexerError {
    type V = LexerErrorV;

    open spec fn view(&self) -> LexerErrorV {
        match self {
            LexerError::IncompleteStringError(t) => LexerErrorV::IncompleteStringError(t@),
            LexerError::KeywordError(t) => LexerErrorV::KeywordError(t@),
            LexerError::ExtractWordError(t) => LexerErrorV::ExtractWordError(t@),
        }
    }
}

/// An error raised while shaping tokens into an expression tree.
#[derive(Debug)]
pub enum ParseError {
    /// The token stream ran out where a production still expected `name`.
    StackError { name: &'static str, stack: Stack<Token> },
    /// A variable definition whose name is not a symbol.
    VariableDefinition(Token),
    /// A variable definition whose value is not an integer, boolean or string.
    VariableAssignment(Token),
    /// A list element that is not a scalar or a nested list.
    ListDefinition(Token),
    /// A function definition whose name is not a symbol.
    FunctionName(Token),
    /// A function definition without a bracket to open its parameter list.
    NoLeftBracket(Token),
    /// A parameter that is not a symbol.
    FunctionParameter(Token),
    /// A function definition without a docstring after its parameter list.
    FunctionDocstring(Token),
    /// A function body that does not start with a round bracket.
    FunctionBody(Token),
    /// A variable reference that is not a symbol.
    VariableCall(Token),
    /// A call whose callee is not a symbol.
    FunctionCallName(Token),
    /// A call argument of an unusable token kind.
    FunctionCallArg(Token),
    /// A token kind that opens no production at the top level.
    ParseError(Token),
    /// Tokens left over after one complete top-level form.
    ExtraTokens(Token),
}

/// Mathematical model of a parse error.
pub enum ParseErrorV {
    StackError { name: Seq<char>, stack: Seq<TokenV> },
    VariableDefinition(TokenV),
    VariableAssignment(TokenV),
    ListDefinition(TokenV),
    FunctionName(TokenV),
    NoLeftBracket(TokenV),
    FunctionParameter(TokenV),
    FunctionDocstring(TokenV),
    FunctionBody(TokenV),
    VariableCall(TokenV),
    FunctionCallName(TokenV),
    FunctionCallArg(TokenV),
    ParseError(TokenV),
    ExtraTokens(TokenV),
}

impl View for ParseError {
    type V = ParseErrorV;

    open spec fn view(&self) -> ParseErrorV {
        match self {
            ParseError::StackError { name, stack } => ParseErrorV::StackError {
                name: name@,
                stack: token_views(stack@),
            },
            ParseError::VariableDefinition(t) => ParseErrorV::VariableDefinition(t@),
            ParseError::VariableAssignment(t) => ParseErrorV::VariableAssignment(t@),
            ParseError::ListDefinition(t) => ParseErrorV::ListDefinition(t@),
            ParseError::FunctionName(t) => ParseErrorV::FunctionName(t@),
            ParseError::NoLeftBracket(t) => ParseErrorV::NoLeftBracket(t@),
            ParseError::FunctionParameter(t) => ParseErrorV::FunctionParameter(t@),
            ParseError::FunctionDocstring(t) => ParseErrorV::FunctionDocstring(t@),
            ParseError::FunctionBody(t) => ParseErrorV::FunctionBody(t@),
            ParseError::VariableCall(t) => ParseErrorV::VariableCall(t@),
            ParseError::FunctionCallName(t) => ParseErrorV::FunctionCallName(t@),
            ParseError::FunctionCallArg(t) => ParseErrorV::FunctionCallArg(t@),
            ParseError::ParseError(t) => ParseErrorV::ParseError(t@),
            ParseError::ExtraTokens(t) => ParseErrorV::ExtraTokens(t@),
        }
    }
}

/// An error raised while evaluating an expression tree.
#[derive(Debug)]
pub enum EvalError {
    /// A variable read whose name is bound to nothing.
    Variable(Token),
    /// A callee that is neither a built-in operation nor a defined function.
    SymbolError(Token),
    /// A call whose argument count differs from the parameter count.
    Parameter(Token),
    /// An operand of a built-in operation that is not an integer.
    Integer(Token),
    /// A comparison with fewer than two operands.
    Operands(Token),
    /// A division whose divisor is zero.
    DivisionByZero(Token),
    /// An arithmetic step whose result does not fit in an integer.
    Overflow(Token),
    /// A conditional whose condition is not a boolean.
    Condition(Token),
    /// A node kind that evaluation does not support.
    Node(Token),
    /// Nesting of calls and variable resolutions deeper than the evaluator
    /// follows.
    Depth(Token),
}

/// Mathematical model of an evaluation error.
pub enum EvalErrorV {
    Variable(TokenV),
    SymbolError(TokenV),
    Parameter(TokenV),
    Integer(TokenV),
    Operands(TokenV),
    DivisionByZero(TokenV),
    Overflow(TokenV),
    Condition(TokenV),
    Node(TokenV),
    Depth(TokenV),
}

impl View for EvalError {
    type V = EvalErrorV;

    open spec fn view(&self) -> EvalErrorV {
        match self {
            EvalError::Variable(t) => EvalErrorV::Variable(t@),
            EvalError::SymbolError(t) => EvalErrorV::SymbolError(t@),
            EvalError::Parameter(t) => EvalErrorV::Parameter(t@),
            EvalError::Integer(t) => EvalErrorV::Integer(t@),
            EvalError::Operands(t) => EvalErrorV::Operands(t@),
            EvalError::DivisionByZero(t) => EvalErrorV::DivisionByZero(t@),
            EvalError::Overflow(t) => EvalErrorV::Overflow(t@),
            EvalError::Condition(t) => EvalErrorV::Condition(t@),
            EvalError::Node(t) => EvalErrorV::Node(t@),
            EvalError::Depth(t) => EvalErrorV::Depth(t@),
        }
    }
}

} // verus!
