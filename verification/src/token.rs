//! Lexical tokens: a tagged text fragment together with its source position.

use vstd::prelude::*;
use vstd::string::StrSliceExecFns;

verus! {

/// The lexical kind of a token.
#[derive(Debug, Clone, Copy, PartialEq, Eq, Structural)]
pub enum TokenKind {
    Space,
    Comment,
    Integer,
    Symbol,
    StringLiteral,
    Bool,
    Conditional,
    LeftRoundBracket,
    RightRoundBracket,
    LeftSquareBracket,
    RightSquareBracket,
    FunctionDefinition,
    VariableDefinition,
    DocString,
    Error,
    Eof,
}

/// One lexical token: its literal text, its kind, and where it stands in the
/// source (row, column offset, length, and the source-unit name).
#[derive(Debug)]
pub struct Token {
    pub token: String,
    pub token_kind: TokenKind,
    pub row: usize,
    pub offset: usize,
    pub length: usize,
    pub namespace: String,
}

/// The mathematical content of a token: the same fields over sequences and
/// unbounded integers.
pub struct TokenV {
    pub token: Seq<char>,
    pub token_kind: TokenKind,
    pub row: nat,
    pub offset: nat,
    pub length: nat,
    pub namespace: Seq<char>,
}

impl View for Token {
    type V = TokenV;

    open spec fn view(&self) -> TokenV {
        TokenV {
            token: self.token@,
            token_kind: self.token_kind,
            row: self.row as nat,
            offset: self.offset as nat,
            length: self.length as nat,
            namespace: self.namespace@,
        }
    }
}

impl Clone for Token {
    /// A cloned token has the same content as the original.
    fn clone(&self) -> (r: Self)
        ensures
            r@ == self@,
    {
        Token {
            token: self.token.clone(),
            token_kind: self.token_kind,
            row: self.row,
            offset: self.offset,
            length: self.length,
            namespace: self.namespace.clone(),
        }
    }
}

impl Token {
    /// Builds a token from its text, kind and source position.
    pub fn new(token: &str, token_kind: TokenKind, row: usize, offset: usize, length: usize, namespace: &String) -> (r: Self)
        ensures
            r@ == (TokenV {
                token: token@,
                token_kind: token_kind,
                row: row as nat,
                offset: offset as nat,
                length: length as nat,
                namespace: namespace@,
            }),
    {
        Self {
            token: token.to_owned(),
            token_kind,
            row,
            offset,
            length,
            namespace: namespace.clone(),
        }
    }
}

/// The views of a sequence of tokens, in order.
pub open spec fn token_views(s: Seq<Token>) -> Seq<TokenV> {
    s.map_values(|t: Token| t@)
}

/// `token_views` keeps the length.
pub broadcast proof fn lemma_token_views_len(s: Seq<Token>)
    ensures
        (#[trigger] token_views(s)).len() == s.len(),
{
}

/// Compares two strings by content.
pub fn str_eq(a: &str, b: &str) -> (r: bool)
    ensures
        r == (a@ == b@),
{
    let n = a.unicode_len();
    let m = b.unicode_len();
    if n != m {
        return false;
    }
    let mut i: usize = 0;
    while i < n
        invariant
            n == a@.len(),
            n == b@.len(),
            i <= n,
            forall|k: int| 0 <= k < i ==> a@[k] == b@[k],
        decreases n - i,
    {
        if a.get_char(i) != b.get_char(i) {
            return false;
        }
        i += 1;
    }
    proof {
        assert(a@ =~= b@);
    }
    true
}

/// `token_views` maps the view of each element in place.
pub broadcast proof fn lemma_token_views_index(s: Seq<Token>, i: int)
    requires
        0 <= i < s.len(),
    ensures
        #[trigger] token_views(s)[i] == s[i]@,
{
}

} // verus!
