//! The expression tree: a closed set of node variants for literals, variable
//! reads and writes, function calls and definitions, lists and conditionals.
//! Every node owns its children outright; cloning a node deep-clones its
//! subtree.

use vstd::prelude::*;

use crate::stack::Stack;
use crate::token::{token_views, Token, TokenV};

verus! {

/// A user function: its name, parameter names, docstring, and unevaluated body.
#[derive(Debug)]
pub struct FunctionDefinition {
    pub name: Token,
    pub parameters: Stack<Token>,
    pub docstrings: Token,
    pub body: Stack<Node>,
}

/// A conditional: a condition and the two branch expressions.
#[derive(Debug)]
pub struct Conditional {
    pub condition: Box<Node>,
    pub true_expression: Box<Node>,
    pub false_expression: Box<Node>,
}

/// A binding of a name to an assignment expression.
#[derive(Debug)]
pub struct VariableDefinition {
    pub name: Token,
    pub assignment: Box<Node>,
}

/// A call: a callee name and the ordered argument expressions.
#[derive(Debug)]
pub struct FunctionCall {
    pub name: Token,
    pub arguments: Stack<Node>,
}

/// A symbol reference, resolved against the environment at evaluation time.
#[derive(Debug)]
pub struct VariableCall {
    pub name: Token,
}

/// An ordered sequence of element expressions.
#[derive(Debug)]
pub struct List {
    pub data: Stack<Node>,
}

/// A commentary token, optionally attached to code.
#[derive(Debug)]
pub struct Documentation {
    pub commentary: Token,
    pub code: Option<Stack<Node>>,
}

/// One node of the expression tree.
#[derive(Debug)]
pub enum Node {
    FunctionDefinition(FunctionDefinition),
    Conditional(Conditional),
    VariableDefinition(VariableDefinition),
    FunctionCall(FunctionCall),
    Literal(Token),
    VariableCall(VariableCall),
    List(List),
    Documentation(Documentation),
}

/// Mathematical model of a function definition.
#[verifier::ext_equal]
pub struct FunctionDefinitionV {
    pub name: TokenV,
    pub parameters: Seq<TokenV>,
    pub docstrings: TokenV,
    pub body: Seq<NodeV>,
}

/// Mathematical model of a conditional.
#[verifier::ext_equal]
pub struct ConditionalV {
    pub condition: Box<NodeV>,
    pub true_expression: Box<NodeV>,
    pub false_expression: Box<NodeV>,
}

/// Mathematical model of a variable definition.
#[verifier::ext_equal]
pub struct VariableDefinitionV {
    pub name: TokenV,
    pub assignment: Box<NodeV>,
}

/// Mathematical model of a function call.
#[verifier::ext_equal]
pub struct FunctionCallV {
    pub name: TokenV,
    pub arguments: Seq<NodeV>,
}

/// Mathematical model of a variable read.
#[verifier::ext_equal]
pub struct VariableCallV {
    pub name: TokenV,
}

/// Mathematical model of a list.
#[verifier::ext_equal]
pub struct ListV {
    pub data: Seq<NodeV>,
}

/// Mathematical model of a documentation node.
#[verifier::ext_equal]
pub struct DocumentationV {
    pub commentary: TokenV,
    pub code: Option<Seq<NodeV>>,
}

/// Mathematical model of an expression-tree node.
#[verifier::ext_equal]
pub enum NodeV {
    FunctionDefinition(FunctionDefinitionV),
    Conditional(ConditionalV),
    VariableDefinition(VariableDefinitionV),
    FunctionCall(FunctionCallV),
    Literal(TokenV),
    VariableCall(VariableCallV),
    List(ListV),
    Documentation(DocumentationV),
}

/// The model of one node.
pub open spec fn node_view(n: &Node) -> NodeV
    decreases n,
{
    match n {
        Node::FunctionDefinition(fd) => NodeV::FunctionDefinition(FunctionDefinitionV {
            name: fd.name@,
            parameters: fd.parameters@.map_values(|t: Token| t@),
            docstrings: fd.docstrings@,
            body: node_views(fd.body@),
        }),
        Node::Conditional(c) => NodeV::Conditional(ConditionalV {
            condition: Box::new(node_view(&*c.condition)),
            true_expression: Box::new(node_view(&*c.true_expression)),
            false_expression: Box::new(node_view(&*c.false_expression)),
        }),
        Node::VariableDefinition(vd) => NodeV::VariableDefinition(VariableDefinitionV {
            name: vd.name@,
            assignment: Box::new(node_view(&*vd.assignment)),
        }),
        Node::FunctionCall(fc) => NodeV::FunctionCall(FunctionCallV {
            name: fc.name@,
            arguments: node_views(fc.arguments@),
        }),
        Node::Literal(t) => NodeV::Literal(t@),
        Node::VariableCall(vc) => NodeV::VariableCall(VariableCallV { name: vc.name@ }),
        Node::List(l) => NodeV::List(ListV { data: node_views(l.data@) }),
        Node::Documentation(d) => NodeV::Documentation(DocumentationV {
            commentary: d.commentary@,
            code: match &d.code {
                Some(s) => Some(node_views(s@)),
                None => None,
            },
        }),
    }
}

/// The models of a sequence of nodes, in order.
pub open spec fn node_views(s: Seq<Node>) -> Seq<NodeV>
    decreases s,
{
    if s.len() == 0 {
        Seq::empty()
    } else {
        seq![node_view(&s[0])] + node_views(s.drop_first())
    }
}

/// `node_views` maps the model of each element in place.
pub broadcast proof fn lemma_node_views(s: Seq<Node>)
    ensures
        (#[trigger] node_views(s)).len() == s.len(),
        forall|i: int| 0 <= i < s.len() ==> node_views(s)[i] == node_view(&s[i]),
    decreases s.len(),
{
    if s.len() > 0 {
        lemma_node_views(s.drop_first());
    }
}

impl View for Node {
    type V = NodeV;

    open spec fn view(&self) -> NodeV {
        node_view(self)
    }
}

impl View for FunctionDefinition {
    type V = FunctionDefinitionV;

    open spec fn view(&self) -> FunctionDefinitionV {
        FunctionDefinitionV {
            name: self.name@,
            parameters: self.parameters@.map_values(|t: Token| t@),
            docstrings: self.docstrings@,
            body: node_views(self.body@),
        }
    }
}

impl View for VariableDefinition {
    type V = VariableDefinitionV;

    open spec fn view(&self) -> VariableDefinitionV {
        VariableDefinitionV { name: self.name@, assignment: Box::new(self.assignment@) }
    }
}

impl View for FunctionCall {
    type V = FunctionCallV;

    open spec fn view(&self) -> FunctionCallV {
        FunctionCallV { name: self.name@, arguments: node_views(self.arguments@) }
    }
}

impl View for Conditional {
    type V = ConditionalV;

    open spec fn view(&self) -> ConditionalV {
        ConditionalV {
            condition: Box::new(node_view(&*self.condition)),
            true_expression: Box::new(node_view(&*self.true_expression)),
            false_expression: Box::new(node_view(&*self.false_expression)),
        }
    }
}

impl View for VariableCall {
    type V = VariableCallV;

    open spec fn view(&self) -> VariableCallV {
        VariableCallV { name: self.name@ }
    }
}

impl View for List {
    type V = ListV;

    open spec fn view(&self) -> ListV {
        ListV { data: node_views(self.data@) }
    }
}

impl View for Documentation {
    type V = DocumentationV;

    open spec fn view(&self) -> DocumentationV {
        DocumentationV {
            commentary: self.commentary@,
            code: match &self.code {
                Some(s) => Some(node_views(s@)),
                None => None,
            },
        }
    }
}

/// Deep-clones a stack of tokens, keeping each token's content.
pub fn clone_tokens(s: &Stack<Token>) -> (r: Stack<Token>)
    ensures
        token_views(r@) == token_views(s@),
{
    let mut r: Stack<Token> = Stack::new();
    let n = s.data.len();
    let mut i: usize = 0;
    while i < n
        invariant
            n == s.data@.len(),
            i <= n,
            r.data@.len() == i,
            forall|j: int| 0 <= j < i ==> r.data@[j]@ == s.data@[j]@,
        decreases n - i,
    {
        r.push(s.data[i].clone());
        i += 1;
    }
    proof {
        assert(token_views(r@) =~= token_views(s@));
    }
    r
}

/// Deep-clones a stack of nodes, keeping each subtree's content.
pub fn clone_nodes(s: &Stack<Node>) -> (r: Stack<Node>)
    ensures
        node_views(r@) == node_views(s@),
    decreases *s,
{
    let mut r: Stack<Node> = Stack::new();
    let n = s.data.len();
    let mut i: usize = 0;
    while i < n
        invariant
            n == s.data@.len(),
            i <= n,
            r.data@.len() == i,
            forall|j: int| 0 <= j < i ==> node_view(&r.data@[j]) == node_view(&s.data@[j]),
        decreases n - i,
    {
        r.push(s.data[i].clone());
        i += 1;
    }
    proof {
        lemma_node_views(r@);
        lemma_node_views(s@);
        assert(node_views(r@) =~= node_views(s@));
    }
    r
}

impl Clone for FunctionDefinition {
    /// A cloned definition has the same content as the original.
    fn clone(&self) -> (r: Self)
        ensures
            r@ == self@,
        decreases *self,
    {
        let r = FunctionDefinition {
            name: self.name.clone(),
            parameters: clone_tokens(&self.parameters),
            docstrings: self.docstrings.clone(),
            body: clone_nodes(&self.body),
        };
        proof {
            assert(r@ =~= self@);
        }
        r
    }
}

impl Clone for Conditional {
    /// A cloned conditional has the same content as the original.
    fn clone(&self) -> (r: Self)
        ensures
            r@ == self@,
        decreases *self,
    {
        let r = Conditional {
            condition: Box::new((&*self.condition).clone()),
            true_expression: Box::new((&*self.true_expression).clone()),
            false_expression: Box::new((&*self.false_expression).clone()),
        };
        proof {
            assert(r@ =~= self@);
        }
        r
    }
}

impl Clone for VariableDefinition {
    /// A cloned binding has the same content as the original.
    fn clone(&self) -> (r: Self)
        ensures
            r@ == self@,
        decreases *self,
    {
        let r = VariableDefinition {
            name: self.name.clone(),
            assignment: Box::new((&*self.assignment).clone()),
        };
        proof {
            assert(r@ =~= self@);
        }
        r
    }
}

impl Clone for FunctionCall {
    /// A cloned call has the same content as the original.
    fn clone(&self) -> (r: Self)
        ensures
            r@ == self@,
        decreases *self,
    {
        let r = FunctionCall { name: self.name.clone(), arguments: clone_nodes(&self.arguments) };
        proof {
            assert(r@ =~= self@);
        }
        r
    }
}

impl Clone for VariableCall {
    /// A cloned reference has the same content as the original.
    fn clone(&self) -> (r: Self)
        ensures
            r@ == self@,
    {
        VariableCall { name: self.name.clone() }
    }
}

impl Clone for List {
    /// A cloned list has the same content as the original.
    fn clone(&self) -> (r: Self)
        ensures
            r@ == self@,
        decreases *self,
    {
        let r = List { data: clone_nodes(&self.data) };
        proof {
            assert(r@ =~= self@);
        }
        r
    }
}

impl Clone for Documentation {
    /// A cloned documentation node has the same content as the original.
    fn clone(&self) -> (r: Self)
        ensures
            r@ == self@,
        decreases *self,
    {
        let r = Documentation {
            commentary: self.commentary.clone(),
            code: match &self.code {
                Some(s) => Some(clone_nodes(s)),
                None => None,
            },
        };
        proof {
            assert(r@ =~= self@);
        }
        r
    }
}

impl Clone for Node {
    /// A cloned node has the same content as the original, down the whole subtree.
    fn clone(&self) -> (r: Self)
        ensures
            r@ == self@,
        decreases *self,
    {
        match self {
            Node::FunctionDefinition(fd) => Node::FunctionDefinition(fd.clone()),
            Node::Conditional(c) => Node::Conditional(c.clone()),
            Node::VariableDefinition(vd) => Node::VariableDefinition(vd.clone()),
            Node::FunctionCall(fc) => Node::FunctionCall(fc.clone()),
            Node::Literal(t) => Node::Literal(t.clone()),
            Node::VariableCall(vc) => Node::VariableCall(vc.clone()),
            Node::List(l) => Node::List(l.clone()),
            Node::Documentation(d) => Node::Documentation(d.clone()),
        }
    }
}

} // verus!
