//! The binding environment: a name-to-definition map for functions and one
//! for variables. Keys are unique in the model and the last write wins. A new
//! local environment is made for every function call by cloning the function
//! table and starting from empty variables.

use vstd::prelude::*;

use crate::ast::{FunctionDefinition, FunctionDefinitionV, VariableDefinition, VariableDefinitionV};
use crate::token::str_eq;

verus! {

/// A name-to-value map, kept as the sequence of writes: a later entry for
/// the same name shadows an earlier one. Its view is the finite map the
/// writes build up.
#[derive(Debug)]
pub struct NameMap<V> {
    pub data: Vec<(String, V)>,
}

/// The map that a write sequence builds up: later writes win.
pub open spec fn assoc_view<V: View>(s: Seq<(String, V)>) -> Map<Seq<char>, V::V>
    decreases s.len(),
{
    if s.len() == 0 {
        Map::empty()
    } else {
        assoc_view(s.drop_last()).insert(s.last().0@, s.last().1@)
    }
}

impl<V: View> View for NameMap<V> {
    type V = Map<Seq<char>, <V as View>::V>;

    open spec fn view(&self) -> Map<Seq<char>, <V as View>::V> {
        assoc_view(self.data@)
    }
}

/// An entry whose name recurs in no later entry gives the map's value at
/// that name.
proof fn lemma_assoc_view_at<V: View>(s: Seq<(String, V)>, i: int)
    requires
        0 <= i < s.len(),
        forall|j: int| i < j < s.len() ==> s[j].0@ != s[i].0@,
    ensures
        assoc_view(s).contains_key(s[i].0@),
        assoc_view(s)[s[i].0@] == s[i].1@,
    decreases s.len(),
{
    if i < s.len() - 1 {
        assert(s.drop_last()[i] == s[i]);
        lemma_assoc_view_at(s.drop_last(), i);
    }
}

/// A name that no entry carries is not in the map.
proof fn lemma_assoc_view_absent<V: View>(s: Seq<(String, V)>, k: Seq<char>)
    requires
        forall|j: int| 0 <= j < s.len() ==> s[j].0@ != k,
    ensures
        !assoc_view(s).contains_key(k),
    decreases s.len(),
{
    if s.len() > 0 {
        lemma_assoc_view_absent(s.drop_last(), k);
    }
}

/// Write sequences with the same names and values in the same order build
/// the same map.
proof fn lemma_assoc_view_congruent<V: View>(a: Seq<(String, V)>, b: Seq<(String, V)>)
    requires
        a.len() == b.len(),
        forall|i: int| 0 <= i < a.len() ==> #[trigger] a[i].0@ == b[i].0@ && a[i].1@ == b[i].1@,
    ensures
        assoc_view(a) == assoc_view(b),
    decreases a.len(),
{
    if a.len() > 0 {
        assert(forall|i: int|
            0 <= i < a.len() - 1 ==> #[trigger] a.drop_last()[i].0@ == b.drop_last()[i].0@
                && a.drop_last()[i].1@ == b.drop_last()[i].1@) by {
            assert(forall|i: int|
                0 <= i < a.len() - 1 ==> a.drop_last()[i] == a[i] && b.drop_last()[i] == b[i]);
        }
        lemma_assoc_view_congruent(a.drop_last(), b.drop_last());
        assert(a.last().0@ == b.last().0@ && a.last().1@ == b.last().1@);
    }
}

impl<V: View> NameMap<V> {
    /// Makes an empty map.
    pub fn new() -> (r: Self)
        ensures
            r@ == Map::<Seq<char>, <V as View>::V>::empty(),
    {
        let r = NameMap { data: Vec::new() };
        proof {
            assert(r.data@.len() == 0);
        }
        r
    }

    /// Binds a name to a value; an earlier binding of the name is shadowed.
    pub fn insert(&mut self, key: String, value: V)
        ensures
            final(self)@ == old(self)@.insert(key@, value@),
    {
        proof {
            let pre = self.data@;
            assert(pre.push((key, value)).drop_last() =~= pre);
        }
        self.data.push((key, value));
    }

    /// Looks a name up: the map's value at it, or `None` when it is unbound.
    pub fn get(&self, key: &str) -> (r: Option<&V>)
        ensures
            match r {
                Some(v) => self@.contains_key(key@) && v@ == self@[key@],
                None => !self@.contains_key(key@),
            },
    {
        let n = self.data.len();
        let mut i: usize = n;
        while i > 0
            invariant
                i <= n,
                n == self.data@.len(),
                forall|j: int| i <= j < n ==> self.data@[j].0@ != key@,
            decreases i,
        {
            i -= 1;
            if str_eq(self.data[i].0.as_str(), key) {
                proof {
                    lemma_assoc_view_at(self.data@, i as int);
                }
                return Some(&self.data[i].1);
            }
        }
        proof {
            lemma_assoc_view_absent(self.data@, key@);
        }
        None
    }

    /// The name is bound in the map.
    pub fn contains_key(&self, key: &str) -> (r: bool)
        ensures
            r == self@.contains_key(key@),
    {
        match self.get(key) {
            Some(_) => true,
            None => false,
        }
    }
}

/// Copies a function table, keeping every binding.
pub fn dup_functions(m: &NameMap<FunctionDefinition>) -> (r: NameMap<FunctionDefinition>)
    ensures
        r@ == m@,
{
    let mut data: Vec<(String, FunctionDefinition)> = Vec::new();
    let n = m.data.len();
    let mut i: usize = 0;
    while i < n
        invariant
            i <= n,
            n == m.data@.len(),
            data@.len() == i,
            forall|j: int|
                0 <= j < i ==> #[trigger] data@[j].0@ == m.data@[j].0@ && data@[j].1@
                    == m.data@[j].1@,
        decreases n - i,
    {
        let key = m.data[i].0.clone();
        let value = m.data[i].1.clone();
        data.push((key, value));
        i += 1;
    }
    let r = NameMap { data };
    proof {
        lemma_assoc_view_congruent(r.data@, m.data@);
    }
    r
}

/// Copies a variable table, keeping every binding.
pub fn dup_variables(m: &NameMap<VariableDefinition>) -> (r: NameMap<VariableDefinition>)
    ensures
        r@ == m@,
{
    let mut data: Vec<(String, VariableDefinition)> = Vec::new();
    let n = m.data.len();
    let mut i: usize = 0;
    while i < n
        invariant
            i <= n,
            n == m.data@.len(),
            data@.len() == i,
            forall|j: int|
                0 <= j < i ==> #[trigger] data@[j].0@ == m.data@[j].0@ && data@[j].1@
                    == m.data@[j].1@,
        decreases n - i,
    {
        let key = m.data[i].0.clone();
        let value = m.data[i].1.clone();
        data.push((key, value));
        i += 1;
    }
    let r = NameMap { data };
    proof {
        lemma_assoc_view_congruent(r.data@, m.data@);
    }
    r
}

/// The mutable binding environment: the function table and the variable
/// table.
#[derive(Debug)]
pub struct Environment {
    pub functions: NameMap<FunctionDefinition>,
    pub variables: NameMap<VariableDefinition>,
}

/// Mathematical model of an environment.
#[verifier::ext_equal]
pub struct EnvironmentV {
    pub functions: Map<Seq<char>, FunctionDefinitionV>,
    pub variables: Map<Seq<char>, VariableDefinitionV>,
}

impl View for Environment {
    type V = EnvironmentV;

    open spec fn view(&self) -> EnvironmentV {
        EnvironmentV { functions: self.functions@, variables: self.variables@ }
    }
}

impl Environment {
    /// Makes an environment with no functions and no variables.
    pub fn new() -> (r: Self)
        ensures
            r@.functions == Map::<Seq<char>, FunctionDefinitionV>::empty(),
            r@.variables == Map::<Seq<char>, VariableDefinitionV>::empty(),
    {
        Environment { functions: NameMap::new(), variables: NameMap::new() }
    }
}

impl Clone for Environment {
    /// A cloned environment has the same bindings as the original.
    fn clone(&self) -> (r: Self)
        ensures
            r@ == self@,
    {
        let r = Environment {
            functions: dup_functions(&self.functions),
            variables: dup_variables(&self.variables),
        };
        proof {
            assert(r@ =~= self@);
        }
        r
    }
}

} // verus!
