//! Interactive evaluation: one line at a time against a persistent
//! environment, with `exit` and `quit` (after trimming whitespace) as the
//! termination sentinel. Reading lines and printing stay with the caller.

use vstd::prelude::*;

use crate::env::Environment;
use crate::eval::{EvalResult, EvalResultV};
use crate::file::{run_source, spec_run_source, RunError, RunErrorV};
use crate::lexer::is_space;
use crate::token::str_eq;
use vstd::string::StrSliceExecFns;

verus! {

/// The index of the first non-whitespace character at or after `i`, or the
/// length when there is none.
pub open spec fn first_dark(s: Seq<char>, i: int) -> int
    decreases s.len() - i,
{
    if !(0 <= i < s.len()) {
        s.len() as int
    } else if is_space(s[i]) {
        first_dark(s, i + 1)
    } else {
        i
    }
}

/// The index one past the last non-whitespace character at or before `j - 1`,
/// or zero when there is none.
pub open spec fn last_dark(s: Seq<char>, j: int) -> int
    decreases j,
{
    if j <= 0 || j > s.len() {
        0
    } else if is_space(s[j - 1]) {
        last_dark(s, j - 1)
    } else {
        j
    }
}

/// The text with leading and trailing whitespace removed.
pub open spec fn spec_trim(s: Seq<char>) -> Seq<char> {
    let a = first_dark(s, 0);
    let b = last_dark(s, s.len() as int);
    if a <= b {
        s.subrange(a, b)
    } else {
        Seq::empty()
    }
}

proof fn lemma_first_dark(s: Seq<char>, i: int)
    requires
        0 <= i <= s.len(),
    ensures
        i <= first_dark(s, i) <= s.len(),
    decreases s.len() - i,
{
    if i < s.len() && is_space(s[i]) {
        lemma_first_dark(s, i + 1);
    }
}

proof fn lemma_last_dark(s: Seq<char>, j: int)
    requires
        0 <= j <= s.len(),
    ensures
        0 <= last_dark(s, j) <= j,
    decreases j,
{
    if 0 < j <= s.len() && is_space(s[j - 1]) {
        lemma_last_dark(s, j - 1);
    }
}

/// The line is the termination sentinel: `exit` or `quit` once trimmed.
pub open spec fn is_exit_line(s: Seq<char>) -> bool {
    spec_trim(s) == "exit"@ || spec_trim(s) == "quit"@
}

/// Recognises the termination sentinel.
pub fn is_exit(line: &str) -> (r: bool)
    ensures
        r == is_exit_line(line@),
{
    let n = line.unicode_len();
    let mut a: usize = 0;
    while a < n && char_is_space_at(line, a)
        invariant
            a <= n,
            n == line@.len(),
            first_dark(line@, 0) == first_dark(line@, a as int),
        decreases n - a,
    {
        a += 1;
    }
    proof {
        assert(first_dark(line@, 0) == a);
    }
    let mut b: usize = n;
    while b > 0 && char_is_space_at(line, b - 1)
        invariant
            b <= n,
            n == line@.len(),
            last_dark(line@, n as int) == last_dark(line@, b as int),
        decreases b,
    {
        b -= 1;
    }
    proof {
        assert(last_dark(line@, n as int) == b);
    }
    if a > b {
        proof {
            reveal_strlit("exit");
            reveal_strlit("quit");
            assert("exit"@.len() == 4);
            assert("quit"@.len() == 4);
            assert(spec_trim(line@).len() == 0);
        }
        return false;
    }
    let trimmed = line.substring_char(a, b);
    proof {
        assert(trimmed@ == spec_trim(line@));
    }
    str_eq(trimmed, "exit") || str_eq(trimmed, "quit")
}

/// Whether the character at an index is whitespace.
fn char_is_space_at(s: &str, i: usize) -> (r: bool)
    requires
        i < s@.len(),
    ensures
        r == is_space(s@[i as int]),
{
    let c = s.get_char(i);
    let v = c as u32;
    v == 32 || v == 9 || v == 10 || v == 13 || v == 11 || v == 12 || v == 0x85 || v == 0xA0 || v
        == 0x1680 || (0x2000 <= v && v <= 0x200A) || v == 0x2028 || v == 0x2029 || v == 0x202F || v
        == 0x205F || v == 0x3000
}

/// An interactive session: one environment that lives across lines.
#[derive(Debug)]
pub struct Repl {
    pub state: Environment,
}

impl Repl {
    /// Starts a session with an empty environment.
    pub fn new() -> (r: Self)
        ensures
            r.state@.functions == Map::<Seq<char>, crate::ast::FunctionDefinitionV>::empty(),
            r.state@.variables == Map::<Seq<char>, crate::ast::VariableDefinitionV>::empty(),
    {
        Repl { state: Environment::new() }
    }

    /// Handles one input line: `Ok(None)` on the termination sentinel,
    /// otherwise the line is scanned, parsed and evaluated against the
    /// session's environment.
    pub fn eval_line(&mut self, line: &String, namespace: &String) -> (r: Result<
        Option<EvalResult>,
        RunError,
    >)
        ensures
            is_exit_line(line@) ==> (r matches Ok(v) && v is None && final(self).state@ == old(
                self,
            ).state@),
            !is_exit_line(line@) ==> ({
                let (sr, se) = spec_run_source(line@, namespace@, old(self).state@);
                &&& final(self).state@ == se
                &&& match r {
                    Ok(v) => v matches Some(v) && sr == Ok::<EvalResultV, RunErrorV>(v@),
                    Err(e) => sr == Err::<EvalResultV, RunErrorV>(e@),
                }
            }),
    {
        if is_exit(line.as_str()) {
            return Ok(None);
        }
        match run_source(&mut self.state, line, namespace) {
            Ok(v) => Ok(Some(v)),
            Err(e) => Err(e),
        }
    }
}

} // verus!
