//! The built-in operations: arithmetic (`+ - * /`) and comparison
//! (`= > >= < <=`) over integers, with explicit overflow and
//! division-by-zero outcomes instead of panics.

use vstd::prelude::*;

use crate::token::str_eq;

verus! {

/// A built-in operation symbol.
#[derive(Debug, Clone, Copy, PartialEq, Eq, Structural)]
pub enum Operation {
    Add,
    Subtract,
    Divide,
    Multiply,
    Equal,
    GreaterThan,
    GreaterThanOrEqual,
    LessThan,
    LessThanOrEqual,
}

/// The absolute value.
pub open spec fn abs_int(a: int) -> int {
    if a < 0 {
        -a
    } else {
        a
    }
}

/// Truncating integer division (the quotient of the magnitudes, with the
/// sign of the operands' product), as machine division rounds.
pub open spec fn div_trunc(a: int, b: int) -> int {
    let q = abs_int(a) / abs_int(b);
    if (a < 0) != (b < 0) {
        -q
    } else {
        q
    }
}

/// What one step of a built-in operation yields on two integers: the
/// arithmetic value when it fits in an `i64` (`None` on overflow or a zero
/// divisor), or the comparison outcome as one or zero.
pub open spec fn spec_apply(op: Operation, a: i64, b: i64) -> Option<i64> {
    match op {
        Operation::Add => if a + b > i64::MAX || a + b < i64::MIN {
            None
        } else {
            Some((a + b) as i64)
        },
        Operation::Subtract => if a - b > i64::MAX || a - b < i64::MIN {
            None
        } else {
            Some((a - b) as i64)
        },
        Operation::Multiply => if a * b > i64::MAX || a * b < i64::MIN {
            None
        } else {
            Some((a * b) as i64)
        },
        Operation::Divide => if b == 0 {
            None
        } else {
            let q = div_trunc(a as int, b as int);
            if q > i64::MAX || q < i64::MIN {
                None
            } else {
                Some(q as i64)
            }
        },
        Operation::Equal => Some(
            if a == b {
                1i64
            } else {
                0i64
            },
        ),
        Operation::GreaterThan => Some(
            if a > b {
                1i64
            } else {
                0i64
            },
        ),
        Operation::GreaterThanOrEqual => Some(
            if a >= b {
                1i64
            } else {
                0i64
            },
        ),
        Operation::LessThan => Some(
            if a < b {
                1i64
            } else {
                0i64
            },
        ),
        Operation::LessThanOrEqual => Some(
            if a <= b {
                1i64
            } else {
                0i64
            },
        ),
    }
}

/// The operation is one of the arithmetic symbols.
pub open spec fn is_arith(op: Operation) -> bool {
    op == Operation::Add || op == Operation::Subtract || op == Operation::Multiply || op
        == Operation::Divide
}

/// The built-in operation a symbol names, if any.
pub open spec fn spec_op_of(s: Seq<char>) -> Option<Operation> {
    if s == "+"@ {
        Some(Operation::Add)
    } else if s == "-"@ {
        Some(Operation::Subtract)
    } else if s == "/"@ {
        Some(Operation::Divide)
    } else if s == "*"@ {
        Some(Operation::Multiply)
    } else if s == "="@ {
        Some(Operation::Equal)
    } else if s == ">"@ {
        Some(Operation::GreaterThan)
    } else if s == ">="@ {
        Some(Operation::GreaterThanOrEqual)
    } else if s == "<"@ {
        Some(Operation::LessThan)
    } else if s == "<="@ {
        Some(Operation::LessThanOrEqual)
    } else {
        None
    }
}

impl Operation {
    /// Applies one step of the operation to two integers, exactly as
    /// `spec_apply` says.
    pub fn apply(&self, a: i64, b: i64) -> (r: Option<i64>)
        ensures
            r == spec_apply(*self, a, b),
    {
        match self {
            Operation::Add => a.checked_add(b),
            Operation::Subtract => a.checked_sub(b),
            Operation::Multiply => a.checked_mul(b),
            Operation::Divide => {
                let r = a.checked_div(b);
                proof {
                    if b != 0 {
                        assert(r == spec_apply(Operation::Divide, a, b));
                    }
                }
                r
            },
            Operation::Equal => Some(
                if a == b {
                    1
                } else {
                    0
                },
            ),
            Operation::GreaterThan => Some(
                if a > b {
                    1
                } else {
                    0
                },
            ),
            Operation::GreaterThanOrEqual => Some(
                if a >= b {
                    1
                } else {
                    0
                },
            ),
            Operation::LessThan => Some(
                if a < b {
                    1
                } else {
                    0
                },
            ),
            Operation::LessThanOrEqual => Some(
                if a <= b {
                    1
                } else {
                    0
                },
            ),
        }
    }

    /// The built-in operation a symbol text names, if any.
    pub fn from_symbol(s: &str) -> (r: Option<Operation>)
        ensures
            r == spec_op_of(s@),
    {
        if str_eq(s, "+") {
            Some(Operation::Add)
        } else if str_eq(s, "-") {
            Some(Operation::Subtract)
        } else if str_eq(s, "/") {
            Some(Operation::Divide)
        } else if str_eq(s, "*") {
            Some(Operation::Multiply)
        } else if str_eq(s, "=") {
            Some(Operation::Equal)
        } else if str_eq(s, ">") {
            Some(Operation::GreaterThan)
        } else if str_eq(s, ">=") {
            Some(Operation::GreaterThanOrEqual)
        } else if str_eq(s, "<") {
            Some(Operation::LessThan)
        } else if str_eq(s, "<=") {
            Some(Operation::LessThanOrEqual)
        } else {
            None
        }
    }
}

} // verus!
