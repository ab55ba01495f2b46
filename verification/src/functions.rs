//! The function registry: the fixed set of named built-in operations the
//! parser may resolve an identifier against.  Names match case-insensitively.
//! Each entry declares an arity class — exactly one argument for the
//! single-value operations, at least two for the variadic fold operations —
//! which the parser checks once an argument list is complete.  The numeric
//! work of each operation is left to the host program's evaluator.

use vstd::prelude::*;
use vstd::string::StrSliceExecFns;

verus! {

/// The sine operation: one argument.
pub struct Sin {}

/// The cosine operation: one argument.
pub struct Cos {}

/// The tangent operation: one argument.
pub struct Tan {}

/// The square-root operation: one argument.
pub struct Sqrt {}

/// The absolute-value operation: one argument.
pub struct Abs {}

/// The variadic maximum: at least two arguments.
pub struct Max {}

/// The variadic minimum: at least two arguments.
pub struct Min {}

impl Sin {
    /// Whether an argument count satisfies this entry's arity class.
    pub fn arity_ok(count: usize) -> (b: bool)
        ensures
            b == (count == 1),
    {
        count == 1
    }
}

impl Cos {
    /// Whether an argument count satisfies this entry's arity class.
    pub fn arity_ok(count: usize) -> (b: bool)
        ensures
            b == (count == 1),
    {
        count == 1
    }
}

impl Tan {
    /// Whether an argument count satisfies this entry's arity class.
    pub fn arity_ok(count: usize) -> (b: bool)
        ensures
            b == (count == 1),
    {
        count == 1
    }
}

impl Sqrt {
    /// Whether an argument count satisfies this entry's arity class.
    pub fn arity_ok(count: usize) -> (b: bool)
        ensures
            b == (count == 1),
    {
        count == 1
    }
}

impl Abs {
    /// Whether an argument count satisfies this entry's arity class.
    pub fn arity_ok(count: usize) -> (b: bool)
        ensures
            b == (count == 1),
    {
        count == 1
    }
}

impl Max {
    /// Whether an argument count satisfies this entry's arity class.
    pub fn arity_ok(count: usize) -> (b: bool)
        ensures
            b == (count >= 2),
    {
        count >= 2
    }
}

impl Min {
    /// Whether an argument count satisfies this entry's arity class.
    pub fn arity_ok(count: usize) -> (b: bool)
        ensures
            b == (count >= 2),
    {
        count >= 2
    }
}

/// A reference to one registry entry, as stored inside a parsed function
/// call.  The set of entries is closed, so a copyable tag stands for the
/// shared, immutable entry itself.
#[derive(Debug, Clone, Copy, PartialEq, Eq, Structural)]
pub enum Function {
    Sin,
    Cos,
    Tan,
    Sqrt,
    Abs,
    Max,
    Min,
}

/// The code of an ASCII letter with the upper-case range folded onto the
/// lower-case range; other characters keep their own code.
pub open spec fn lower_code(c: char) -> int {
    if 65 <= c as u32 && c as u32 <= 90 {
        c as u32 + 32
    } else {
        c as u32 as int
    }
}

/// Case-insensitive equality of two names, by ASCII case folding.
pub open spec fn eq_ci(a: Seq<char>, b: Seq<char>) -> bool {
    a.len() == b.len() && forall|i: int| 0 <= i < a.len() ==> lower_code(a[i]) == lower_code(b[i])
}

/// Case-insensitive comparison of a name against a pattern, executably.
fn matches_ci(name: &str, pat: &str) -> (b: bool)
    ensures
        b == eq_ci(name@, pat@),
{
    let n = name.unicode_len();
    if n != pat.unicode_len() {
        return false;
    }
    let mut i: usize = 0;
    while i < n
        invariant
            n == name@.len(),
            n == pat@.len(),
            i <= n,
            forall|j: int| 0 <= j < i ==> lower_code(name@[j]) == lower_code(pat@[j]),
        decreases n - i,
    {
        let a = name.get_char(i) as u32;
        let b = pat.get_char(i) as u32;
        let fa = if 65 <= a && a <= 90 {
            a + 32
        } else {
            a
        };
        let fb = if 65 <= b && b <= 90 {
            b + 32
        } else {
            b
        };
        if fa != fb {
            return false;
        }
        i = i + 1;
    }
    true
}

impl Function {
    /// Whether an argument count satisfies the entry's arity class: exactly
    /// one argument for the single-value operations, at least two for the
    /// variadic folds.
    pub open spec fn spec_arity_ok(self, count: int) -> bool {
        match self {
            Function::Max => count >= 2,
            Function::Min => count >= 2,
            _ => count == 1,
        }
    }

    /// Decides the entry's arity class on an actual argument count.
    pub fn arity_ok(&self, count: usize) -> (b: bool)
        ensures
            b == self.spec_arity_ok(count as int),
    {
        match self {
            Function::Sin => Sin::arity_ok(count),
            Function::Cos => Cos::arity_ok(count),
            Function::Tan => Tan::arity_ok(count),
            Function::Sqrt => Sqrt::arity_ok(count),
            Function::Abs => Abs::arity_ok(count),
            Function::Max => Max::arity_ok(count),
            Function::Min => Min::arity_ok(count),
        }
    }

    /// The registry entry a name resolves to, by case-insensitive match.
    pub open spec fn spec_from_name(name: Seq<char>) -> Option<Function> {
        if eq_ci(name, "sin"@) {
            Some(Function::Sin)
        } else if eq_ci(name, "cos"@) {
            Some(Function::Cos)
        } else if eq_ci(name, "tan"@) {
            Some(Function::Tan)
        } else if eq_ci(name, "sqrt"@) {
            Some(Function::Sqrt)
        } else if eq_ci(name, "abs"@) {
            Some(Function::Abs)
        } else if eq_ci(name, "max"@) {
            Some(Function::Max)
        } else if eq_ci(name, "min"@) {
            Some(Function::Min)
        } else {
            None
        }
    }

    /// Resolves a name against the registry, case-insensitively.
    pub fn from_name(name: &str) -> (r: Option<Function>)
        ensures
            r == Self::spec_from_name(name@),
    {
        if matches_ci(name, "sin") {
            Some(Function::Sin)
        } else if matches_ci(name, "cos") {
            Some(Function::Cos)
        } else if matches_ci(name, "tan") {
            Some(Function::Tan)
        } else if matches_ci(name, "sqrt") {
            Some(Function::Sqrt)
        } else if matches_ci(name, "abs") {
            Some(Function::Abs)
        } else if matches_ci(name, "max") {
            Some(Function::Max)
        } else if matches_ci(name, "min") {
            Some(Function::Min)
        } else {
            None
        }
    }
}

} // verus!
