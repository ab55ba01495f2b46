//! The constant table: the named numeric literals the parser may resolve an
//! identifier against.  Lookup is case-sensitive, so `PI` and `e` are the
//! only spellings that resolve.  The numeric value of a constant is left to
//! the host program's evaluator; the table itself only names and resolves.

use vstd::prelude::*;
use vstd::string::StrSliceExecFns;

verus! {

/// A named constant of the expression language.
#[derive(Debug, Clone, Copy, PartialEq, Eq, Structural)]
pub enum Constant {
    PI,
    E,
}

impl Constant {
    /// The constant a name resolves to: exactly `PI` or exactly `e`.
    pub open spec fn spec_from_name(name: Seq<char>) -> Option<Constant> {
        if name == seq!['P', 'I'] {
            Some(Constant::PI)
        } else if name == seq!['e'] {
            Some(Constant::E)
        } else {
            None
        }
    }

    /// Resolves a name against the table, case-sensitively.
    pub fn from_name(name: &str) -> (r: Option<Constant>)
        ensures
            r == Self::spec_from_name(name@),
    {
        let n = name.unicode_len();
        if n == 2 && name.get_char(0) == 'P' && name.get_char(1) == 'I' {
            proof {
                assert(name@ =~= seq!['P', 'I']);
            }
            Some(Constant::PI)
        } else if n == 1 && name.get_char(0) == 'e' {
            proof {
                assert(name@ =~= seq!['e']);
            }
            Some(Constant::E)
        } else {
            proof {
                if name@ == seq!['P', 'I'] {
                    assert(name@.len() == 2 && name@[0] == 'P' && name@[1] == 'I');
                }
                if name@ == seq!['e'] {
                    assert(name@.len() == 1 && name@[0] == 'e');
                }
            }
            None
        }
    }
}

} // verus!
