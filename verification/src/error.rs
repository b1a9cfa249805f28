//! The error reported when a point lies outside the addressed grid.

use vstd::prelude::*;
use vstd::string::StringExecFns;
use crate::text::{decimal, push_decimal};

verus! {

/// A point that the addressed cell or canvas does not hold.
#[derive(Debug, Clone, Copy, PartialEq, Eq, Structural)]
pub enum IndexError {
    /// (expected x, expected y, found x, found y)
    USizeMatrix(usize, usize, usize, usize),
}

impl IndexError {
    /// The message of the error: the bounds that were expected and the
    /// point that was found, each number in decimal digits.
    pub open spec fn message(self) -> Seq<char> {
        match self {
            IndexError::USizeMatrix(expected_x, expected_y, found_x, found_y) => {
                "invalid index (expected x<"@ + decimal(expected_x as nat) + ", y<"@ + decimal(
                    expected_y as nat,
                ) + " but got x="@ + decimal(found_x as nat) + ", y="@ + decimal(found_y as nat)
                    + ")"@
            },
        }
    }

    /// The message of the error as text.
    pub fn to_string(&self) -> (s: String)
        ensures
            s@ == self.message(),
    {
        match self {
            IndexError::USizeMatrix(expected_x, expected_y, found_x, found_y) => {
                let mut s = String::new();
                s.append("invalid index (expected x<");
                push_decimal(&mut s, *expected_x);
                s.append(", y<");
                push_decimal(&mut s, *expected_y);
                s.append(" but got x=");
                push_decimal(&mut s, *found_x);
                s.append(", y=");
                push_decimal(&mut s, *found_y);
                s.append(")");
                s
            },
        }
    }
}

} // verus!
