//! The plain types that the modules share.

use std::ops::Range;

use vstd::prelude::*;

verus! {

/// Index of a line in the document, counted from zero.
pub type LineNumber = usize;

/// Byte offsets of one match within a line.
pub type MatchSpan = Range<usize>;

/// Number of an RFC, which is never zero.
#[derive(Clone, Copy, Debug, PartialEq, Eq)]
pub struct RfcNum {
    number: u16,
}

impl RfcNum {
    #[verifier::type_invariant]
    spec fn nonzero(self) -> bool {
        self.number != 0
    }

    /// The number as an integer.
    pub closed spec fn value(self) -> nat {
        self.number as nat
    }

    /// Makes the number of an RFC out of any integer but zero.
    pub fn new(number: u16) -> (r: Option<RfcNum>)
        ensures
            r is Some == (number != 0),
            r matches Some(n) ==> n.value() == number,
    {
        if number == 0 {
            None
        } else {
            Some(RfcNum { number })
        }
    }

    /// The number as an integer.
    pub fn get(self) -> (number: u16)
        ensures
            number == self.value(),
            number != 0,
    {
        proof {
            use_type_invariant(&self);
        }
        self.number
    }
}

} // verus!
