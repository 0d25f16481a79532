//! The reasons for which an operation is refused.

use vstd::prelude::*;

verus! {

/// Why an operation was refused. A refused operation changes nothing.
#[derive(Clone, Copy, Debug, PartialEq, Eq, Structural)]
pub enum Error {
    /// A donation arrived at or after the deadline.
    DeadlineExceeded,
    /// A claim arrived while donations were still being accepted.
    ClaimTooEarly,
    /// Somebody other than the owner claimed the funds of a successful
    /// campaign.
    Unauthorized,
}

impl Error {
    /// The words in which the refusal is reported to the caller.
    pub open spec fn spec_message(self) -> Seq<char> {
        match self {
            Error::DeadlineExceeded => "cannot fund after deadline"@,
            Error::ClaimTooEarly => "cannot claim before deadline"@,
            Error::Unauthorized => "only owner can claim successful funding"@,
        }
    }

    /// The words in which the refusal is reported to the caller.
    pub fn message(&self) -> (text: &'static str)
        ensures
            text@ == self.spec_message(),
    {
        match self {
            Error::DeadlineExceeded => "cannot fund after deadline",
            Error::ClaimTooEarly => "cannot claim before deadline",
            Error::Unauthorized => "only owner can claim successful funding",
        }
    }
}

} // verus!
