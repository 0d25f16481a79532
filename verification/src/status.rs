//! The three states a campaign can be observed in, and the rule that tells
//! them apart.

use crate::big_uint::BigUint;
use vstd::prelude::*;

verus! {

/// What a campaign looks like at a given height and balance.
///
/// The status is never stored. It is worked out anew from the height and the
/// balance of the moment, so it can change whenever either does.
#[derive(Clone, Copy, Debug, PartialEq, Eq, Structural)]
pub enum Status {
    /// The deadline has not been reached; donations are accepted.
    FundingPeriod,
    /// The deadline has been reached and the balance covers the target.
    Successful,
    /// The deadline has been reached and the balance falls short of the
    /// target.
    Failed,
}

/// The status of a campaign with the given `deadline` and `target`, seen at
/// height `now` while it holds `balance`.
///
/// The funding period ends at the deadline itself, and a balance equal to the
/// target is a success.
pub open spec fn status_at(now: u64, deadline: u64, balance: nat, target: nat) -> Status {
    if now < deadline {
        Status::FundingPeriod
    } else if balance >= target {
        Status::Successful
    } else {
        Status::Failed
    }
}

/// Works out the status of a campaign from the height, the deadline, the
/// balance held and the target.
pub fn evaluate(now: u64, deadline: u64, balance: &BigUint, target: &BigUint) -> (status: Status)
    ensures
        status == status_at(now, deadline, balance@, target@),
        now < deadline ==> status == Status::FundingPeriod,
        now >= deadline ==> (status == Status::Successful <==> balance@ >= target@),
        now >= deadline ==> (status == Status::Failed <==> balance@ < target@),
{
    if now < deadline {
        Status::FundingPeriod
    } else if balance.ge(target) {
        Status::Successful
    } else {
        Status::Failed
    }
}

} // verus!
