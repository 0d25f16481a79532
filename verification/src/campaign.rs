//! The campaign itself: its goal, its deadline, its ledger, and the two
//! operations that change it.
//!
//! The campaign does not know the time, who is calling, who owns it, or how
//! much value it holds: whoever hosts it says so with each call. Nor does it
//! move value: a claim returns the [`Transfer`] that the host is to carry out.

use crate::address::Address;
use crate::big_uint::BigUint;
use crate::error::Error;
use crate::ledger::Ledger;
use crate::status::{evaluate, status_at, Status};
use vstd::prelude::*;

verus! {

/// A payment as contracts speak of it: who receives, and how much.
pub struct Payout {
    pub to: Address,
    pub amount: nat,
}

/// An order to pay `amount` out of the campaign's custody to `to`.
#[derive(Debug, PartialEq, Eq)]
pub struct Transfer {
    pub to: Address,
    pub amount: BigUint,
}

impl View for Transfer {
    type V = Payout;

    open spec fn view(&self) -> Payout {
        Payout { to: self.to, amount: self.amount@ }
    }
}

/// What a claim hands back, with each transfer replaced by the payment it
/// orders.
pub open spec fn payout_of(outcome: Result<Option<Transfer>, Error>) -> Result<
    Option<Payout>,
    Error,
> {
    match outcome {
        Ok(Some(transfer)) => Ok(Some(transfer@)),
        Ok(None) => Ok(None),
        Err(e) => Err(e),
    }
}

/// What is left in custody of `balance` once the host has carried out the
/// payment, if there is one.
pub open spec fn balance_after(balance: nat, payment: Option<Payout>) -> int {
    match payment {
        Some(payout) => balance - payout.amount,
        None => balance as int,
    }
}

/// The campaign as contracts speak of it.
pub struct CampaignState {
    /// The amount that makes the campaign a success.
    pub target: nat,
    /// The height at which donations stop.
    pub deadline: u64,
    /// What each identity has on deposit; zero for those who gave nothing.
    pub deposits: Map<Address, nat>,
}

impl CampaignState {
    /// The campaign right after it was set up: nobody has given anything.
    pub open spec fn initial(target: nat, deadline: u64) -> CampaignState {
        CampaignState { target, deadline, deposits: Map::total(|donor: Address| 0nat) }
    }

    /// The status at height `now` with `balance` in custody.
    pub open spec fn status(self, now: u64, balance: nat) -> Status {
        status_at(now, self.deadline, balance, self.target)
    }

    /// The campaign with the deposit of `donor` set to `amount`.
    pub open spec fn with_deposit(self, donor: Address, amount: nat) -> CampaignState {
        CampaignState { deposits: self.deposits.insert(donor, amount), ..self }
    }

    /// What a donation of `payment` by `caller` at height `now` does: the
    /// campaign afterwards, and whether the donation was accepted.
    pub open spec fn fund(self, now: u64, caller: Address, payment: nat) -> (
        CampaignState,
        Result<(), Error>,
    ) {
        if now < self.deadline {
            (self.with_deposit(caller, self.deposits[caller] + payment), Ok(()))
        } else {
            (self, Err(Error::DeadlineExceeded))
        }
    }

    /// What a claim by `caller` does at height `now`, with `balance` in
    /// custody and `owner` owning the campaign: the campaign afterwards, and
    /// the payment to make, if any.
    pub open spec fn claim(self, now: u64, balance: nat, caller: Address, owner: Address) -> (
        CampaignState,
        Result<Option<Payout>, Error>,
    ) {
        match self.status(now, balance) {
            Status::FundingPeriod => (self, Err(Error::ClaimTooEarly)),
            Status::Successful => if caller == owner {
                (self, Ok(Some(Payout { to: caller, amount: balance })))
            } else {
                (self, Err(Error::Unauthorized))
            },
            Status::Failed => if self.deposits[caller] > 0 {
                (
                    self.with_deposit(caller, 0),
                    Ok(Some(Payout { to: caller, amount: self.deposits[caller] })),
                )
            } else {
                (self, Ok(None))
            },
        }
    }
}

/// A crowdfunding campaign: a target, a deadline, and the ledger of
/// deposits.
///
/// Target and deadline are fixed when the campaign is set up and never
/// change.
pub struct Crowdfunding {
    target: BigUint,
    deadline: u64,
    ledger: Ledger,
}

impl View for Crowdfunding {
    type V = CampaignState;

    closed spec fn view(&self) -> CampaignState {
        CampaignState { target: self.target@, deadline: self.deadline, deposits: self.ledger@ }
    }
}

impl Crowdfunding {
    /// Sets up a campaign that aims at `target` and accepts donations at
    /// heights below `deadline`. Nobody has anything on deposit yet.
    pub fn init(target: BigUint, deadline: u64) -> (campaign: Self)
        ensures
            campaign@ == CampaignState::initial(target@, deadline),
    {
        Crowdfunding { target, deadline, ledger: Ledger::new() }
    }

    /// Puts a campaign together again from its three stored parts.
    pub fn restore(target: BigUint, deadline: u64, ledger: Ledger) -> (campaign: Self)
        ensures
            campaign@ == (CampaignState { target: target@, deadline, deposits: ledger@ }),
    {
        Crowdfunding { target, deadline, ledger }
    }

    /// The amount that makes the campaign a success.
    pub fn target(&self) -> (target: &BigUint)
        ensures
            target@ == self@.target,
    {
        &self.target
    }

    /// The height at which donations stop.
    pub fn deadline(&self) -> (deadline: u64)
        ensures
            deadline == self@.deadline,
    {
        self.deadline
    }

    /// What `donor` has on deposit; zero if they never gave or have been
    /// paid back.
    pub fn deposit(&self, donor: &Address) -> (amount: BigUint)
        ensures
            amount@ == self@.deposits[*donor],
    {
        self.ledger.get(donor)
    }

    /// The status of the campaign at height `now`, with `balance` in its
    /// custody.
    pub fn status(&self, now: u64, balance: &BigUint) -> (status: Status)
        ensures
            status == self@.status(now, balance@),
            now < self@.deadline ==> status == Status::FundingPeriod,
            now >= self@.deadline ==> (status == Status::Successful <==> balance@
                >= self@.target),
            now >= self@.deadline ==> (status == Status::Failed <==> balance@ < self@.target),
    {
        evaluate(now, self.deadline, balance, &self.target)
    }

    /// Records a donation of `payment` by `caller`, made at height `now`.
    ///
    /// Before the deadline the deposit of `caller` grows by exactly `payment`
    /// and nothing else changes. From the deadline on the donation is refused
    /// with [`Error::DeadlineExceeded`] and nothing changes at all.
    ///
    /// The value itself is taken into custody by the host; this only keeps
    /// the books.
    pub fn fund(&mut self, now: u64, caller: &Address, payment: &BigUint) -> (outcome: Result<
        (),
        Error,
    >)
        ensures
            (final(self)@, outcome) == old(self)@.fund(now, *caller, payment@),
            now >= old(self)@.deadline ==> outcome == Err::<(), Error>(Error::DeadlineExceeded)
                && final(self)@ == old(self)@,
            now < old(self)@.deadline ==> outcome is Ok && final(self)@.deposits == old(
                self,
            )@.deposits.insert(*caller, old(self)@.deposits[*caller] + payment@),
            final(self)@.target == old(self)@.target,
            final(self)@.deadline == old(self)@.deadline,
    {
        if now < self.deadline {
            self.ledger.increase(caller, payment);
            Ok(())
        } else {
            Err(Error::DeadlineExceeded)
        }
    }

    /// Handles a claim by `caller` at height `now`, with `balance` in custody
    /// and `owner` owning the campaign. The transfer that is returned, if
    /// any, is for the host to carry out.
    ///
    /// - While donations are still accepted the claim is refused with
    ///   [`Error::ClaimTooEarly`].
    /// - After a success only the owner may claim, and is paid the whole
    ///   balance; anybody else is refused with [`Error::Unauthorized`]. The
    ///   deposits are left as they are.
    /// - After a failure the caller is paid back their own deposit, which is
    ///   then zero. A caller with nothing on deposit gets no transfer, and
    ///   that is no error.
    ///
    /// A refused claim changes nothing.
    pub fn claim(&mut self, now: u64, balance: &BigUint, caller: &Address, owner: &Address) -> (outcome:
        Result<Option<Transfer>, Error>)
        ensures
            (final(self)@, payout_of(outcome)) == old(self)@.claim(
                now,
                balance@,
                *caller,
                *owner,
            ),
            final(self)@.target == old(self)@.target,
            final(self)@.deadline == old(self)@.deadline,
            outcome is Err ==> final(self)@ == old(self)@,
            old(self)@.status(now, balance@) == Status::FundingPeriod ==> outcome == Err::<
                Option<Transfer>,
                Error,
            >(Error::ClaimTooEarly),
            old(self)@.status(now, balance@) == Status::Successful && *caller != *owner
                ==> outcome == Err::<Option<Transfer>, Error>(Error::Unauthorized),
            old(self)@.status(now, balance@) == Status::Successful && *caller == *owner ==> {
                &&& payout_of(outcome) == Ok::<Option<Payout>, Error>(
                    Some(Payout { to: *owner, amount: balance@ }),
                )
                &&& final(self)@ == old(self)@
            },
            old(self)@.status(now, balance@) == Status::Failed && old(self)@.deposits[*caller] > 0
                ==> {
                &&& payout_of(outcome) == Ok::<Option<Payout>, Error>(
                    Some(Payout { to: *caller, amount: old(self)@.deposits[*caller] }),
                )
                &&& final(self)@.deposits == old(self)@.deposits.insert(*caller, 0)
            },
            old(self)@.status(now, balance@) == Status::Failed && old(self)@.deposits[*caller] == 0
                ==> outcome == Ok::<Option<Transfer>, Error>(None) && final(self)@ == old(self)@,
    {
        match evaluate(now, self.deadline, balance, &self.target) {
            Status::FundingPeriod => Err(Error::ClaimTooEarly),
            Status::Successful => {
                if *caller == *owner {
                    Ok(Some(Transfer { to: *caller, amount: balance.clone() }))
                } else {
                    Err(Error::Unauthorized)
                }
            },
            Status::Failed => {
                let deposit: BigUint = self.ledger.get(caller);
                if deposit.is_zero() {
                    Ok(None)
                } else {
                    self.ledger.clear(caller);
                    Ok(Some(Transfer { to: *caller, amount: deposit }))
                }
            },
        }
    }
}

} // verus!
