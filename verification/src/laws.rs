//! What holds of every campaign, whatever its history.
//!
//! Each statement here is proved from the same definitions that the
//! operations on [`Crowdfunding`](crate::campaign::Crowdfunding) promise to
//! follow.

use crate::address::Address;
use crate::campaign::{balance_after, CampaignState, Payout};
use crate::error::Error;
use crate::status::{status_at, Status};
use vstd::prelude::*;

verus! {

/// Before the deadline a campaign is in its funding period, whatever its
/// balance and its target.
pub proof fn lemma_funding_period_before_deadline(
    now: u64,
    deadline: u64,
    balance: nat,
    target: nat,
)
    requires
        now < deadline,
    ensures
        status_at(now, deadline, balance, target) == Status::FundingPeriod,
{
}

/// From the deadline on a campaign is successful exactly when its balance
/// has reached the target, and failed otherwise.
pub proof fn lemma_outcome_from_deadline(now: u64, deadline: u64, balance: nat, target: nat)
    requires
        now >= deadline,
    ensures
        status_at(now, deadline, balance, target) == Status::Successful <==> balance >= target,
        status_at(now, deadline, balance, target) == Status::Failed <==> balance < target,
        status_at(now, deadline, balance, target) != Status::FundingPeriod,
{
}

/// A donation made at or after the deadline is refused and leaves the
/// campaign exactly as it was.
pub proof fn lemma_late_donation_refused(
    state: CampaignState,
    now: u64,
    caller: Address,
    payment: nat,
)
    requires
        now >= state.deadline,
    ensures
        state.fund(now, caller, payment) == (state, Err::<(), Error>(Error::DeadlineExceeded)),
{
}

/// A donation made before the deadline is accepted. It raises the deposit of
/// the donor by exactly the payment, and leaves every other deposit, the
/// target and the deadline as they were.
pub proof fn lemma_donation_recorded(state: CampaignState, now: u64, caller: Address, payment: nat)
    requires
        now < state.deadline,
    ensures
        state.fund(now, caller, payment).1 == Ok::<(), Error>(()),
        state.fund(now, caller, payment).0.deposits[caller] == state.deposits[caller] + payment,
        forall|other: Address|
            other != caller ==> #[trigger] state.fund(now, caller, payment).0.deposits[other]
                == state.deposits[other],
        state.fund(now, caller, payment).0.target == state.target,
        state.fund(now, caller, payment).0.deadline == state.deadline,
{
}

/// A claim made during the funding period is refused: nothing is paid and
/// nothing changes.
pub proof fn lemma_early_claim_refused(
    state: CampaignState,
    now: u64,
    balance: nat,
    caller: Address,
    owner: Address,
)
    requires
        state.status(now, balance) == Status::FundingPeriod,
    ensures
        state.claim(now, balance, caller, owner) == (
            state,
            Err::<Option<Payout>, Error>(Error::ClaimTooEarly),
        ),
{
}

/// After a success nobody but the owner can claim: anybody else is refused,
/// nothing is paid and nothing changes.
pub proof fn lemma_stranger_claim_refused(
    state: CampaignState,
    now: u64,
    balance: nat,
    caller: Address,
    owner: Address,
)
    requires
        state.status(now, balance) == Status::Successful,
        caller != owner,
    ensures
        state.claim(now, balance, caller, owner) == (
            state,
            Err::<Option<Payout>, Error>(Error::Unauthorized),
        ),
{
}

/// After a success the owner's claim pays the owner the whole balance, so
/// that nothing is left in custody once it is carried out. The deposits stay
/// as they were.
pub proof fn lemma_owner_claim_takes_all(
    state: CampaignState,
    now: u64,
    balance: nat,
    owner: Address,
)
    requires
        state.status(now, balance) == Status::Successful,
    ensures
        state.claim(now, balance, owner, owner) == (
            state,
            Ok::<Option<Payout>, Error>(Some(Payout { to: owner, amount: balance })),
        ),
        balance_after(balance, state.claim(now, balance, owner, owner).1->Ok_0) == 0,
{
}

/// After a failure a donor with something on deposit is paid back exactly
/// that deposit, which is then zero. Every other deposit, the target and the
/// deadline stay as they were.
pub proof fn lemma_refund_pays_deposit(
    state: CampaignState,
    now: u64,
    balance: nat,
    caller: Address,
    owner: Address,
)
    requires
        state.status(now, balance) == Status::Failed,
        state.deposits[caller] > 0,
    ensures
        state.claim(now, balance, caller, owner).1 == Ok::<Option<Payout>, Error>(
            Some(Payout { to: caller, amount: state.deposits[caller] }),
        ),
        state.claim(now, balance, caller, owner).0.deposits[caller] == 0,
        forall|other: Address|
            other != caller ==> #[trigger] state.claim(now, balance, caller, owner).0.deposits[other]
                == state.deposits[other],
        state.claim(now, balance, caller, owner).0.target == state.target,
        state.claim(now, balance, caller, owner).0.deadline == state.deadline,
{
}

/// After a failure a claim by somebody with nothing on deposit succeeds
/// without paying anything or changing anything.
pub proof fn lemma_empty_refund_is_no_op(
    state: CampaignState,
    now: u64,
    balance: nat,
    caller: Address,
    owner: Address,
)
    requires
        state.status(now, balance) == Status::Failed,
        state.deposits[caller] == 0,
    ensures
        state.claim(now, balance, caller, owner) == (state, Ok::<Option<Payout>, Error>(None)),
{
}

/// A donor who has been paid back is paid nothing the second time: as long
/// as the height has not gone back and the balance has not grown, a further
/// claim by the same donor succeeds without a payment and changes nothing.
pub proof fn lemma_second_refund_pays_nothing(
    state: CampaignState,
    now: u64,
    balance: nat,
    caller: Address,
    owner: Address,
    later: u64,
    later_balance: nat,
)
    requires
        state.status(now, balance) == Status::Failed,
        state.deposits[caller] > 0,
        later >= now,
        later_balance <= balance,
    ensures
        ({
            let refunded = state.claim(now, balance, caller, owner).0;
            refunded.claim(later, later_balance, caller, owner) == (
                refunded,
                Ok::<Option<Payout>, Error>(None),
            )
        }),
{
}

/// Once the owner has taken the funds of a successful campaign, the campaign
/// reads as failed from then on, unless its target is zero: the status is
/// always worked out from the balance of the moment, and that balance is now
/// zero.
pub proof fn lemma_emptied_campaign_reads_failed(
    state: CampaignState,
    now: u64,
    balance: nat,
    owner: Address,
    later: u64,
)
    requires
        state.status(now, balance) == Status::Successful,
        later >= now,
        state.target > 0,
    ensures
        ({
            let (emptied, paid) = state.claim(now, balance, owner, owner);
            let left = balance_after(balance, paid->Ok_0);
            left == 0 && emptied.status(later, left as nat) == Status::Failed
        }),
{
}

/// No operation ever changes the target or the deadline.
pub proof fn lemma_goal_never_changes(
    state: CampaignState,
    now: u64,
    balance: nat,
    caller: Address,
    owner: Address,
    payment: nat,
)
    ensures
        state.fund(now, caller, payment).0.target == state.target,
        state.fund(now, caller, payment).0.deadline == state.deadline,
        state.claim(now, balance, caller, owner).0.target == state.target,
        state.claim(now, balance, caller, owner).0.deadline == state.deadline,
{
}

/// A refused operation changes nothing.
pub proof fn lemma_refusal_changes_nothing(
    state: CampaignState,
    now: u64,
    balance: nat,
    caller: Address,
    owner: Address,
    payment: nat,
)
    ensures
        state.fund(now, caller, payment).1 is Err ==> state.fund(now, caller, payment).0 == state,
        state.claim(now, balance, caller, owner).1 is Err ==> state.claim(
            now,
            balance,
            caller,
            owner,
        ).0 == state,
{
}

} // verus!
