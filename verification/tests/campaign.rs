use crowdfunding::{Address, BigUint, Crowdfunding, Error, Ledger, Status, Transfer};

fn account(tag: u8) -> Address {
    Address { bytes: [tag; 32] }
}

fn amount(v: u64) -> BigUint {
    BigUint::from_u64(v)
}

fn owner() -> Address {
    account(0xAA)
}

#[test]
fn init_sets_target_and_deadline() {
    let campaign = Crowdfunding::init(amount(1000), 100);
    assert_eq!(campaign.target().to_u64(), Some(1000));
    assert_eq!(campaign.deadline(), 100);
    assert!(campaign.deposit(&account(1)).is_zero());
    assert!(campaign.deposit(&owner()).is_zero());
}

#[test]
fn restore_keeps_the_three_parts() {
    let mut ledger = Ledger::new();
    ledger.increase(&account(1), &amount(40));
    ledger.increase(&account(2), &amount(2));
    let campaign = Crowdfunding::restore(amount(77), 9, ledger);
    assert_eq!(campaign.target().to_u64(), Some(77));
    assert_eq!(campaign.deadline(), 9);
    assert_eq!(campaign.deposit(&account(1)).to_u64(), Some(40));
    assert_eq!(campaign.deposit(&account(2)).to_u64(), Some(2));
    assert_eq!(campaign.deposit(&account(3)).to_u64(), Some(0));
}

#[test]
fn fund_before_deadline_adds_to_deposit() {
    let mut campaign = Crowdfunding::init(amount(1000), 100);
    assert_eq!(campaign.fund(0, &account(1), &amount(300)), Ok(()));
    assert_eq!(campaign.deposit(&account(1)).to_u64(), Some(300));
    assert_eq!(campaign.fund(99, &account(1), &amount(25)), Ok(()));
    assert_eq!(campaign.deposit(&account(1)).to_u64(), Some(325));
}

#[test]
fn fund_leaves_other_deposits_and_the_goal_alone() {
    let mut campaign = Crowdfunding::init(amount(1000), 100);
    assert_eq!(campaign.fund(10, &account(1), &amount(300)), Ok(()));
    assert_eq!(campaign.fund(20, &account(2), &amount(500)), Ok(()));
    assert_eq!(campaign.fund(30, &account(1), &amount(1)), Ok(()));
    assert_eq!(campaign.deposit(&account(1)).to_u64(), Some(301));
    assert_eq!(campaign.deposit(&account(2)).to_u64(), Some(500));
    assert_eq!(campaign.deposit(&account(3)).to_u64(), Some(0));
    assert_eq!(campaign.target().to_u64(), Some(1000));
    assert_eq!(campaign.deadline(), 100);
}

#[test]
fn fund_of_nothing_is_accepted() {
    let mut campaign = Crowdfunding::init(amount(1000), 100);
    assert_eq!(campaign.fund(10, &account(1), &amount(0)), Ok(()));
    assert!(campaign.deposit(&account(1)).is_zero());
}

#[test]
fn fund_at_deadline_is_refused() {
    let mut campaign = Crowdfunding::init(amount(1000), 100);
    assert_eq!(campaign.fund(50, &account(1), &amount(300)), Ok(()));
    assert_eq!(campaign.fund(100, &account(1), &amount(10)), Err(Error::DeadlineExceeded));
    assert_eq!(campaign.fund(100, &account(2), &amount(10)), Err(Error::DeadlineExceeded));
    assert_eq!(campaign.deposit(&account(1)).to_u64(), Some(300));
    assert_eq!(campaign.deposit(&account(2)).to_u64(), Some(0));
}

#[test]
fn fund_after_deadline_is_refused() {
    let mut campaign = Crowdfunding::init(amount(1000), 100);
    assert_eq!(campaign.fund(101, &account(1), &amount(10)), Err(Error::DeadlineExceeded));
    assert_eq!(campaign.fund(u64::MAX, &account(1), &amount(10)), Err(Error::DeadlineExceeded));
    assert!(campaign.deposit(&account(1)).is_zero());
    assert_eq!(campaign.target().to_u64(), Some(1000));
    assert_eq!(campaign.deadline(), 100);
}

#[test]
fn status_follows_height_and_balance() {
    let campaign = Crowdfunding::init(amount(1000), 100);
    assert_eq!(campaign.status(99, &amount(5000)), Status::FundingPeriod);
    assert_eq!(campaign.status(100, &amount(1000)), Status::Successful);
    assert_eq!(campaign.status(100, &amount(999)), Status::Failed);
    assert_eq!(campaign.status(100, &amount(0)), Status::Failed);
}

#[test]
fn claim_during_funding_period_is_refused() {
    let mut campaign = Crowdfunding::init(amount(1000), 100);
    assert_eq!(campaign.fund(50, &account(1), &amount(300)), Ok(()));
    assert_eq!(
        campaign.claim(99, &amount(300), &account(1), &owner()),
        Err(Error::ClaimTooEarly)
    );
    assert_eq!(
        campaign.claim(99, &amount(5000), &owner(), &owner()),
        Err(Error::ClaimTooEarly)
    );
    assert_eq!(campaign.deposit(&account(1)).to_u64(), Some(300));
}

#[test]
fn claim_of_success_by_stranger_is_refused() {
    let mut campaign = Crowdfunding::init(amount(1000), 100);
    assert_eq!(campaign.fund(50, &account(1), &amount(1200)), Ok(()));
    assert_eq!(
        campaign.claim(150, &amount(1200), &account(1), &owner()),
        Err(Error::Unauthorized)
    );
    assert_eq!(
        campaign.claim(150, &amount(1200), &account(2), &owner()),
        Err(Error::Unauthorized)
    );
    assert_eq!(campaign.deposit(&account(1)).to_u64(), Some(1200));
}

#[test]
fn claim_of_success_by_owner_takes_the_whole_balance() {
    let mut campaign = Crowdfunding::init(amount(1000), 100);
    assert_eq!(campaign.fund(50, &account(1), &amount(700)), Ok(()));
    assert_eq!(campaign.fund(60, &account(2), &amount(500)), Ok(()));
    let outcome = campaign.claim(150, &amount(1200), &owner(), &owner());
    assert_eq!(outcome, Ok(Some(Transfer { to: owner(), amount: amount(1200) })));
    assert_eq!(campaign.deposit(&account(1)).to_u64(), Some(700));
    assert_eq!(campaign.deposit(&account(2)).to_u64(), Some(500));
}

#[test]
fn claim_of_success_pays_the_balance_not_the_deposits() {
    let mut campaign = Crowdfunding::init(amount(1000), 100);
    assert_eq!(campaign.fund(50, &account(1), &amount(1000)), Ok(()));
    let outcome = campaign.claim(100, &amount(1234), &owner(), &owner());
    assert_eq!(outcome, Ok(Some(Transfer { to: owner(), amount: amount(1234) })));
}

#[test]
fn claim_of_failure_pays_back_the_deposit() {
    let mut campaign = Crowdfunding::init(amount(1000), 100);
    assert_eq!(campaign.fund(50, &account(1), &amount(300)), Ok(()));
    assert_eq!(campaign.fund(60, &account(2), &amount(200)), Ok(()));
    let outcome = campaign.claim(150, &amount(500), &account(1), &owner());
    assert_eq!(outcome, Ok(Some(Transfer { to: account(1), amount: amount(300) })));
    assert!(campaign.deposit(&account(1)).is_zero());
    assert_eq!(campaign.deposit(&account(2)).to_u64(), Some(200));
    assert_eq!(campaign.target().to_u64(), Some(1000));
    assert_eq!(campaign.deadline(), 100);
}

#[test]
fn claim_of_failure_twice_pays_once() {
    let mut campaign = Crowdfunding::init(amount(1000), 100);
    assert_eq!(campaign.fund(50, &account(1), &amount(300)), Ok(()));
    let first = campaign.claim(150, &amount(300), &account(1), &owner());
    assert_eq!(first, Ok(Some(Transfer { to: account(1), amount: amount(300) })));
    let second = campaign.claim(150, &amount(0), &account(1), &owner());
    assert_eq!(second, Ok(None));
    let third = campaign.claim(151, &amount(0), &account(1), &owner());
    assert_eq!(third, Ok(None));
    assert!(campaign.deposit(&account(1)).is_zero());
}

#[test]
fn claim_of_failure_without_deposit_pays_nothing() {
    let mut campaign = Crowdfunding::init(amount(1000), 100);
    assert_eq!(campaign.fund(50, &account(1), &amount(300)), Ok(()));
    assert_eq!(campaign.claim(150, &amount(300), &account(2), &owner()), Ok(None));
    assert_eq!(campaign.claim(150, &amount(300), &owner(), &owner()), Ok(None));
    assert_eq!(campaign.deposit(&account(1)).to_u64(), Some(300));
}

#[test]
fn owner_is_a_donor_like_any_other_after_failure() {
    let mut campaign = Crowdfunding::init(amount(1000), 100);
    assert_eq!(campaign.fund(50, &owner(), &amount(10)), Ok(()));
    let outcome = campaign.claim(150, &amount(10), &owner(), &owner());
    assert_eq!(outcome, Ok(Some(Transfer { to: owner(), amount: amount(10) })));
    assert!(campaign.deposit(&owner()).is_zero());
}

#[test]
fn failed_campaign_walkthrough() {
    let donor = account(1);
    let mut balance: u64 = 0;
    let mut campaign = Crowdfunding::init(amount(1000), 100);

    balance += 300;
    assert_eq!(campaign.fund(50, &donor, &amount(300)), Ok(()));
    assert_eq!(campaign.deposit(&donor).to_u64(), Some(300));
    assert_eq!(campaign.status(50, &amount(balance)), Status::FundingPeriod);

    assert_eq!(campaign.status(150, &amount(balance)), Status::Failed);
    let first = campaign.claim(150, &amount(balance), &donor, &owner());
    assert_eq!(first, Ok(Some(Transfer { to: donor, amount: amount(300) })));
    balance -= 300;
    assert_eq!(campaign.deposit(&donor).to_u64(), Some(0));

    let second = campaign.claim(150, &amount(balance), &donor, &owner());
    assert_eq!(second, Ok(None));
    assert_eq!(balance, 0);
}

#[test]
fn successful_campaign_walkthrough() {
    let first_donor = account(1);
    let second_donor = account(2);
    let mut balance: u64 = 0;
    let mut campaign = Crowdfunding::init(amount(1000), 100);

    balance += 700;
    assert_eq!(campaign.fund(10, &first_donor, &amount(700)), Ok(()));
    balance += 500;
    assert_eq!(campaign.fund(90, &second_donor, &amount(500)), Ok(()));
    assert_eq!(balance, 1200);

    assert_eq!(campaign.status(150, &amount(balance)), Status::Successful);
    let paid = campaign.claim(150, &amount(balance), &owner(), &owner());
    assert_eq!(paid, Ok(Some(Transfer { to: owner(), amount: amount(1200) })));
    balance -= 1200;
    assert_eq!(balance, 0);

    // The status is worked out from the balance of the moment, so the
    // emptied campaign now reads as failed, and donors who claim are handed
    // transfers that the empty balance cannot cover.
    assert_eq!(campaign.status(150, &amount(balance)), Status::Failed);
    let late = campaign.claim(151, &amount(balance), &first_donor, &owner());
    assert_eq!(late, Ok(Some(Transfer { to: first_donor, amount: amount(700) })));
    assert!(campaign.deposit(&first_donor).is_zero());
    assert_eq!(campaign.deposit(&second_donor).to_u64(), Some(500));
}

#[test]
fn zero_target_stays_successful_when_emptied() {
    let mut campaign = Crowdfunding::init(amount(0), 100);
    let paid = campaign.claim(100, &amount(0), &owner(), &owner());
    assert_eq!(paid, Ok(Some(Transfer { to: owner(), amount: amount(0) })));
    assert_eq!(campaign.status(100, &amount(0)), Status::Successful);
}

#[test]
fn amounts_beyond_64_bits() {
    let mut campaign = Crowdfunding::init(BigUint::from_bytes_be(&[1, 0, 0, 0, 0, 0, 0, 0, 0]), 5);
    assert_eq!(campaign.fund(1, &account(1), &amount(u64::MAX)), Ok(()));
    assert_eq!(campaign.fund(2, &account(1), &amount(1)), Ok(()));
    let deposit = campaign.deposit(&account(1));
    assert_eq!(deposit.to_u64(), None);
    assert_eq!(deposit.to_bytes_be(), vec![1u8, 0, 0, 0, 0, 0, 0, 0, 0]);
    assert_eq!(campaign.status(5, &deposit), Status::Successful);
    assert_eq!(campaign.status(5, &amount(u64::MAX)), Status::Failed);
}

#[test]
fn error_messages() {
    assert_eq!(Error::DeadlineExceeded.message(), "cannot fund after deadline");
    assert_eq!(Error::ClaimTooEarly.message(), "cannot claim before deadline");
    assert_eq!(Error::Unauthorized.message(), "only owner can claim successful funding");
}
