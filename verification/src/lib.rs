//! A crowdfunding campaign ledger: a funding goal, a deadline, per-donor
//! deposits, and the rules by which funds are paid out.

pub mod address;
pub mod big_uint;
pub mod campaign;
pub mod error;
pub mod laws;
pub mod ledger;
pub mod status;

pub use crate::address::Address;
pub use crate::big_uint::BigUint;
pub use crate::campaign::{CampaignState, Crowdfunding, Payout, Transfer};
pub use crate::error::Error;
pub use crate::ledger::Ledger;
pub use crate::status::Status;
