//! An era-based, pro-rata reward ledger.
//!
//! Participants of a trading platform accrue "volume" through activity; each
//! fixed-length window of time ("era") carries a fixed reward budget that is
//! split among the participants in proportion to the share of the era's total
//! volume each of them contributed.  The ledger keeps, per account, a
//! confirmed (withdrawable) balance and the volume still pending in the
//! account's open era, and, per era, the total volume contributed by all
//! accounts.

pub mod arith;
pub mod ledger;

pub use ledger::Error;
pub use ledger::Pallet;
pub use ledger::Reward;
