//! Verified core of the Top Signals Browser contract: a shared interaction
//! counter with milestones at the positive multiples of ten, a subscription
//! registry, and the rules by which an account earns its one collectible.

pub mod address;
pub mod ledger;
pub mod registry;
pub mod system;
pub mod uint256;
