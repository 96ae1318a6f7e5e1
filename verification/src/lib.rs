//! Verified model of two staking contracts of the MultiversX chain: a life-bonding
//! contract that locks bonds of a payment token for data-NFT collections and keeps
//! compensation pools fed by early-withdrawal penalties, and a liveliness-stake contract
//! that distributes rewards to bonders in proportion to their stake.
//!
//! Every endpoint is a method on a plain state type. It either succeeds, updating the
//! state and reporting the transfers and the calls on the other contract that the chain
//! must perform, or it fails with the error the contract signals and leaves the state
//! exactly as it was. Addresses and token identifiers are integers that identify them;
//! amounts are 128-bit integers whose arithmetic is exact and reports `Overflow` where a
//! result leaves that range. What the chain supplies (the caller, the block nonce and
//! timestamp, the owner, the other contract's reports) comes in as arguments.

pub mod types;
pub mod arith;
pub mod tables;
pub mod rewards;
pub mod liveliness;
pub mod bonding;
pub mod ledger;
pub mod deposits;
pub mod history;

pub use liveliness::{CoreMxLivelinessStake, LivelinessStake};
pub use rewards::{RewardsModule, RewardsStorage};
pub use bonding::{LifeBonding, LifeBondingContract};
