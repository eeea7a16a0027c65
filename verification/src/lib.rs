//! A staking contract: holders lock tokens for a number of days, earn a
//! reward from a safe of tokens, and receive a tier and credits by the amount
//! they hold; credits can be placed with projects and taken back.
pub mod assoc;
pub mod errors;
pub mod encoding;
pub mod time;
pub mod types;
pub mod order;
pub mod tiers;
pub mod state;
pub mod staking;
pub mod credits;
pub mod reward;
pub mod contract;
pub mod laws;
pub mod rules;
pub mod bounds;
