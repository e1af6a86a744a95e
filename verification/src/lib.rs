//! The on-chain logic of the EXO / GCRED token programs, the bridge that
//! mints and burns both tokens, and the EXO staking program.
//!
//! Each program is a module. Its instructions are functions from the account
//! state and the instruction's arguments to a new state and the token
//! operations that the runtime must then perform.

pub mod pubkey;
pub mod amount;
pub mod exo_token;
pub mod gcred_token;
pub mod bridge;
pub mod staking_reward;
