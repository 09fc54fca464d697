//! Core rules of a concentrated-liquidity pool.
//!
//! The heart of the crate is the tick bitmap index in `states::tick_bitmap`:
//! where a tick is kept, how it is flipped, and how the next initialized tick
//! is found. `states::fee` and `states::pool` hold the rules of fee tiers and
//! of protocol fees.

pub mod error;
pub mod states;
