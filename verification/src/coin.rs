//! A denominated amount of the native asset.

use vstd::prelude::*;

verus! {

/// One amount of one denomination, as attached to a message or carried
/// by an outbound instruction.
#[derive(Debug, PartialEq, Eq)]
pub struct Coin {
    pub denom: String,
    pub amount: u128,
}

/// Who sent the current message and what funds came with it, as the
/// host hands them in.
pub struct MessageInfo {
    pub sender: String,
    pub funds: Vec<Coin>,
}

} // verus!
