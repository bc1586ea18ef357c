//! Deposits of spenders into channels.

use vstd::prelude::*;

use crate::channel::Channel;
use crate::ids::Address;

verus! {

/// An amount in the unified precision that all tokens are converted to.
#[derive(Clone, Copy, Debug, PartialEq, Eq, Hash, Structural)]
pub struct UnifiedNum(pub u64);

/// A spender's deposit: the total, and the part still held on the CREATE2 address.
#[derive(Clone, Copy, Debug, PartialEq, Eq, Structural)]
pub struct Deposit {
    pub total: UnifiedNum,
    pub still_on_create2: UnifiedNum,
}

/// What a spender can spend in a channel.
#[derive(Clone, Copy, Debug, PartialEq, Eq)]
pub struct Spendable {
    pub spender: Address,
    pub channel: Channel,
    pub deposit: Deposit,
}

} // verus!
