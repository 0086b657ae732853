use vstd::prelude::*;

use crate::account::AccountId;

verus! {

/// The runtime calls that the ledger dispatches.
#[derive(Debug, Clone, Copy, PartialEq, Eq)]
pub enum RuntimeCall {
    /// Dispatches a call to the `Assets` pallet.
    Assets(AssetsCall),
}

/// The `Assets` pallet calls that the ledger dispatches.
#[derive(Debug, Clone, Copy, PartialEq, Eq)]
pub enum AssetsCall {
    /// Move some assets from the sender account to another.
    ///
    /// Used to transfer tokens into the recipient's balance.
    Transfer { id: u128, target: AccountId, amount: u128 },
}

} // verus!
