use vstd::prelude::*;

verus! {

/// Error messages of the contract.
///
/// The staking messages report their failures through these variants in the
/// emitted event, not through the returned `Result`.
#[derive(Debug, Clone, Copy, PartialEq, Eq, Structural)]
pub enum Error {
    /// Bad origin error, e.g., wrong caller
    BadOrigin,
    /// Bank is close
    BankIsClose,
    /// Bank account maximum reached
    BankAccountMaxOut,
    /// There is already an existing account
    AccountAlreadyExist,
    /// Account not found
    AccountNotFound,
    /// Account Balance Insufficient
    AccountBalanceInsufficient,
    /// Account Balance Overflow
    AccountBalanceOverflow,
    /// Account frozen
    AccountFrozen,
    /// Xaver is closed for staking
    XaverIsClose,
    /// The account is already staked
    XaverStakeAlreadyExist,
    /// The maximum number of stakes is reached
    XaverStakingMaxOut,
    /// No stake was found for the account
    XaverStakeNotFound,
    /// The cessation block of the stake has not been reached yet
    XaverStakeNotCeased,
}

/// Runtime call execution error
#[derive(Debug, Clone, Copy, PartialEq, Eq, Structural)]
pub enum RuntimeError {
    /// Failed to dispatch a runtime call.
    CallRuntimeFailed,
}

/// Unified contract error type.
#[derive(Debug, Clone, Copy, PartialEq, Eq, Structural)]
pub enum ContractError {
    /// Internal errors.
    Internal(Error),
    /// Runtime call errors.
    Runtime(RuntimeError),
}

impl From<Error> for ContractError {
    fn from(err: Error) -> (r: Self) {
        ContractError::Internal(err)
    }
}

impl vstd::std_specs::convert::FromSpecImpl<Error> for ContractError {
    open spec fn obeys_from_spec() -> bool {
        true
    }

    open spec fn from_spec(v: Error) -> ContractError {
        ContractError::Internal(v)
    }
}

impl From<RuntimeError> for ContractError {
    fn from(err: RuntimeError) -> (r: Self) {
        ContractError::Runtime(err)
    }
}

impl vstd::std_specs::convert::FromSpecImpl<RuntimeError> for ContractError {
    open spec fn obeys_from_spec() -> bool {
        true
    }

    open spec fn from_spec(v: RuntimeError) -> ContractError {
        ContractError::Runtime(v)
    }
}

} // verus!
