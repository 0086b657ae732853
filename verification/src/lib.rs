//! Node staking ledger: an owner configures the ledger, an operator opens and
//! closes it, registers stakers, credits income and settles stakes once their
//! cessation block has passed.

pub mod account;
pub mod assets;
pub mod errors;
pub mod laws;
pub mod xaver;

pub use account::AccountId;
pub use assets::{AssetsCall, RuntimeCall};
pub use errors::{ContractError, Error, RuntimeError};
pub use xaver::{Stake, Success, Xaver, XaverEvent, XaverTransactionStatus};
