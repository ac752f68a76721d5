//! The error taxonomy of the vault. Every failing request surfaces exactly
//! one of these; no operation panics or silently truncates.
use vstd::prelude::*;

verus! {

/// Why a request was rejected. Insufficient-funds variants carry the currency,
/// the balance found and the amount requested.
#[derive(Clone, Debug, PartialEq, Eq)]
pub enum ContractError {
    /// A host-level failure: an embedded payload that does not decode.
    Std,
    Never,
    NotImplemented,
    InvalidDepositBeneficiary { beneficiary: String },
    /// The host judged an address submitted for validation to be malformed.
    InvalidAddress { address: String },
    Unauthorized,
    StorageItemNotExist { identifier: String },
    NativeCurrencyNotAccepted { denom: String },
    Cw20NotAccepted { token_address: String },
    InsufficientFundsAvailableForLock { currency_identifier: String, available: u128, required: u128 },
    InsufficientFundsLockedForUnlock { currency_identifier: String, available: u128, required: u128 },
    InsufficientFundsLockedForTransfer { currency_identifier: String, available: u128, required: u128 },
    InsufficientFundsAvailableForNativeWithdrawal {
        currency_identifier: String,
        available: u128,
        required: u128,
    },
    InsufficientFundsAvailableForCw20Withdrawal {
        currency_identifier: String,
        available: u128,
        required: u128,
    },
    AccountNotFound { owner: String, currency_identifier: String },
    /// A credit would push a balance past the widest integer the ledger holds.
    Overflow,
    CannotSetOwnAccount,
    InvalidZeroAmount,
    Expired,
    NoAllowance,
    RequiresFunds,
    NotRequiresFunds,
    SingleCurrencyPayable,
    InvalidFundsAmount,
}

} // verus!
