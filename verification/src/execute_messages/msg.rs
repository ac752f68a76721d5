//! The inbound request shapes the vault executes. Amounts arrive as decimal
//! strings at this boundary and are parsed once before they reach the ledger.
use vstd::prelude::*;

use crate::execute_messages::msg_admin::AdminExecuteMsg;

verus! {

#[derive(Clone, Debug, PartialEq)]
pub struct MigrateMsg {}

/// One request against the vault.
#[derive(Clone, Debug, PartialEq)]
pub enum ExecuteMsg {
    /// Privileged mutation of registry or authorization directory.
    Admin(AdminExecuteMsg),
    /// Token receive hook (push pattern): the calling token contract already
    /// moved `amount` into custody; `msg` embeds the encoded beneficiary.
    Receive { sender: String, amount: u128, msg: Vec<u8> },
    /// Credit the platform-attached native funds to `beneficiary`.
    DepositNative { beneficiary: String },
    /// Credit `beneficiary`, then ask the token contract to pull `amount`
    /// from `sender` into custody.
    DepositCw20 { sender: String, beneficiary: String, token_address: String, amount: String },
    /// Debit the caller's own native balance and send it to `beneficiary`.
    WithdrawNative { beneficiary: String, denom: String, amount: String },
    /// Debit the caller's own token balance and send it to `beneficiary`.
    WithdrawCw20 { beneficiary: String, token_address: String, amount: String },
    /// Reserve part of `account`'s available balance (handlers only).
    Lock { account: String, currency_identifier: String, amount: String },
    /// Release part of `account`'s locked balance (handlers only).
    Unlock { account: String, currency_identifier: String, amount: String },
    /// Settle locked funds of `account` into `beneficiary`'s available
    /// balance (handlers only).
    TransferLocked { account: String, currency_identifier: String, amount: String, beneficiary: String },
}

} // verus!
