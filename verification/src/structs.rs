//! Core value types of the vault: per-currency accounts, currency
//! descriptions, request metadata, and the outbound asset-movement intents
//! that operations emit instead of performing settlement themselves.
use vstd::prelude::*;

use crate::error::ContractError;

verus! {

/// A single owner's holdings in one currency, split into the part the owner
/// may withdraw (`available`) and the part reserved by an authorized handler
/// (`locked`).
#[derive(Clone, Copy, Debug, PartialEq, Eq, Structural)]
pub struct CurrencyAccount {
    pub available: u128,
    pub locked: u128,
}

impl CurrencyAccount {
    /// The zero-valued account, the state every (owner, currency) pair starts in.
    pub fn new() -> (r: Self)
        ensures
            r == (CurrencyAccount { available: 0u128, locked: 0u128 }),
    {
        CurrencyAccount { available: 0, locked: 0 }
    }

    /// The funds this account holds in total, whether available or locked.
    pub open spec fn total(self) -> int {
        self.available + self.locked
    }
}

/// Description of an accepted currency: a native denomination or a
/// token-contract reference.
#[derive(Clone, Debug, PartialEq)]
pub enum Currency {
    Native { name: String, denom: String, ticker: String },
    Cw20 { name: String, ticker: String, token_address: String },
}

/// One native-currency amount attached to a request.
#[derive(Clone, Debug, PartialEq)]
pub struct Coin {
    pub denom: String,
    pub amount: u128,
}

/// Who sent the request and which native funds the platform attached to it.
#[derive(Clone, Debug, PartialEq)]
pub struct MessageInfo {
    pub sender: String,
    pub funds: Vec<Coin>,
}

/// The host-supplied execution context; the vault only reads its own address
/// from it, as the custody target of token pulls.
#[derive(Clone, Debug, PartialEq)]
pub struct Env {
    pub contract_address: String,
}

/// An outbound asset-movement intent. The vault decides amounts and parties;
/// executing the movement is the host platform's job.
#[derive(Clone, Debug, PartialEq)]
pub enum TransferIntent {
    /// Send native funds out of custody.
    NativeTransfer { to_address: String, denom: String, amount: u128 },
    /// Tell a token contract to transfer out of custody.
    Cw20Transfer { token_address: String, recipient: String, amount: u128 },
    /// Tell a token contract to pull funds from `owner` into custody.
    Cw20TransferFrom { token_address: String, owner: String, recipient: String, amount: u128 },
}

/// What a successful request hands back to the host: the intents to execute.
#[derive(Clone, Debug, PartialEq)]
pub struct Response {
    pub messages: Vec<TransferIntent>,
}

impl Response {
    pub fn new() -> (r: Response)
        ensures
            r.messages@ == Seq::<TransferIntent>::empty(),
    {
        Response { messages: Vec::new() }
    }

    pub fn add_message(self, msg: TransferIntent) -> (r: Response)
        ensures
            r.messages@ == self.messages@.push(msg),
    {
        let mut messages = self.messages;
        messages.push(msg);
        Response { messages }
    }
}

impl Default for Response {
    fn default() -> (r: Response)
        ensures
            r.messages@ == Seq::<TransferIntent>::empty(),
    {
        Response::new()
    }
}

/// Whether an executed result agrees with a modelled outcome: the same
/// intents on success, the very same error on failure.
pub open spec fn outcome_matches(
    r: Result<Response, ContractError>,
    out: Result<Seq<TransferIntent>, ContractError>,
) -> bool {
    match (r, out) {
        (Ok(resp), Ok(intents)) => resp.messages@ == intents,
        (Err(e), Err(e2)) => e == e2,
        _ => false,
    }
}

} // verus!
