//! Privileged requests: only the administrator may issue these.
use vstd::prelude::*;

verus! {

/// A mutation of the authorization directory or of the currency registry.
#[derive(Clone, Debug, PartialEq)]
pub enum AdminExecuteMsg {
    /// Overwrite whether `target` is an authorized handler.
    SetAuthorizationStatus { target: String, new_status: bool },
    /// Accept a currency identifier; re-adding is idempotent.
    AddValidCurrency { currency_id: String },
}

} // verus!
