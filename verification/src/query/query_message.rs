//! The read-only request shapes.
use vstd::prelude::*;

verus! {

#[derive(Clone, Debug, PartialEq)]
pub enum QueryMsg {
    /// One (owner, currency) account; zero-valued where never written.
    GetBalance { account_owner: String, currency_id: String },
    /// One account per registered currency, in registry order.
    GetAllBalances { account_owner: String },
}

} // verus!
