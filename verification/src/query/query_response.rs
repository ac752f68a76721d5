//! Answers to the read-only requests.
use vstd::prelude::*;

use crate::structs::CurrencyAccount;

verus! {

#[derive(Clone, Debug, PartialEq)]
pub struct SampleResponse {}

#[derive(Clone, Debug, PartialEq)]
pub struct CurrencyAccountResponse {
    pub account: CurrencyAccount,
}

#[derive(Clone, Debug, PartialEq)]
pub struct AllCurrencyAccountResponse {
    pub accounts: Vec<CurrencyAccount>,
}

/// The answer to a query, one variant per query shape.
#[derive(Clone, Debug, PartialEq)]
pub enum QueryAnswer {
    Balance(CurrencyAccountResponse),
    AllBalances(AllCurrencyAccountResponse),
}

} // verus!
