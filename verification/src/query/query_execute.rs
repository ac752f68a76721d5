//! Handlers for the read-only requests.
use vstd::prelude::*;

use crate::query::query_response::{AllCurrencyAccountResponse, CurrencyAccountResponse};
use crate::state::ledger::account_of;
use crate::state::state_entries::VaultState;
use crate::state::state_reads;

verus! {

/// A liveness probe; always answers yes.
pub fn sample_query(_state: &VaultState) -> (r: bool)
    ensures
        r,
{
    true
}

/// The account of one (owner, currency) pair; zero-valued where never
/// written, never an error.
pub fn get_currency_account(
    state: &VaultState,
    account_owner: String,
    currency_id: String,
) -> (r: CurrencyAccountResponse)
    requires
        state.wf(),
    ensures
        r.account == account_of(state@.balances, (account_owner@, currency_id@)),
{
    let account = state_reads::get_currency_account(state, &account_owner, &currency_id);
    CurrencyAccountResponse { account }
}

/// One account per registered currency, in registry order.
pub fn get_all_currency_accounts(state: &VaultState, account_owner: String) -> (r:
    AllCurrencyAccountResponse)
    requires
        state.wf(),
    ensures
        r.accounts@.len() == state@.currencies.len(),
        forall|i: int|
            0 <= i < r.accounts@.len() ==> r.accounts@[i] == account_of(
                state@.balances,
                (account_owner@, state@.currencies[i]),
            ),
{
    let accounts = state_reads::get_all_currency_accounts(state, &account_owner);
    AllCurrencyAccountResponse { accounts }
}

} // verus!
