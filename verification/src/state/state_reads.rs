//! Pure lookups into the vault state.
use vstd::prelude::*;

use crate::state::ledger::account_of;
use crate::state::state_entries::{
    find_balance_index, find_handler_index, lemma_balances_map_absent, lemma_balances_map_index,
    lemma_handlers_map_absent, lemma_handlers_map_index, VaultState,
};
use crate::structs::CurrencyAccount;

verus! {

/// Whether `caller` is the administrator.
pub fn is_admin(state: &VaultState, caller: &String) -> (r: bool)
    ensures
        r == (state@.admin == caller@),
{
    state.admin == *caller
}

/// Whether `target` is an authorized handler. An absent entry reads as
/// false, never as an error.
pub fn is_authorized_handler(state: &VaultState, target: &String) -> (r: bool)
    requires
        state.wf(),
    ensures
        r == state@.handler_authorized(target@),
{
    match find_handler_index(&state.handlers, target) {
        Some(i) => {
            proof {
                lemma_handlers_map_index(state.handlers@, i as int);
            }
            state.handlers[i].authorized
        },
        None => {
            proof {
                lemma_handlers_map_absent(state.handlers@, target@);
            }
            false
        },
    }
}

/// Whether `currency_identifier` is in the currency registry.
pub fn is_valid_currency(state: &VaultState, currency_identifier: &String) -> (r: bool)
    ensures
        r == state@.registered(currency_identifier@),
{
    let ghost views = state@.currencies;
    let mut i: usize = 0;
    while i < state.currencies.len()
        invariant
            i <= state.currencies@.len(),
            views == state@.currencies,
            views.len() == state.currencies@.len(),
            forall|j: int| 0 <= j < views.len() ==> views[j] == state.currencies@[j]@,
            forall|j: int| 0 <= j < i ==> views[j] != currency_identifier@,
        decreases state.currencies@.len() - i,
    {
        if state.currencies[i] == *currency_identifier {
            assert(views[i as int] == currency_identifier@);
            assert(views.contains(currency_identifier@));
            return true;
        }
        i += 1;
    }
    assert(!views.contains(currency_identifier@)) by {
        if views.contains(currency_identifier@) {
            let j = choose|j: int| 0 <= j < views.len() && views[j] == currency_identifier@;
        }
    }
    false
}

/// The account of (owner, currency): the stored row, or the zero account
/// where none was ever written. Never fails.
pub fn get_currency_account(
    state: &VaultState,
    owner: &String,
    currency_identifier: &String,
) -> (r: CurrencyAccount)
    requires
        state.wf(),
    ensures
        r == account_of(state@.balances, (owner@, currency_identifier@)),
{
    match find_balance_index(&state.balances, owner, currency_identifier) {
        Some(i) => {
            proof {
                lemma_balances_map_index(state.balances@, i as int);
            }
            state.balances[i].account
        },
        None => {
            proof {
                lemma_balances_map_absent(state.balances@, (owner@, currency_identifier@));
            }
            CurrencyAccount::new()
        },
    }
}

/// One account per registered currency, in registry order, zero-valued
/// where never written.
pub fn get_all_currency_accounts(state: &VaultState, owner: &String) -> (r: Vec<CurrencyAccount>)
    requires
        state.wf(),
    ensures
        r@.len() == state@.currencies.len(),
        forall|i: int|
            0 <= i < r@.len() ==> r@[i] == account_of(
                state@.balances,
                (owner@, state@.currencies[i]),
            ),
{
    let mut accounts: Vec<CurrencyAccount> = Vec::new();
    let mut i: usize = 0;
    while i < state.currencies.len()
        invariant
            state.wf(),
            i <= state.currencies@.len(),
            state@.currencies.len() == state.currencies@.len(),
            forall|j: int| 0 <= j < state.currencies@.len() ==> state@.currencies[j]
                == state.currencies@[j]@,
            accounts@.len() == i,
            forall|j: int|
                0 <= j < i ==> accounts@[j] == account_of(
                    state@.balances,
                    (owner@, state@.currencies[j]),
                ),
        decreases state.currencies@.len() - i,
    {
        let acc = get_currency_account(state, owner, &state.currencies[i]);
        accounts.push(acc);
        i += 1;
    }
    accounts
}

} // verus!
