//! The mutating operations on the vault state.
//!
//! Every operation is atomic against the state it takes: an error return is
//! its only observable effect, so no failed call leaves a partial write
//! behind. Contracts are stated over the map view of the ledger through the
//! model functions of [`crate::state::ledger`].
use vstd::prelude::*;

use crate::error::ContractError;
use crate::state::ledger::{
    deposit_map, deposit_ok, lock_map, lock_ok, transfer_debited, transfer_map, transfer_ok,
    unlock_map, unlock_ok,
};
use crate::state::registry::{
    keeps, lemma_filter_push, lemma_register_distinct, register_spec, seq_distinct,
};
use crate::state::state_entries::{
    currency_views, entry_key, find_balance_index, find_handler_index, lemma_balances_map_absent,
    lemma_balances_map_index, lemma_balances_map_push, lemma_balances_map_update,
    lemma_handlers_map_absent, lemma_handlers_map_index, lemma_handlers_map_push,
    lemma_handlers_map_update, BalanceEntry, HandlerEntry, VaultState, VaultView,
};
use crate::structs::CurrencyAccount;

verus! {

/// Replace the administrator.
pub fn update_admin(state: &mut VaultState, new_admin: String)
    requires
        old(state).wf(),
    ensures
        final(state).wf(),
        final(state)@ == (VaultView { admin: new_admin@, ..old(state)@ }),
{
    state.admin = new_admin;
    proof {
        assert(state@ =~= (VaultView { admin: new_admin@, ..old(state)@ }));
    }
}

/// Overwrite whether `target` is an authorized handler; no history is kept.
pub fn set_authorization_status(state: &mut VaultState, target: String, new_status: bool)
    requires
        old(state).wf(),
    ensures
        final(state).wf(),
        final(state)@ == (VaultView {
            handlers: old(state)@.handlers.insert(target@, new_status),
            ..old(state)@
        }),
{
    let ghost old_handlers = state.handlers@;
    match find_handler_index(&state.handlers, &target) {
        Some(i) => {
            let entry = HandlerEntry { addr: target, authorized: new_status };
            let ghost ge = entry;
            state.handlers[i] = entry;
            proof {
                lemma_handlers_map_update(old_handlers, i as int, ge);
                assert forall|p: int, q: int|
                    #![trigger state.handlers@[p], state.handlers@[q]]
                    0 <= p < q < state.handlers@.len() implies state.handlers@[p].addr@
                    != state.handlers@[q].addr@ by {
                    assert(old_handlers[p].addr@ != old_handlers[q].addr@);
                    assert(state.handlers@[p].addr@ == old_handlers[p].addr@);
                    assert(state.handlers@[q].addr@ == old_handlers[q].addr@);
                }
                assert(state@ =~= (VaultView {
                    handlers: old(state)@.handlers.insert(ge.addr@, new_status),
                    ..old(state)@
                }));
            }
        },
        None => {
            let entry = HandlerEntry { addr: target, authorized: new_status };
            let ghost ge = entry;
            state.handlers.push(entry);
            proof {
                lemma_handlers_map_push(old_handlers, ge);
                assert forall|p: int, q: int|
                    #![trigger state.handlers@[p], state.handlers@[q]]
                    0 <= p < q < state.handlers@.len() implies state.handlers@[p].addr@
                    != state.handlers@[q].addr@ by {
                    if q < old_handlers.len() {
                        assert(old_handlers[p].addr@ != old_handlers[q].addr@);
                    } else {
                        assert(state.handlers@[q] == ge);
                        assert(old_handlers[p].addr@ != ge.addr@);
                    }
                }
                assert(state@ =~= (VaultView {
                    handlers: old(state)@.handlers.insert(ge.addr@, new_status),
                    ..old(state)@
                }));
            }
        },
    }
}

/// Accept `currency_identifier`: any occurrence it already has is dropped and
/// the identifier is appended, so registering twice registers once.
pub fn add_valid_currency(state: &mut VaultState, currency_identifier: String)
    requires
        old(state).wf(),
    ensures
        final(state).wf(),
        final(state)@ == (VaultView {
            currencies: register_spec(old(state)@.currencies, currency_identifier@),
            ..old(state)@
        }),
{
    let ghost old_cs = state.currencies@;
    let ghost old_views = state@.currencies;
    let ghost pred = keeps(currency_identifier@);
    proof {
        assert forall|p: int, q: int| 0 <= p < q < old_views.len() implies old_views[p]
            != old_views[q] by {
            assert(old_views[p] == old_cs[p]@);
            assert(old_views[q] == old_cs[q]@);
        }
        assert(seq_distinct(old_views));
    }
    let mut kept: Vec<String> = Vec::new();
    let mut i: usize = 0;
    while i < state.currencies.len()
        invariant
            i <= old_cs.len(),
            state.currencies@ == old_cs,
            old_views == currency_views(old_cs),
            pred == keeps(currency_identifier@),
            currency_views(kept@) == old_views.take(i as int).filter(pred),
        decreases old_cs.len() - i,
    {
        let ghost kept0 = kept@;
        let keep_it = !(state.currencies[i] == currency_identifier);
        if keep_it {
            kept.push(state.currencies[i].clone());
        }
        proof {
            assert(old_views.take(i + 1) =~= old_views.take(i as int).push(old_views[i as int]));
            lemma_filter_push(old_views.take(i as int), pred, old_views[i as int]);
            assert(old_views[i as int] == old_cs[i as int]@);
            assert(pred(old_views[i as int]) == keep_it);
            if keep_it {
                assert(currency_views(kept@) =~= currency_views(kept0).push(old_cs[i as int]@));
            }
        }
        i += 1;
    }
    proof {
        assert(old_views.take(old_cs.len() as int) =~= old_views);
    }
    let ghost kept0 = kept@;
    kept.push(currency_identifier);
    proof {
        assert(currency_views(kept@) =~= currency_views(kept0).push(currency_identifier@));
        assert(currency_views(kept@) == register_spec(old_views, currency_identifier@));
    }
    state.currencies = kept;
    proof {
        lemma_register_distinct(old_views, currency_identifier@);
        assert forall|p: int, q: int|
            #![trigger state.currencies@[p], state.currencies@[q]]
            0 <= p < q < state.currencies@.len() implies state.currencies@[p]@
            != state.currencies@[q]@ by {
            let nv = currency_views(state.currencies@);
            assert(nv[p] == state.currencies@[p]@);
            assert(nv[q] == state.currencies@[q]@);
            assert(nv[p] != nv[q]);
        }
        assert(state@ =~= (VaultView {
            currencies: register_spec(old_views, currency_identifier@),
            ..old(state)@
        }));
    }
}

/// Overwrite the account stored at row `i`, keeping its key.
fn set_balance_at(state: &mut VaultState, i: usize, account: CurrencyAccount)
    requires
        old(state).wf(),
        i < old(state).balances@.len(),
    ensures
        final(state).wf(),
        final(state).balances@ == old(state).balances@.update(
            i as int,
            BalanceEntry {
                owner: old(state).balances@[i as int].owner,
                currency: old(state).balances@[i as int].currency,
                account,
            },
        ),
        final(state)@ == (VaultView {
            balances: old(state)@.balances.insert(
                entry_key(old(state).balances@[i as int]),
                account,
            ),
            ..old(state)@
        }),
{
    let ghost old_entries = state.balances@;
    let entry = BalanceEntry {
        owner: state.balances[i].owner.clone(),
        currency: state.balances[i].currency.clone(),
        account,
    };
    let ghost ge = entry;
    state.balances[i] = entry;
    proof {
        assert(ge == (BalanceEntry {
            owner: old_entries[i as int].owner,
            currency: old_entries[i as int].currency,
            account,
        }));
        lemma_balances_map_update(old_entries, i as int, ge);
        assert forall|p: int, q: int|
            #![trigger state.balances@[p], state.balances@[q]]
            0 <= p < q < state.balances@.len() implies entry_key(state.balances@[p]) != entry_key(
            state.balances@[q],
        ) by {
            assert(entry_key(old_entries[p]) != entry_key(old_entries[q]));
            assert(entry_key(state.balances@[p]) == entry_key(old_entries[p]));
            assert(entry_key(state.balances@[q]) == entry_key(old_entries[q]));
        }
        assert(state@ =~= (VaultView {
            balances: old(state)@.balances.insert(entry_key(old_entries[i as int]), account),
            ..old(state)@
        }));
    }
}

/// Append a row whose key no existing row has.
fn push_balance(state: &mut VaultState, owner: String, currency: String, account: CurrencyAccount)
    requires
        old(state).wf(),
        forall|i: int|
            0 <= i < old(state).balances@.len() ==> entry_key(#[trigger] old(state).balances@[i])
                != (owner@, currency@),
    ensures
        final(state).wf(),
        final(state).balances@ == old(state).balances@.push(
            BalanceEntry { owner, currency, account },
        ),
        final(state)@ == (VaultView {
            balances: old(state)@.balances.insert((owner@, currency@), account),
            ..old(state)@
        }),
{
    let ghost old_entries = state.balances@;
    let entry = BalanceEntry { owner, currency, account };
    let ghost ge = entry;
    state.balances.push(entry);
    proof {
        lemma_balances_map_push(old_entries, ge);
        assert forall|p: int, q: int|
            #![trigger state.balances@[p], state.balances@[q]]
            0 <= p < q < state.balances@.len() implies entry_key(state.balances@[p]) != entry_key(
            state.balances@[q],
        ) by {
            if q < old_entries.len() {
                assert(entry_key(old_entries[p]) != entry_key(old_entries[q]));
            } else {
                assert(state.balances@[q] == ge);
                assert(entry_key(old_entries[p]) != entry_key(ge));
            }
        }
        assert(state@ =~= (VaultView {
            balances: old(state)@.balances.insert(entry_key(ge), account),
            ..old(state)@
        }));
    }
}

/// Overwrite the whole account of (beneficiary, currency), creating the row
/// where absent.
pub fn update_currency_account(
    state: &mut VaultState,
    beneficiary: String,
    currency_identifier: String,
    account_data: CurrencyAccount,
)
    requires
        old(state).wf(),
    ensures
        final(state).wf(),
        final(state)@ == (VaultView {
            balances: old(state)@.balances.insert(
                (beneficiary@, currency_identifier@),
                account_data,
            ),
            ..old(state)@
        }),
{
    match find_balance_index(&state.balances, &beneficiary, &currency_identifier) {
        Some(i) => {
            set_balance_at(state, i, account_data);
        },
        None => {
            push_balance(state, beneficiary, currency_identifier, account_data);
        },
    }
}

/// Credit `amount` to the available balance of (beneficiary, currency),
/// creating the account where absent. Fails only on arithmetic overflow,
/// and then changes nothing.
pub fn update_deposit(
    state: &mut VaultState,
    beneficiary: String,
    currency_identifier: String,
    amount: u128,
) -> (r: Result<(), ContractError>)
    requires
        old(state).wf(),
    ensures
        final(state).wf(),
        ({
            let k = (beneficiary@, currency_identifier@);
            let m = old(state)@.balances;
            match r {
                Ok(_) => deposit_ok(m, k, amount) && final(state)@ == (VaultView {
                    balances: deposit_map(m, k, amount),
                    ..old(state)@
                }),
                Err(e) => {
                    &&& !deposit_ok(m, k, amount)
                    &&& e == ContractError::Overflow
                    &&& final(state)@ == old(state)@
                },
            }
        }),
{
    match find_balance_index(&state.balances, &beneficiary, &currency_identifier) {
        Some(i) => {
            proof {
                lemma_balances_map_index(state.balances@, i as int);
            }
            let acc = state.balances[i].account;
            match acc.available.checked_add(amount) {
                None => Err(ContractError::Overflow),
                Some(v) => {
                    set_balance_at(state, i, CurrencyAccount { available: v, locked: acc.locked });
                    Ok(())
                },
            }
        },
        None => {
            proof {
                lemma_balances_map_absent(state.balances@, (beneficiary@, currency_identifier@));
            }
            push_balance(
                state,
                beneficiary,
                currency_identifier,
                CurrencyAccount { available: amount, locked: 0 },
            );
            Ok(())
        },
    }
}

/// Reserve `amount_to_lock` out of the available balance of
/// (account_holder, currency): available -= amount, locked += amount.
/// Fails on a missing account, on an amount the available balance does not
/// cover, or on overflow of the locked side; a failure changes nothing.
pub fn increase_locked_value(
    state: &mut VaultState,
    account_holder: String,
    currency_identifier: String,
    amount_to_lock: u128,
) -> (r: Result<(), ContractError>)
    requires
        old(state).wf(),
    ensures
        final(state).wf(),
        ({
            let k = (account_holder@, currency_identifier@);
            let m = old(state)@.balances;
            match r {
                Ok(_) => lock_ok(m, k, amount_to_lock) && final(state)@ == (VaultView {
                    balances: lock_map(m, k, amount_to_lock),
                    ..old(state)@
                }),
                Err(e) => {
                    &&& !lock_ok(m, k, amount_to_lock)
                    &&& final(state)@ == old(state)@
                    &&& (if !m.dom().contains(k) {
                        e == (ContractError::AccountNotFound {
                            owner: account_holder,
                            currency_identifier,
                        })
                    } else if amount_to_lock > m[k].available {
                        e == (ContractError::InsufficientFundsAvailableForLock {
                            currency_identifier,
                            available: m[k].available,
                            required: amount_to_lock,
                        })
                    } else {
                        e == ContractError::Overflow
                    })
                },
            }
        }),
{
    match find_balance_index(&state.balances, &account_holder, &currency_identifier) {
        None => {
            proof {
                lemma_balances_map_absent(state.balances@, (account_holder@, currency_identifier@));
            }
            Err(ContractError::AccountNotFound { owner: account_holder, currency_identifier })
        },
        Some(i) => {
            proof {
                lemma_balances_map_index(state.balances@, i as int);
            }
            let acc = state.balances[i].account;
            if amount_to_lock > acc.available {
                Err(ContractError::InsufficientFundsAvailableForLock {
                    currency_identifier,
                    available: acc.available,
                    required: amount_to_lock,
                })
            } else {
                match acc.locked.checked_add(amount_to_lock) {
                    None => Err(ContractError::Overflow),
                    Some(new_locked) => {
                        set_balance_at(
                            state,
                            i,
                            CurrencyAccount {
                                available: acc.available - amount_to_lock,
                                locked: new_locked,
                            },
                        );
                        Ok(())
                    },
                }
            }
        },
    }
}

/// Release `amount_to_unlock` out of the locked balance of
/// (account_holder, currency): locked -= amount, available += amount.
/// Fails on a missing account, on an amount the locked balance does not
/// cover, or on overflow of the available side; a failure changes nothing.
pub fn decrease_locked_value(
    state: &mut VaultState,
    account_holder: String,
    currency_identifier: String,
    amount_to_unlock: u128,
) -> (r: Result<(), ContractError>)
    requires
        old(state).wf(),
    ensures
        final(state).wf(),
        ({
            let k = (account_holder@, currency_identifier@);
            let m = old(state)@.balances;
            match r {
                Ok(_) => unlock_ok(m, k, amount_to_unlock) && final(state)@ == (VaultView {
                    balances: unlock_map(m, k, amount_to_unlock),
                    ..old(state)@
                }),
                Err(e) => {
                    &&& !unlock_ok(m, k, amount_to_unlock)
                    &&& final(state)@ == old(state)@
                    &&& (if !m.dom().contains(k) {
                        e == (ContractError::AccountNotFound {
                            owner: account_holder,
                            currency_identifier,
                        })
                    } else if amount_to_unlock > m[k].locked {
                        e == (ContractError::InsufficientFundsLockedForUnlock {
                            currency_identifier,
                            available: m[k].locked,
                            required: amount_to_unlock,
                        })
                    } else {
                        e == ContractError::Overflow
                    })
                },
            }
        }),
{
    match find_balance_index(&state.balances, &account_holder, &currency_identifier) {
        None => {
            proof {
                lemma_balances_map_absent(state.balances@, (account_holder@, currency_identifier@));
            }
            Err(ContractError::AccountNotFound { owner: account_holder, currency_identifier })
        },
        Some(i) => {
            proof {
                lemma_balances_map_index(state.balances@, i as int);
            }
            let acc = state.balances[i].account;
            if amount_to_unlock > acc.locked {
                Err(ContractError::InsufficientFundsLockedForUnlock {
                    currency_identifier,
                    available: acc.locked,
                    required: amount_to_unlock,
                })
            } else {
                match acc.available.checked_add(amount_to_unlock) {
                    None => Err(ContractError::Overflow),
                    Some(new_available) => {
                        set_balance_at(
                            state,
                            i,
                            CurrencyAccount {
                                available: new_available,
                                locked: acc.locked - amount_to_unlock,
                            },
                        );
                        Ok(())
                    },
                }
            }
        },
    }
}

/// Settle `amount_to_transfer` of (account_holder, currency)'s locked funds
/// into the available balance of (beneficiary, currency), creating the
/// recipient's account where absent. Both writes happen or neither does.
pub fn transfer_locked_value(
    state: &mut VaultState,
    account_holder: String,
    beneficiary: String,
    currency_identifier: String,
    amount_to_transfer: u128,
) -> (r: Result<(), ContractError>)
    requires
        old(state).wf(),
    ensures
        final(state).wf(),
        ({
            let kf = (account_holder@, currency_identifier@);
            let kt = (beneficiary@, currency_identifier@);
            let m = old(state)@.balances;
            match r {
                Ok(_) => transfer_ok(m, kf, kt, amount_to_transfer) && final(state)@ == (VaultView {
                    balances: transfer_map(m, kf, kt, amount_to_transfer),
                    ..old(state)@
                }),
                Err(e) => {
                    &&& !transfer_ok(m, kf, kt, amount_to_transfer)
                    &&& final(state)@ == old(state)@
                    &&& (if !m.dom().contains(kf) {
                        e == (ContractError::AccountNotFound {
                            owner: account_holder,
                            currency_identifier,
                        })
                    } else if amount_to_transfer > m[kf].locked {
                        e == (ContractError::InsufficientFundsLockedForTransfer {
                            currency_identifier,
                            available: m[kf].locked,
                            required: amount_to_transfer,
                        })
                    } else {
                        e == ContractError::Overflow
                    })
                },
            }
        }),
{
    let ghost m = old(state)@.balances;
    let ghost kf = (account_holder@, currency_identifier@);
    let ghost kt = (beneficiary@, currency_identifier@);
    let from_idx = match find_balance_index(&state.balances, &account_holder, &currency_identifier) {
        None => {
            proof {
                lemma_balances_map_absent(state.balances@, kf);
            }
            return Err(ContractError::AccountNotFound {
                owner: account_holder,
                currency_identifier,
            });
        },
        Some(i) => i,
    };
    proof {
        lemma_balances_map_index(state.balances@, from_idx as int);
    }
    let from_acc = state.balances[from_idx].account;
    if amount_to_transfer > from_acc.locked {
        return Err(ContractError::InsufficientFundsLockedForTransfer {
            currency_identifier,
            available: from_acc.locked,
            required: amount_to_transfer,
        });
    }
    let new_from = CurrencyAccount {
        available: from_acc.available,
        locked: from_acc.locked - amount_to_transfer,
    };
    proof {
        assert(transfer_debited(m, kf, amount_to_transfer) == m.insert(kf, new_from));
    }
    if account_holder == beneficiary {
        // the recipient is the debited account itself: the funds simply move
        // from its locked to its available side
        match new_from.available.checked_add(amount_to_transfer) {
            None => Err(ContractError::Overflow),
            Some(new_avail) => {
                set_balance_at(
                    state,
                    from_idx,
                    CurrencyAccount { available: new_avail, locked: new_from.locked },
                );
                proof {
                    assert(state@.balances =~= transfer_map(m, kf, kt, amount_to_transfer));
                    assert(state@ =~= (VaultView {
                        balances: transfer_map(m, kf, kt, amount_to_transfer),
                        ..old(state)@
                    }));
                }
                Ok(())
            },
        }
    } else {
        match find_balance_index(&state.balances, &beneficiary, &currency_identifier) {
            Some(j) => {
                proof {
                    lemma_balances_map_index(state.balances@, j as int);
                    assert(j != from_idx);
                }
                let to_acc = state.balances[j].account;
                match to_acc.available.checked_add(amount_to_transfer) {
                    None => Err(ContractError::Overflow),
                    Some(new_avail) => {
                        set_balance_at(state, from_idx, new_from);
                        proof {
                            assert(state.balances@[j as int] == old(state).balances@[j as int]);
                            assert(entry_key(state.balances@[j as int]) == kt);
                        }
                        set_balance_at(
                            state,
                            j,
                            CurrencyAccount { available: new_avail, locked: to_acc.locked },
                        );
                        proof {
                            assert(state@.balances =~= transfer_map(m, kf, kt, amount_to_transfer));
                            assert(state@ =~= (VaultView {
                                balances: transfer_map(m, kf, kt, amount_to_transfer),
                                ..old(state)@
                            }));
                        }
                        Ok(())
                    },
                }
            },
            None => {
                proof {
                    lemma_balances_map_absent(state.balances@, kt);
                }
                set_balance_at(state, from_idx, new_from);
                proof {
                    assert forall|i: int|
                        0 <= i < state.balances@.len() implies entry_key(
                        #[trigger] state.balances@[i],
                    ) != kt by {
                        assert(entry_key(state.balances@[i]) == entry_key(
                            old(state).balances@[i],
                        ));
                    }
                }
                push_balance(
                    state,
                    beneficiary,
                    currency_identifier,
                    CurrencyAccount { available: amount_to_transfer, locked: 0 },
                );
                proof {
                    assert(state@.balances =~= transfer_map(m, kf, kt, amount_to_transfer));
                    assert(state@ =~= (VaultView {
                        balances: transfer_map(m, kf, kt, amount_to_transfer),
                        ..old(state)@
                    }));
                }
                Ok(())
            },
        }
    }
}

} // verus!
