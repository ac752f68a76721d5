//! End-to-end scenarios over the ledger: deposits, locking, settling and
//! withdrawing, and the gates and invariants around them.
use vault::contract::{execute, instantiate};
use vault::error::ContractError;
use vault::execute_messages::msg::ExecuteMsg;
use vault::execute_messages::msg_admin::AdminExecuteMsg;
use vault::instantiation::msg::InstantiateMsg;
use vault::query::query_message::QueryMsg;
use vault::query::query_response::QueryAnswer;
use vault::state::state_entries::VaultState;
use vault::structs::{Coin, CurrencyAccount, Env, MessageInfo, TransferIntent};

const ADMIN: &str = "admin";
const HANDLER: &str = "handler";
const OWNER_O: &str = "owner_o";
const OWNER_P: &str = "owner_p";

fn info(sender: &str) -> MessageInfo {
    MessageInfo {
        sender: sender.to_string(),
        funds: vec![],
    }
}

fn info_with_funds(sender: &str, funds: Vec<Coin>) -> MessageInfo {
    MessageInfo {
        sender: sender.to_string(),
        funds,
    }
}

fn coin(amount: u128, denom: &str) -> Coin {
    Coin {
        denom: denom.to_string(),
        amount,
    }
}

fn test_env() -> Env {
    Env {
        contract_address: "vault_contract".to_string(),
    }
}

fn balance(state: &VaultState, owner: &str, currency: &str) -> CurrencyAccount {
    match vault::contract::query(
        state,
        QueryMsg::GetBalance {
            account_owner: owner.to_string(),
            currency_id: currency.to_string(),
        },
    ) {
        QueryAnswer::Balance(resp) => resp.account,
        _ => panic!("balance query answered with the wrong shape"),
    }
}

fn account(available: u128, locked: u128) -> CurrencyAccount {
    CurrencyAccount { available, locked }
}

/// Admin "admin" has registered "X"; "handler" is authorized; owner O holds
/// 1000 "X" available.
fn setup_funded() -> (VaultState, Env) {
    let (mut state, _) = instantiate(info(ADMIN), InstantiateMsg {});
    let env = test_env();
    execute(
        &mut state,
        &env,
        info(ADMIN),
        ExecuteMsg::Admin(AdminExecuteMsg::AddValidCurrency {
            currency_id: "X".to_string(),
        }),
        true,
    )
    .unwrap();
    execute(
        &mut state,
        &env,
        info(ADMIN),
        ExecuteMsg::Admin(AdminExecuteMsg::SetAuthorizationStatus {
            target: HANDLER.to_string(),
            new_status: true,
        }),
        true,
    )
    .unwrap();
    execute(
        &mut state,
        &env,
        info_with_funds(OWNER_O, vec![coin(1000, "X")]),
        ExecuteMsg::DepositNative {
            beneficiary: OWNER_O.to_string(),
        },
        true,
    )
    .unwrap();
    (state, env)
}

fn lock_msg(owner: &str, currency: &str, amount: &str) -> ExecuteMsg {
    ExecuteMsg::Lock {
        account: owner.to_string(),
        currency_identifier: currency.to_string(),
        amount: amount.to_string(),
    }
}

fn unlock_msg(owner: &str, currency: &str, amount: &str) -> ExecuteMsg {
    ExecuteMsg::Unlock {
        account: owner.to_string(),
        currency_identifier: currency.to_string(),
        amount: amount.to_string(),
    }
}

fn transfer_msg(owner: &str, currency: &str, amount: &str, beneficiary: &str) -> ExecuteMsg {
    ExecuteMsg::TransferLocked {
        account: owner.to_string(),
        currency_identifier: currency.to_string(),
        amount: amount.to_string(),
        beneficiary: beneficiary.to_string(),
    }
}

#[test]
fn deposit_creates_funded_account() {
    let (state, _) = setup_funded();
    assert_eq!(balance(&state, OWNER_O, "X"), account(1000, 0));
}

#[test]
fn lock_reserves_and_overdraw_lock_fails() {
    let (mut state, env) = setup_funded();

    execute(&mut state, &env, info(HANDLER), lock_msg(OWNER_O, "X", "400"), true).unwrap();
    assert_eq!(balance(&state, OWNER_O, "X"), account(600, 400));

    let err = execute(&mut state, &env, info(HANDLER), lock_msg(OWNER_O, "X", "700"), true)
        .unwrap_err();
    assert_eq!(
        err,
        ContractError::InsufficientFundsAvailableForLock {
            currency_identifier: "X".to_string(),
            available: 600,
            required: 700,
        }
    );
    assert_eq!(balance(&state, OWNER_O, "X"), account(600, 400));
}

#[test]
fn transfer_locked_lands_available() {
    let (mut state, env) = setup_funded();

    execute(&mut state, &env, info(HANDLER), lock_msg(OWNER_O, "X", "400"), true).unwrap();
    execute(
        &mut state,
        &env,
        info(HANDLER),
        transfer_msg(OWNER_O, "X", "400", OWNER_P),
        true,
    )
    .unwrap();

    assert_eq!(balance(&state, OWNER_O, "X"), account(600, 0));
    assert_eq!(balance(&state, OWNER_P, "X"), account(400, 0));
}

#[test]
fn withdraw_empties_account_and_emits_intent() {
    let (mut state, env) = setup_funded();

    execute(&mut state, &env, info(HANDLER), lock_msg(OWNER_O, "X", "400"), true).unwrap();
    execute(
        &mut state,
        &env,
        info(HANDLER),
        transfer_msg(OWNER_O, "X", "400", OWNER_P),
        true,
    )
    .unwrap();

    let res = execute(
        &mut state,
        &env,
        info(OWNER_O),
        ExecuteMsg::WithdrawNative {
            beneficiary: "address_q".to_string(),
            denom: "X".to_string(),
            amount: "600".to_string(),
        },
        true,
    )
    .unwrap();

    assert_eq!(balance(&state, OWNER_O, "X"), account(0, 0));
    assert_eq!(
        res.messages,
        vec![TransferIntent::NativeTransfer {
            to_address: "address_q".to_string(),
            denom: "X".to_string(),
            amount: 600,
        }]
    );
}

#[test]
fn unregistered_deposit_rejected_without_entry() {
    let (mut state, env) = setup_funded();

    let err = execute(
        &mut state,
        &env,
        info_with_funds(OWNER_O, vec![coin(500, "Y")]),
        ExecuteMsg::DepositNative {
            beneficiary: OWNER_O.to_string(),
        },
        true,
    )
    .unwrap_err();
    assert_eq!(
        err,
        ContractError::NativeCurrencyNotAccepted {
            denom: "Y".to_string()
        }
    );
    assert!(state.balances.iter().all(|entry| entry.currency != "Y"));
    assert_eq!(balance(&state, OWNER_O, "Y"), account(0, 0));
}

#[test]
fn conservation_across_lock_unlock_transfer() {
    let (mut state, env) = setup_funded();
    let total_before = {
        let o = balance(&state, OWNER_O, "X");
        let p = balance(&state, OWNER_P, "X");
        o.available + o.locked + p.available + p.locked
    };

    execute(&mut state, &env, info(HANDLER), lock_msg(OWNER_O, "X", "300"), true).unwrap();
    execute(&mut state, &env, info(HANDLER), unlock_msg(OWNER_O, "X", "100"), true).unwrap();
    execute(
        &mut state,
        &env,
        info(HANDLER),
        transfer_msg(OWNER_O, "X", "200", OWNER_P),
        true,
    )
    .unwrap();

    let o = balance(&state, OWNER_O, "X");
    let p = balance(&state, OWNER_P, "X");
    assert_eq!(o, account(800, 0));
    assert_eq!(p, account(200, 0));
    assert_eq!(o.available + o.locked + p.available + p.locked, total_before);
}

#[test]
fn overdraw_unlock_and_transfer_fail_unchanged() {
    let (mut state, env) = setup_funded();
    execute(&mut state, &env, info(HANDLER), lock_msg(OWNER_O, "X", "400"), true).unwrap();

    let err = execute(&mut state, &env, info(HANDLER), unlock_msg(OWNER_O, "X", "401"), true)
        .unwrap_err();
    assert_eq!(
        err,
        ContractError::InsufficientFundsLockedForUnlock {
            currency_identifier: "X".to_string(),
            available: 400,
            required: 401,
        }
    );
    assert_eq!(balance(&state, OWNER_O, "X"), account(600, 400));

    let err = execute(
        &mut state,
        &env,
        info(HANDLER),
        transfer_msg(OWNER_O, "X", "500", OWNER_P),
        true,
    )
    .unwrap_err();
    assert_eq!(
        err,
        ContractError::InsufficientFundsLockedForTransfer {
            currency_identifier: "X".to_string(),
            available: 400,
            required: 500,
        }
    );
    assert_eq!(balance(&state, OWNER_O, "X"), account(600, 400));
    assert_eq!(balance(&state, OWNER_P, "X"), account(0, 0));
}

#[test]
fn overdraw_withdraw_fails_unchanged() {
    let (mut state, env) = setup_funded();

    let err = execute(
        &mut state,
        &env,
        info(OWNER_O),
        ExecuteMsg::WithdrawNative {
            beneficiary: OWNER_O.to_string(),
            denom: "X".to_string(),
            amount: "1001".to_string(),
        },
        true,
    )
    .unwrap_err();
    assert_eq!(
        err,
        ContractError::InsufficientFundsAvailableForNativeWithdrawal {
            currency_identifier: "X".to_string(),
            available: 1000,
            required: 1001,
        }
    );
    assert_eq!(balance(&state, OWNER_O, "X"), account(1000, 0));
}

#[test]
fn unauthorized_callers_cannot_touch_locks() {
    let (mut state, env) = setup_funded();

    // whatever the payload, a caller that is not an authorized handler is
    // turned away before anything is parsed or read
    for msg in [
        lock_msg(OWNER_O, "X", "400"),
        unlock_msg(OWNER_O, "X", "not_a_number"),
        transfer_msg(OWNER_O, "X", "400", OWNER_P),
    ] {
        let err = execute(&mut state, &env, info("stranger"), msg, true).unwrap_err();
        assert_eq!(err, ContractError::Unauthorized);
    }
    // the administrator is not a handler by that fact alone
    let err = execute(&mut state, &env, info(ADMIN), lock_msg(OWNER_O, "X", "400"), true)
        .unwrap_err();
    assert_eq!(err, ContractError::Unauthorized);
    assert_eq!(balance(&state, OWNER_O, "X"), account(1000, 0));

    // authorization can be withdrawn again
    execute(
        &mut state,
        &env,
        info(ADMIN),
        ExecuteMsg::Admin(AdminExecuteMsg::SetAuthorizationStatus {
            target: HANDLER.to_string(),
            new_status: false,
        }),
        true,
    )
    .unwrap();
    let err = execute(&mut state, &env, info(HANDLER), lock_msg(OWNER_O, "X", "400"), true)
        .unwrap_err();
    assert_eq!(err, ContractError::Unauthorized);
}

#[test]
fn lock_on_missing_account_not_found() {
    let (mut state, env) = setup_funded();
    let err = execute(&mut state, &env, info(HANDLER), lock_msg(OWNER_P, "X", "1"), true)
        .unwrap_err();
    assert_eq!(
        err,
        ContractError::AccountNotFound {
            owner: OWNER_P.to_string(),
            currency_identifier: "X".to_string(),
        }
    );
}

#[test]
fn transfer_to_self_behaves_like_unlock() {
    let (mut state, env) = setup_funded();
    execute(&mut state, &env, info(HANDLER), lock_msg(OWNER_O, "X", "400"), true).unwrap();
    execute(
        &mut state,
        &env,
        info(HANDLER),
        transfer_msg(OWNER_O, "X", "400", OWNER_O),
        true,
    )
    .unwrap();
    assert_eq!(balance(&state, OWNER_O, "X"), account(1000, 0));
}

#[test]
fn registration_is_idempotent() {
    let (mut state, env) = setup_funded();
    // "X" is registered once already
    execute(
        &mut state,
        &env,
        info(ADMIN),
        ExecuteMsg::Admin(AdminExecuteMsg::AddValidCurrency {
            currency_id: "X".to_string(),
        }),
        true,
    )
    .unwrap();
    assert_eq!(
        state
            .currencies
            .iter()
            .filter(|currency| currency.as_str() == "X")
            .count(),
        1
    );
}

#[test]
fn reregistration_moves_to_registry_end() {
    let (mut state, _) = instantiate(info(ADMIN), InstantiateMsg {});
    let env = test_env();
    for id in ["Y", "X", "Y"] {
        execute(
            &mut state,
            &env,
            info(ADMIN),
            ExecuteMsg::Admin(AdminExecuteMsg::AddValidCurrency {
                currency_id: id.to_string(),
            }),
            true,
        )
        .unwrap();
    }
    let ids: Vec<&str> = state.currencies.iter().map(|c| c.as_str()).collect();
    assert_eq!(ids, vec!["X", "Y"]);
}
