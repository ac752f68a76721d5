//! Amount parsing, payload decoding, arithmetic limits, queries, and the
//! remaining error paths.
use vault::amounts::parse_u128;
use vault::contract::{execute, instantiate, migrate, query};
use vault::error::ContractError;
use vault::execute::default::dispatch_default;
use vault::execute_messages::msg::{ExecuteMsg, MigrateMsg};
use vault::execute_messages::msg_admin::AdminExecuteMsg;
use vault::instantiation::msg::InstantiateMsg;
use vault::query::query_execute::sample_query;
use vault::query::query_message::QueryMsg;
use vault::query::query_response::QueryAnswer;
use vault::state::state_entries::VaultState;
use vault::state::state_reads;
use vault::state::state_writes;
use vault::structs::{Coin, Currency, CurrencyAccount, Env, MessageInfo, TransferIntent};

const ADMIN: &str = "admin";
const HANDLER: &str = "handler";
const OWNER: &str = "owner";
const U128_MAX_STR: &str = "340282366920938463463374607431768211455";

fn info(sender: &str) -> MessageInfo {
    MessageInfo {
        sender: sender.to_string(),
        funds: vec![],
    }
}

fn info_with_funds(sender: &str, funds: Vec<Coin>) -> MessageInfo {
    MessageInfo {
        sender: sender.to_string(),
        funds,
    }
}

fn coin(amount: u128, denom: &str) -> Coin {
    Coin {
        denom: denom.to_string(),
        amount,
    }
}

fn test_env() -> Env {
    Env {
        contract_address: "vault_contract".to_string(),
    }
}

fn balance(state: &VaultState, owner: &str, currency: &str) -> CurrencyAccount {
    match query(
        state,
        QueryMsg::GetBalance {
            account_owner: owner.to_string(),
            currency_id: currency.to_string(),
        },
    ) {
        QueryAnswer::Balance(resp) => resp.account,
        _ => panic!("balance query answered with the wrong shape"),
    }
}

fn setup() -> (VaultState, Env) {
    let (mut state, _) = instantiate(info(ADMIN), InstantiateMsg {});
    let env = test_env();
    execute(
        &mut state,
        &env,
        info(ADMIN),
        ExecuteMsg::Admin(AdminExecuteMsg::AddValidCurrency {
            currency_id: "X".to_string(),
        }),
        true,
    )
    .unwrap();
    execute(
        &mut state,
        &env,
        info(ADMIN),
        ExecuteMsg::Admin(AdminExecuteMsg::SetAuthorizationStatus {
            target: HANDLER.to_string(),
            new_status: true,
        }),
        true,
    )
    .unwrap();
    (state, env)
}

#[test]
fn parse_accepts_plain_and_signed_decimals() {
    assert_eq!(parse_u128("50000"), Some(50000));
    assert_eq!(parse_u128("0"), Some(0));
    assert_eq!(parse_u128("+7"), Some(7));
    assert_eq!(parse_u128("00123"), Some(123));
    assert_eq!(parse_u128(U128_MAX_STR), Some(u128::MAX));
}

#[test]
fn parse_rejects_junk_and_overflow() {
    assert_eq!(parse_u128(""), None);
    assert_eq!(parse_u128("+"), None);
    assert_eq!(parse_u128("-5"), None);
    assert_eq!(parse_u128("12a"), None);
    assert_eq!(parse_u128("1 2"), None);
    assert_eq!(parse_u128("12.5"), None);
    // one past the widest representable value
    assert_eq!(parse_u128("340282366920938463463374607431768211456"), None);
}

#[test]
fn malformed_amount_is_a_validation_error() {
    let (mut state, env) = setup();
    let err = execute(
        &mut state,
        &env,
        info(HANDLER),
        ExecuteMsg::Lock {
            account: OWNER.to_string(),
            currency_identifier: "X".to_string(),
            amount: "abc".to_string(),
        },
        true,
    )
    .unwrap_err();
    assert_eq!(err, ContractError::InvalidFundsAmount);
}

#[test]
fn receive_credits_decoded_beneficiary() {
    let (mut state, env) = setup();
    let token = "token_contract";
    execute(
        &mut state,
        &env,
        info(ADMIN),
        ExecuteMsg::Admin(AdminExecuteMsg::AddValidCurrency {
            currency_id: token.to_string(),
        }),
        true,
    )
    .unwrap();

    // the payload is the JSON encoding of the beneficiary name
    let res = execute(
        &mut state,
        &env,
        info(token),
        ExecuteMsg::Receive {
            sender: "someone".to_string(),
            amount: 777,
            msg: b"\"alice\"".to_vec(),
        },
        true,
    )
    .unwrap();
    assert!(res.messages.is_empty());

    // the decoded name is credited, not the raw bytes
    assert_eq!(
        balance(&state, "alice", token),
        CurrencyAccount {
            available: 777,
            locked: 0
        }
    );
    assert_eq!(
        balance(&state, "\"alice\"", token),
        CurrencyAccount {
            available: 0,
            locked: 0
        }
    );
}

#[test]
fn receive_with_undecodable_payload_fails() {
    let (mut state, env) = setup();
    let token = "token_contract";
    execute(
        &mut state,
        &env,
        info(ADMIN),
        ExecuteMsg::Admin(AdminExecuteMsg::AddValidCurrency {
            currency_id: token.to_string(),
        }),
        true,
    )
    .unwrap();
    let err = execute(
        &mut state,
        &env,
        info(token),
        ExecuteMsg::Receive {
            sender: "someone".to_string(),
            amount: 777,
            msg: b"not json".to_vec(),
        },
        true,
    )
    .unwrap_err();
    assert_eq!(err, ContractError::Std);
}

#[test]
fn receive_from_unregistered_token_fails() {
    let (mut state, env) = setup();
    let err = execute(
        &mut state,
        &env,
        info("unknown_token"),
        ExecuteMsg::Receive {
            sender: "someone".to_string(),
            amount: 1,
            msg: b"\"alice\"".to_vec(),
        },
        true,
    )
    .unwrap_err();
    assert_eq!(
        err,
        ContractError::Cw20NotAccepted {
            token_address: "unknown_token".to_string()
        }
    );
}

#[test]
fn deposit_overflow_is_surfaced() {
    let (mut state, env) = setup();
    execute(
        &mut state,
        &env,
        info_with_funds(OWNER, vec![coin(1000, "X")]),
        ExecuteMsg::DepositNative {
            beneficiary: OWNER.to_string(),
        },
        true,
    )
    .unwrap();
    let err = execute(
        &mut state,
        &env,
        info_with_funds(OWNER, vec![coin(u128::MAX, "X")]),
        ExecuteMsg::DepositNative {
            beneficiary: OWNER.to_string(),
        },
        true,
    )
    .unwrap_err();
    assert_eq!(err, ContractError::Overflow);
    assert_eq!(
        balance(&state, OWNER, "X"),
        CurrencyAccount {
            available: 1000,
            locked: 0
        }
    );
}

#[test]
fn lock_overflow_is_surfaced() {
    let (mut state, env) = setup();
    // drive the locked side to the maximum, then one more unit cannot lock
    execute(
        &mut state,
        &env,
        info_with_funds(OWNER, vec![coin(u128::MAX, "X")]),
        ExecuteMsg::DepositNative {
            beneficiary: OWNER.to_string(),
        },
        true,
    )
    .unwrap();
    execute(
        &mut state,
        &env,
        info(HANDLER),
        ExecuteMsg::Lock {
            account: OWNER.to_string(),
            currency_identifier: "X".to_string(),
            amount: U128_MAX_STR.to_string(),
        },
        true,
    )
    .unwrap();
    execute(
        &mut state,
        &env,
        info_with_funds(OWNER, vec![coin(5, "X")]),
        ExecuteMsg::DepositNative {
            beneficiary: OWNER.to_string(),
        },
        true,
    )
    .unwrap();
    let err = execute(
        &mut state,
        &env,
        info(HANDLER),
        ExecuteMsg::Lock {
            account: OWNER.to_string(),
            currency_identifier: "X".to_string(),
            amount: "1".to_string(),
        },
        true,
    )
    .unwrap_err();
    assert_eq!(err, ContractError::Overflow);
    assert_eq!(
        balance(&state, OWNER, "X"),
        CurrencyAccount {
            available: 5,
            locked: u128::MAX
        }
    );
}

#[test]
fn invalid_beneficiary_rejected_before_any_credit() {
    let (mut state, env) = setup();
    let err = execute(
        &mut state,
        &env,
        info_with_funds(OWNER, vec![coin(1000, "X")]),
        ExecuteMsg::DepositNative {
            beneficiary: "###".to_string(),
        },
        false,
    )
    .unwrap_err();
    assert_eq!(
        err,
        ContractError::InvalidDepositBeneficiary {
            beneficiary: "###".to_string()
        }
    );
    assert!(state.balances.is_empty());
}

#[test]
fn invalid_authorization_target_rejected() {
    let (mut state, env) = setup();
    let err = execute(
        &mut state,
        &env,
        info(ADMIN),
        ExecuteMsg::Admin(AdminExecuteMsg::SetAuthorizationStatus {
            target: "###".to_string(),
            new_status: true,
        }),
        false,
    )
    .unwrap_err();
    assert_eq!(
        err,
        ContractError::InvalidAddress {
            address: "###".to_string()
        }
    );
}

#[test]
fn admin_surface_rejects_strangers() {
    let (mut state, env) = setup();
    let err = execute(
        &mut state,
        &env,
        info("stranger"),
        ExecuteMsg::Admin(AdminExecuteMsg::AddValidCurrency {
            currency_id: "Y".to_string(),
        }),
        true,
    )
    .unwrap_err();
    assert_eq!(err, ContractError::Unauthorized);
    assert_eq!(state.currencies.len(), 1);
}

#[test]
fn default_dispatch_never_handles_admin_requests() {
    let (mut state, env) = setup();
    let err = dispatch_default(
        &mut state,
        &env,
        info(ADMIN),
        ExecuteMsg::Admin(AdminExecuteMsg::AddValidCurrency {
            currency_id: "Y".to_string(),
        }),
        true,
    )
    .unwrap_err();
    assert_eq!(err, ContractError::Never);
}

#[test]
fn partial_native_deposit_stops_at_first_unregistered_pair() {
    let (mut state, env) = setup();
    let err = execute(
        &mut state,
        &env,
        info_with_funds(OWNER, vec![coin(100, "X"), coin(50, "Z"), coin(200, "X")]),
        ExecuteMsg::DepositNative {
            beneficiary: OWNER.to_string(),
        },
        true,
    )
    .unwrap_err();
    assert_eq!(
        err,
        ContractError::NativeCurrencyNotAccepted {
            denom: "Z".to_string()
        }
    );
    // the credit before the failing pair stands; the host's whole-request
    // atomicity is what discards it
    assert_eq!(
        balance(&state, OWNER, "X"),
        CurrencyAccount {
            available: 100,
            locked: 0
        }
    );
}

#[test]
fn cw20_withdraw_debits_and_emits_intent() {
    let (mut state, env) = setup();
    let token = "token_contract";
    execute(
        &mut state,
        &env,
        info(ADMIN),
        ExecuteMsg::Admin(AdminExecuteMsg::AddValidCurrency {
            currency_id: token.to_string(),
        }),
        true,
    )
    .unwrap();
    execute(
        &mut state,
        &env,
        info(OWNER),
        ExecuteMsg::DepositCw20 {
            sender: OWNER.to_string(),
            beneficiary: OWNER.to_string(),
            token_address: token.to_string(),
            amount: "100".to_string(),
        },
        true,
    )
    .unwrap();

    let err = execute(
        &mut state,
        &env,
        info(OWNER),
        ExecuteMsg::WithdrawCw20 {
            beneficiary: "somewhere".to_string(),
            token_address: token.to_string(),
            amount: "200".to_string(),
        },
        true,
    )
    .unwrap_err();
    assert_eq!(
        err,
        ContractError::InsufficientFundsAvailableForCw20Withdrawal {
            currency_identifier: token.to_string(),
            available: 100,
            required: 200,
        }
    );

    let res = execute(
        &mut state,
        &env,
        info(OWNER),
        ExecuteMsg::WithdrawCw20 {
            beneficiary: "somewhere".to_string(),
            token_address: token.to_string(),
            amount: "60".to_string(),
        },
        true,
    )
    .unwrap();
    assert_eq!(
        res.messages,
        vec![TransferIntent::Cw20Transfer {
            token_address: token.to_string(),
            recipient: "somewhere".to_string(),
            amount: 60,
        }]
    );
    assert_eq!(
        balance(&state, OWNER, token),
        CurrencyAccount {
            available: 40,
            locked: 0
        }
    );
}

#[test]
fn withdraw_of_unregistered_currency_rejected() {
    let (mut state, env) = setup();
    let err = execute(
        &mut state,
        &env,
        info(OWNER),
        ExecuteMsg::WithdrawNative {
            beneficiary: OWNER.to_string(),
            denom: "Y".to_string(),
            amount: "1".to_string(),
        },
        true,
    )
    .unwrap_err();
    assert_eq!(
        err,
        ContractError::NativeCurrencyNotAccepted {
            denom: "Y".to_string()
        }
    );
    let err = execute(
        &mut state,
        &env,
        info(OWNER),
        ExecuteMsg::DepositCw20 {
            sender: OWNER.to_string(),
            beneficiary: OWNER.to_string(),
            token_address: "unknown_token".to_string(),
            amount: "1".to_string(),
        },
        true,
    )
    .unwrap_err();
    assert_eq!(
        err,
        ContractError::Cw20NotAccepted {
            token_address: "unknown_token".to_string()
        }
    );
}

#[test]
fn unwritten_pairs_read_as_zero() {
    let (state, _) = setup();
    assert_eq!(
        balance(&state, "nobody", "X"),
        CurrencyAccount {
            available: 0,
            locked: 0
        }
    );
    assert_eq!(CurrencyAccount::new(), CurrencyAccount { available: 0, locked: 0 });
    assert!(!state_reads::is_authorized_handler(&state, &"nobody".to_string()));
}

#[test]
fn all_balances_follow_registry_order() {
    let (mut state, env) = setup();
    execute(
        &mut state,
        &env,
        info(ADMIN),
        ExecuteMsg::Admin(AdminExecuteMsg::AddValidCurrency {
            currency_id: "Y".to_string(),
        }),
        true,
    )
    .unwrap();
    execute(
        &mut state,
        &env,
        info_with_funds(OWNER, vec![coin(42, "Y")]),
        ExecuteMsg::DepositNative {
            beneficiary: OWNER.to_string(),
        },
        true,
    )
    .unwrap();
    match query(
        &state,
        QueryMsg::GetAllBalances {
            account_owner: OWNER.to_string(),
        },
    ) {
        QueryAnswer::AllBalances(resp) => {
            assert_eq!(
                resp.accounts,
                vec![
                    CurrencyAccount { available: 0, locked: 0 },
                    CurrencyAccount { available: 42, locked: 0 },
                ]
            );
        },
        _ => panic!("all-balances query answered with the wrong shape"),
    }
}

#[test]
fn reads_answer_plainly() {
    let (state, _) = setup();
    assert!(state_reads::is_admin(&state, &ADMIN.to_string()));
    assert!(!state_reads::is_admin(&state, &OWNER.to_string()));
    assert!(state_reads::is_authorized_handler(&state, &HANDLER.to_string()));
    assert!(state_reads::is_valid_currency(&state, &"X".to_string()));
    assert!(!state_reads::is_valid_currency(&state, &"Y".to_string()));
    assert!(sample_query(&state));
}

#[test]
fn currency_descriptions_keep_their_fields() {
    let native = Currency::Native {
        name: "Test Native".to_string(),
        denom: "test_native".to_string(),
        ticker: "TN".to_string(),
    };
    let token = Currency::Cw20 {
        name: "Test Token".to_string(),
        ticker: "TT".to_string(),
        token_address: "token_contract".to_string(),
    };
    assert_eq!(native.clone(), native);
    assert_ne!(native, token);
}

#[test]
fn migrate_is_a_no_op() {
    let resp = migrate(MigrateMsg {});
    assert!(resp.messages.is_empty());
}

#[test]
fn admin_can_be_replaced_and_accounts_overwritten() {
    let (mut state, _) = setup();
    state_writes::update_admin(&mut state, "successor".to_string());
    assert!(!state_reads::is_admin(&state, &ADMIN.to_string()));
    assert!(state_reads::is_admin(&state, &"successor".to_string()));

    state_writes::update_currency_account(
        &mut state,
        OWNER.to_string(),
        "X".to_string(),
        CurrencyAccount {
            available: 12,
            locked: 34,
        },
    );
    assert_eq!(
        balance(&state, OWNER, "X"),
        CurrencyAccount {
            available: 12,
            locked: 34
        }
    );
}
