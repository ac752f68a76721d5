//! Dispatch of the ordinary requests: deposits, withdrawals, and the
//! handler-gated lock, unlock and locked-transfer operations.
//!
//! Each operation has a transition function giving its whole behaviour —
//! the state it leaves, the intents it emits, and the error it returns on
//! every rejected input — and the executable dispatch is proved to follow it.
use vstd::prelude::*;

use crate::amounts::{parse_decimal, parse_u128};
use crate::error::ContractError;
use crate::execute_messages::msg::ExecuteMsg;
use crate::state::ledger::{account_of, debit_map, deposit_map, deposit_ok, lock_map, transfer_debited, transfer_map, unlock_map};
use crate::state::state_entries::{VaultState, VaultView};
use crate::state::state_reads;
use crate::state::state_writes;
use crate::structs::{outcome_matches, Coin, CurrencyAccount, Env, MessageInfo, Response, TransferIntent};

verus! {

/// The outcome of one request: the state it leaves and what it hands back.
pub type ExecOutcome = (VaultView, Result<Seq<TransferIntent>, ContractError>);

/// What the embedded payload of a token receive hook decodes to, if it
/// decodes at all.
pub uninterp spec fn decoded_string(b: Seq<u8>) -> Option<Seq<char>>;

/// Relies on cosmwasm_std::from_json to decode a JSON-encoded string: the
/// result is a function of the bytes alone.
#[verifier::external_body]
fn decode_beneficiary(raw: &Vec<u8>) -> (r: Option<String>)
    ensures
        match r {
            Some(s) => decoded_string(raw@) == Some(s@),
            None => decoded_string(raw@) is None,
        },
{
    cosmwasm_std::from_json::<String>(raw.as_slice()).ok()
}

/// Receive hook: the calling token contract has already moved `amount` into
/// custody; credit the beneficiary embedded in the payload.
pub open spec fn receive_transition(
    v: VaultView,
    token: String,
    amount: u128,
    raw: Seq<u8>,
) -> ExecOutcome {
    match decoded_string(raw) {
        Option::None => (v, Err(ContractError::Std)),
        Option::Some(beneficiary) => {
            if !v.registered(token@) {
                (v, Err(ContractError::Cw20NotAccepted { token_address: token }))
            } else if !deposit_ok(v.balances, (beneficiary, token@), amount) {
                (v, Err(ContractError::Overflow))
            } else {
                (
                    VaultView {
                        balances: deposit_map(v.balances, (beneficiary, token@), amount),
                        ..v
                    },
                    Ok(Seq::<TransferIntent>::empty()),
                )
            }
        },
    }
}

/// Credit each attached coin in turn to the beneficiary. The first coin of
/// an unregistered currency aborts the request; credits applied before it
/// stand, and the host's whole-request atomicity is what discards them.
pub open spec fn deposit_funds_transition(
    v: VaultView,
    beneficiary: Seq<char>,
    funds: Seq<Coin>,
) -> ExecOutcome
    decreases funds.len(),
{
    if funds.len() == 0 {
        (v, Ok(Seq::<TransferIntent>::empty()))
    } else {
        let c = funds.first();
        if !v.registered(c.denom@) {
            (v, Err(ContractError::NativeCurrencyNotAccepted { denom: c.denom }))
        } else if !deposit_ok(v.balances, (beneficiary, c.denom@), c.amount) {
            (v, Err(ContractError::Overflow))
        } else {
            deposit_funds_transition(
                VaultView {
                    balances: deposit_map(v.balances, (beneficiary, c.denom@), c.amount),
                    ..v
                },
                beneficiary,
                funds.drop_first(),
            )
        }
    }
}

/// Native deposit: one beneficiary validity check for the whole call, then
/// the attached funds are credited pair by pair.
pub open spec fn deposit_native_transition(
    v: VaultView,
    info: MessageInfo,
    beneficiary: String,
    addr_valid: bool,
) -> ExecOutcome {
    if !addr_valid {
        (v, Err(ContractError::InvalidDepositBeneficiary { beneficiary }))
    } else {
        deposit_funds_transition(v, beneficiary@, info.funds@)
    }
}

/// Token deposit: credit the beneficiary optimistically, then emit the pull
/// intent that moves the funds from the sender into custody; the host
/// reverts the credit if the pull fails.
pub open spec fn deposit_cw20_transition(
    v: VaultView,
    env: Env,
    sender: String,
    beneficiary: String,
    token_address: String,
    amount: String,
) -> ExecOutcome {
    if !v.registered(token_address@) {
        (v, Err(ContractError::Cw20NotAccepted { token_address }))
    } else {
        match parse_decimal(amount@) {
            Option::None => (v, Err(ContractError::InvalidFundsAmount)),
            Option::Some(n) => {
                if !deposit_ok(v.balances, (beneficiary@, token_address@), n) {
                    (v, Err(ContractError::Overflow))
                } else {
                    (
                        VaultView {
                            balances: deposit_map(v.balances, (beneficiary@, token_address@), n),
                            ..v
                        },
                        Ok(
                            seq![
                                TransferIntent::Cw20TransferFrom {
                                    token_address,
                                    owner: sender,
                                    recipient: env.contract_address,
                                    amount: n,
                                },
                            ],
                        ),
                    )
                }
            },
        }
    }
}

/// Native withdrawal: the caller spends their own available balance; the
/// funds may go to any beneficiary, through one native-transfer intent.
pub open spec fn withdraw_native_transition(
    v: VaultView,
    info: MessageInfo,
    beneficiary: String,
    denom: String,
    amount: String,
) -> ExecOutcome {
    if !v.registered(denom@) {
        (v, Err(ContractError::NativeCurrencyNotAccepted { denom }))
    } else {
        match parse_decimal(amount@) {
            Option::None => (v, Err(ContractError::InvalidFundsAmount)),
            Option::Some(n) => {
                let k = (info.sender@, denom@);
                let acc = account_of(v.balances, k);
                if n > acc.available {
                    (
                        v,
                        Err(ContractError::InsufficientFundsAvailableForNativeWithdrawal {
                            currency_identifier: denom,
                            available: acc.available,
                            required: n,
                        }),
                    )
                } else {
                    (
                        VaultView { balances: debit_map(v.balances, k, n), ..v },
                        Ok(
                            seq![
                                TransferIntent::NativeTransfer {
                                    to_address: beneficiary,
                                    denom,
                                    amount: n,
                                },
                            ],
                        ),
                    )
                }
            },
        }
    }
}

/// Token withdrawal: the same debit against the caller's own balance, with a
/// token-contract transfer intent instead of a native one.
pub open spec fn withdraw_cw20_transition(
    v: VaultView,
    info: MessageInfo,
    beneficiary: String,
    token_address: String,
    amount: String,
) -> ExecOutcome {
    if !v.registered(token_address@) {
        (v, Err(ContractError::Cw20NotAccepted { token_address }))
    } else {
        match parse_decimal(amount@) {
            Option::None => (v, Err(ContractError::InvalidFundsAmount)),
            Option::Some(n) => {
                let k = (info.sender@, token_address@);
                let acc = account_of(v.balances, k);
                if n > acc.available {
                    (
                        v,
                        Err(ContractError::InsufficientFundsAvailableForCw20Withdrawal {
                            currency_identifier: token_address,
                            available: acc.available,
                            required: n,
                        }),
                    )
                } else {
                    (
                        VaultView { balances: debit_map(v.balances, k, n), ..v },
                        Ok(
                            seq![
                                TransferIntent::Cw20Transfer {
                                    token_address,
                                    recipient: beneficiary,
                                    amount: n,
                                },
                            ],
                        ),
                    )
                }
            },
        }
    }
}

/// Lock: handlers only. Reserves part of the named owner's available
/// balance; the handler never gains withdrawal rights over it.
pub open spec fn lock_transition(
    v: VaultView,
    sender: String,
    account: String,
    currency_identifier: String,
    amount: String,
) -> ExecOutcome {
    if !v.handler_authorized(sender@) {
        (v, Err(ContractError::Unauthorized))
    } else {
        match parse_decimal(amount@) {
            Option::None => (v, Err(ContractError::InvalidFundsAmount)),
            Option::Some(n) => {
                let k = (account@, currency_identifier@);
                let m = v.balances;
                if !m.dom().contains(k) {
                    (v, Err(ContractError::AccountNotFound { owner: account, currency_identifier }))
                } else if n > m[k].available {
                    (
                        v,
                        Err(ContractError::InsufficientFundsAvailableForLock {
                            currency_identifier,
                            available: m[k].available,
                            required: n,
                        }),
                    )
                } else if m[k].locked + n > u128::MAX {
                    (v, Err(ContractError::Overflow))
                } else {
                    (
                        VaultView { balances: lock_map(m, k, n), ..v },
                        Ok(Seq::<TransferIntent>::empty()),
                    )
                }
            },
        }
    }
}

/// Unlock: handlers only. Releases part of the named owner's locked balance
/// back to the available side.
pub open spec fn unlock_transition(
    v: VaultView,
    sender: String,
    account: String,
    currency_identifier: String,
    amount: String,
) -> ExecOutcome {
    if !v.handler_authorized(sender@) {
        (v, Err(ContractError::Unauthorized))
    } else {
        match parse_decimal(amount@) {
            Option::None => (v, Err(ContractError::InvalidFundsAmount)),
            Option::Some(n) => {
                let k = (account@, currency_identifier@);
                let m = v.balances;
                if !m.dom().contains(k) {
                    (v, Err(ContractError::AccountNotFound { owner: account, currency_identifier }))
                } else if n > m[k].locked {
                    (
                        v,
                        Err(ContractError::InsufficientFundsLockedForUnlock {
                            currency_identifier,
                            available: m[k].locked,
                            required: n,
                        }),
                    )
                } else if m[k].available + n > u128::MAX {
                    (v, Err(ContractError::Overflow))
                } else {
                    (
                        VaultView { balances: unlock_map(m, k, n), ..v },
                        Ok(Seq::<TransferIntent>::empty()),
                    )
                }
            },
        }
    }
}

/// Locked transfer: handlers only. Settles locked funds of the named owner
/// into the beneficiary's available balance.
pub open spec fn transfer_locked_transition(
    v: VaultView,
    sender: String,
    account: String,
    currency_identifier: String,
    amount: String,
    beneficiary: String,
) -> ExecOutcome {
    if !v.handler_authorized(sender@) {
        (v, Err(ContractError::Unauthorized))
    } else {
        match parse_decimal(amount@) {
            Option::None => (v, Err(ContractError::InvalidFundsAmount)),
            Option::Some(n) => {
                let kf = (account@, currency_identifier@);
                let kt = (beneficiary@, currency_identifier@);
                let m = v.balances;
                if !m.dom().contains(kf) {
                    (v, Err(ContractError::AccountNotFound { owner: account, currency_identifier }))
                } else if n > m[kf].locked {
                    (
                        v,
                        Err(ContractError::InsufficientFundsLockedForTransfer {
                            currency_identifier,
                            available: m[kf].locked,
                            required: n,
                        }),
                    )
                } else if account_of(transfer_debited(m, kf, n), kt).available + n > u128::MAX {
                    (v, Err(ContractError::Overflow))
                } else {
                    (
                        VaultView { balances: transfer_map(m, kf, kt, n), ..v },
                        Ok(Seq::<TransferIntent>::empty()),
                    )
                }
            },
        }
    }
}

/// Authorization gating: a caller that is not an authorized handler cannot
/// lock, unlock or transfer locked funds. Whatever the payload, the request
/// fails unauthorized and the state is untouched.
pub proof fn lemma_handler_gating(
    v: VaultView,
    sender: String,
    account: String,
    currency_identifier: String,
    amount: String,
    beneficiary: String,
)
    requires
        !v.handler_authorized(sender@),
    ensures
        lock_transition(v, sender, account, currency_identifier, amount) == (
            v,
            Err::<Seq<TransferIntent>, ContractError>(ContractError::Unauthorized),
        ),
        unlock_transition(v, sender, account, currency_identifier, amount) == (
            v,
            Err::<Seq<TransferIntent>, ContractError>(ContractError::Unauthorized),
        ),
        transfer_locked_transition(v, sender, account, currency_identifier, amount, beneficiary)
            == (v, Err::<Seq<TransferIntent>, ContractError>(ContractError::Unauthorized)),
{
}

/// What dispatching an ordinary request does, one case per request shape.
pub open spec fn default_transition(
    v: VaultView,
    env: Env,
    info: MessageInfo,
    msg: ExecuteMsg,
    addr_valid: bool,
) -> ExecOutcome {
    match msg {
        ExecuteMsg::Receive { sender, amount, msg } => receive_transition(
            v,
            info.sender,
            amount,
            msg@,
        ),
        ExecuteMsg::DepositNative { beneficiary } => deposit_native_transition(
            v,
            info,
            beneficiary,
            addr_valid,
        ),
        ExecuteMsg::DepositCw20 { sender, beneficiary, token_address, amount } => deposit_cw20_transition(
            v,
            env,
            sender,
            beneficiary,
            token_address,
            amount,
        ),
        ExecuteMsg::WithdrawNative { beneficiary, denom, amount } => withdraw_native_transition(
            v,
            info,
            beneficiary,
            denom,
            amount,
        ),
        ExecuteMsg::WithdrawCw20 { beneficiary, token_address, amount } => withdraw_cw20_transition(
            v,
            info,
            beneficiary,
            token_address,
            amount,
        ),
        ExecuteMsg::Lock { account, currency_identifier, amount } => lock_transition(
            v,
            info.sender,
            account,
            currency_identifier,
            amount,
        ),
        ExecuteMsg::Unlock { account, currency_identifier, amount } => unlock_transition(
            v,
            info.sender,
            account,
            currency_identifier,
            amount,
        ),
        ExecuteMsg::TransferLocked { account, currency_identifier, amount, beneficiary } => transfer_locked_transition(
            v,
            info.sender,
            account,
            currency_identifier,
            amount,
            beneficiary,
        ),
        ExecuteMsg::Admin(_) => (v, Err(ContractError::Never)),
    }
}

/// Handle an ordinary request. `addr_valid` is the host's verdict on the
/// address the request submits for validation, if it submits one; only the
/// native deposit asks for one here.
pub fn dispatch_default(
    state: &mut VaultState,
    env: &Env,
    info: MessageInfo,
    msg: ExecuteMsg,
    addr_valid: bool,
) -> (r: Result<Response, ContractError>)
    requires
        old(state).wf(),
    ensures
        final(state).wf(),
        ({
            let (v2, out) = default_transition(old(state)@, *env, info, msg, addr_valid);
            final(state)@ == v2 && outcome_matches(r, out)
        }),
{
    match msg {
        ExecuteMsg::Receive { sender, amount, msg } => try_receive(state, info, sender, amount, msg),
        ExecuteMsg::DepositNative { beneficiary } => try_deposit_native(
            state,
            info,
            beneficiary,
            addr_valid,
        ),
        ExecuteMsg::DepositCw20 { sender, beneficiary, token_address, amount } => try_deposit_cw20(
            state,
            env,
            sender,
            beneficiary,
            token_address,
            amount,
        ),
        ExecuteMsg::WithdrawNative { beneficiary, denom, amount } => try_withdraw_native(
            state,
            info,
            beneficiary,
            denom,
            amount,
        ),
        ExecuteMsg::WithdrawCw20 { beneficiary, token_address, amount } => try_withdraw_cw20(
            state,
            info,
            beneficiary,
            token_address,
            amount,
        ),
        ExecuteMsg::Lock { account, currency_identifier, amount } => try_lock(
            state,
            info,
            account,
            currency_identifier,
            amount,
        ),
        ExecuteMsg::Unlock { account, currency_identifier, amount } => try_unlock(
            state,
            info,
            account,
            currency_identifier,
            amount,
        ),
        ExecuteMsg::TransferLocked { account, currency_identifier, amount, beneficiary } => try_transfer_lock(
            state,
            info,
            account,
            currency_identifier,
            amount,
            beneficiary,
        ),
        ExecuteMsg::Admin(_) => Err(ContractError::Never),
    }
}

fn try_receive(
    state: &mut VaultState,
    info: MessageInfo,
    _sender: String,
    amount: u128,
    msg: Vec<u8>,
) -> (r: Result<Response, ContractError>)
    requires
        old(state).wf(),
    ensures
        final(state).wf(),
        ({
            let (v2, out) = receive_transition(old(state)@, info.sender, amount, msg@);
            final(state)@ == v2 && outcome_matches(r, out)
        }),
{
    let beneficiary = match decode_beneficiary(&msg) {
        None => {
            return Err(ContractError::Std);
        },
        Some(b) => b,
    };
    if state_reads::is_valid_currency(state, &info.sender) {
        match state_writes::update_deposit(state, beneficiary, info.sender, amount) {
            Ok(_) => Ok(Response::new()),
            Err(e) => Err(e),
        }
    } else {
        Err(ContractError::Cw20NotAccepted { token_address: info.sender })
    }
}

fn try_deposit_native(
    state: &mut VaultState,
    info: MessageInfo,
    beneficiary: String,
    beneficiary_valid: bool,
) -> (r: Result<Response, ContractError>)
    requires
        old(state).wf(),
    ensures
        final(state).wf(),
        ({
            let (v2, out) = deposit_native_transition(
                old(state)@,
                info,
                beneficiary,
                beneficiary_valid,
            );
            final(state)@ == v2 && outcome_matches(r, out)
        }),
{
    if !beneficiary_valid {
        return Err(ContractError::InvalidDepositBeneficiary { beneficiary });
    }
    let ghost funds_seq = info.funds@;
    let ghost b = beneficiary@;
    proof {
        assert(funds_seq.skip(0) =~= funds_seq);
    }
    let mut i: usize = 0;
    while i < info.funds.len()
        invariant
            state.wf(),
            beneficiary_valid,
            i <= funds_seq.len(),
            info.funds@ == funds_seq,
            b == beneficiary@,
            deposit_funds_transition(old(state)@, b, funds_seq) == deposit_funds_transition(
                state@,
                b,
                funds_seq.skip(i as int),
            ),
        decreases funds_seq.len() - i,
    {
        let ghost pre = state@;
        let denom = info.funds[i].denom.clone();
        let amount = info.funds[i].amount;
        proof {
            assert(funds_seq.skip(i as int).first() == funds_seq[i as int]);
            assert(funds_seq.skip(i as int).drop_first() =~= funds_seq.skip(i + 1));
        }
        if state_reads::is_valid_currency(state, &denom) {
            match state_writes::update_deposit(state, beneficiary.clone(), denom, amount) {
                Ok(_) => {
                    proof {
                        assert(deposit_funds_transition(pre, b, funds_seq.skip(i as int))
                            == deposit_funds_transition(state@, b, funds_seq.skip(i + 1)));
                    }
                },
                Err(e) => {
                    proof {
                        assert(state@ == pre);
                        assert(deposit_funds_transition(pre, b, funds_seq.skip(i as int)) == (
                            pre,
                            Err::<Seq<TransferIntent>, ContractError>(ContractError::Overflow),
                        ));
                    }
                    return Err(e);
                },
            }
        } else {
            proof {
                assert(deposit_funds_transition(state@, b, funds_seq.skip(i as int)) == (
                    state@,
                    Err::<Seq<TransferIntent>, ContractError>(
                        ContractError::NativeCurrencyNotAccepted {
                            denom: funds_seq[i as int].denom,
                        },
                    ),
                ));
            }
            return Err(ContractError::NativeCurrencyNotAccepted { denom });
        }
        i += 1;
    }
    proof {
        assert(funds_seq.skip(funds_seq.len() as int) =~= Seq::<Coin>::empty());
    }
    Ok(Response::new())
}

fn try_deposit_cw20(
    state: &mut VaultState,
    env: &Env,
    sender: String,
    beneficiary: String,
    token_address: String,
    amount: String,
) -> (r: Result<Response, ContractError>)
    requires
        old(state).wf(),
    ensures
        final(state).wf(),
        ({
            let (v2, out) = deposit_cw20_transition(
                old(state)@,
                *env,
                sender,
                beneficiary,
                token_address,
                amount,
            );
            final(state)@ == v2 && outcome_matches(r, out)
        }),
{
    if !state_reads::is_valid_currency(state, &token_address) {
        return Err(ContractError::Cw20NotAccepted { token_address });
    }
    let n = match parse_u128(amount.as_str()) {
        None => {
            return Err(ContractError::InvalidFundsAmount);
        },
        Some(v) => v,
    };
    match state_writes::update_deposit(state, beneficiary, token_address.clone(), n) {
        Err(e) => Err(e),
        Ok(_) => {
            let intent = TransferIntent::Cw20TransferFrom {
                token_address,
                owner: sender,
                recipient: env.contract_address.clone(),
                amount: n,
            };
            let ghost gi = intent;
            let resp = Response::new().add_message(intent);
            proof {
                assert(Seq::<TransferIntent>::empty().push(gi) =~= seq![gi]);
            }
            Ok(resp)
        },
    }
}

fn try_withdraw_native(
    state: &mut VaultState,
    info: MessageInfo,
    beneficiary: String,
    denom: String,
    amount: String,
) -> (r: Result<Response, ContractError>)
    requires
        old(state).wf(),
    ensures
        final(state).wf(),
        ({
            let (v2, out) = withdraw_native_transition(old(state)@, info, beneficiary, denom, amount);
            final(state)@ == v2 && outcome_matches(r, out)
        }),
{
    if !state_reads::is_valid_currency(state, &denom) {
        return Err(ContractError::NativeCurrencyNotAccepted { denom });
    }
    let account = state_reads::get_currency_account(state, &info.sender, &denom);
    let n = match parse_u128(amount.as_str()) {
        None => {
            return Err(ContractError::InvalidFundsAmount);
        },
        Some(v) => v,
    };
    if n > account.available {
        return Err(ContractError::InsufficientFundsAvailableForNativeWithdrawal {
            currency_identifier: denom,
            available: account.available,
            required: n,
        });
    }
    let debited = CurrencyAccount { available: account.available - n, locked: account.locked };
    state_writes::update_currency_account(state, info.sender.clone(), denom.clone(), debited);
    let intent = TransferIntent::NativeTransfer { to_address: beneficiary, denom, amount: n };
    let ghost gi = intent;
    let resp = Response::new().add_message(intent);
    proof {
        assert(Seq::<TransferIntent>::empty().push(gi) =~= seq![gi]);
    }
    Ok(resp)
}

fn try_withdraw_cw20(
    state: &mut VaultState,
    info: MessageInfo,
    beneficiary: String,
    token_address: String,
    amount: String,
) -> (r: Result<Response, ContractError>)
    requires
        old(state).wf(),
    ensures
        final(state).wf(),
        ({
            let (v2, out) = withdraw_cw20_transition(
                old(state)@,
                info,
                beneficiary,
                token_address,
                amount,
            );
            final(state)@ == v2 && outcome_matches(r, out)
        }),
{
    if !state_reads::is_valid_currency(state, &token_address) {
        return Err(ContractError::Cw20NotAccepted { token_address });
    }
    let account = state_reads::get_currency_account(state, &info.sender, &token_address);
    let n = match parse_u128(amount.as_str()) {
        None => {
            return Err(ContractError::InvalidFundsAmount);
        },
        Some(v) => v,
    };
    if n > account.available {
        return Err(ContractError::InsufficientFundsAvailableForCw20Withdrawal {
            currency_identifier: token_address,
            available: account.available,
            required: n,
        });
    }
    let debited = CurrencyAccount { available: account.available - n, locked: account.locked };
    state_writes::update_currency_account(
        state,
        info.sender.clone(),
        token_address.clone(),
        debited,
    );
    let intent = TransferIntent::Cw20Transfer { token_address, recipient: beneficiary, amount: n };
    let ghost gi = intent;
    let resp = Response::new().add_message(intent);
    proof {
        assert(Seq::<TransferIntent>::empty().push(gi) =~= seq![gi]);
    }
    Ok(resp)
}

fn try_lock(
    state: &mut VaultState,
    info: MessageInfo,
    account: String,
    currency_identifier: String,
    amount: String,
) -> (r: Result<Response, ContractError>)
    requires
        old(state).wf(),
    ensures
        final(state).wf(),
        ({
            let (v2, out) = lock_transition(
                old(state)@,
                info.sender,
                account,
                currency_identifier,
                amount,
            );
            final(state)@ == v2 && outcome_matches(r, out)
        }),
{
    if !state_reads::is_authorized_handler(state, &info.sender) {
        return Err(ContractError::Unauthorized);
    }
    let n = match parse_u128(amount.as_str()) {
        None => {
            return Err(ContractError::InvalidFundsAmount);
        },
        Some(v) => v,
    };
    match state_writes::increase_locked_value(state, account, currency_identifier, n) {
        Ok(_) => Ok(Response::new()),
        Err(e) => Err(e),
    }
}

fn try_unlock(
    state: &mut VaultState,
    info: MessageInfo,
    account: String,
    currency_identifier: String,
    amount: String,
) -> (r: Result<Response, ContractError>)
    requires
        old(state).wf(),
    ensures
        final(state).wf(),
        ({
            let (v2, out) = unlock_transition(
                old(state)@,
                info.sender,
                account,
                currency_identifier,
                amount,
            );
            final(state)@ == v2 && outcome_matches(r, out)
        }),
{
    if !state_reads::is_authorized_handler(state, &info.sender) {
        return Err(ContractError::Unauthorized);
    }
    let n = match parse_u128(amount.as_str()) {
        None => {
            return Err(ContractError::InvalidFundsAmount);
        },
        Some(v) => v,
    };
    match state_writes::decrease_locked_value(state, account, currency_identifier, n) {
        Ok(_) => Ok(Response::new()),
        Err(e) => Err(e),
    }
}

fn try_transfer_lock(
    state: &mut VaultState,
    info: MessageInfo,
    account: String,
    currency_identifier: String,
    amount: String,
    beneficiary: String,
) -> (r: Result<Response, ContractError>)
    requires
        old(state).wf(),
    ensures
        final(state).wf(),
        ({
            let (v2, out) = transfer_locked_transition(
                old(state)@,
                info.sender,
                account,
                currency_identifier,
                amount,
                beneficiary,
            );
            final(state)@ == v2 && outcome_matches(r, out)
        }),
{
    if !state_reads::is_authorized_handler(state, &info.sender) {
        return Err(ContractError::Unauthorized);
    }
    let n = match parse_u128(amount.as_str()) {
        None => {
            return Err(ContractError::InvalidFundsAmount);
        },
        Some(v) => v,
    };
    match state_writes::transfer_locked_value(state, account, beneficiary, currency_identifier, n) {
        Ok(_) => Ok(Response::new()),
        Err(e) => Err(e),
    }
}

} // verus!
