//! The entry points of the vault: creation, migration, execution of one
//! request, and the read-only queries.
//!
//! The host platform serializes requests, so each entry point takes the whole
//! state; whole-request atomicity — all writes of a request commit or none do
//! — is the host's guarantee, and every operation here keeps the stronger
//! property that an error return is its only observable effect.
use vstd::prelude::*;

use crate::error::ContractError;
use crate::execute::admin::{admin_transition, dispatch_admin};
use crate::execute::default::{default_transition, dispatch_default, ExecOutcome};
use crate::execute_messages::msg::{ExecuteMsg, MigrateMsg};
use crate::instantiation::execute::execute_instantiation;
use crate::instantiation::msg::InstantiateMsg;
use crate::query::query_execute;
use crate::query::query_message::QueryMsg;
use crate::query::query_response::QueryAnswer;
use crate::state::ledger::account_of;
use crate::state::state_entries::{VaultState, VaultView};
use crate::structs::{outcome_matches, CurrencyAccount, Env, MessageInfo, Response, TransferIntent};

verus! {

/// Create a vault: the sender becomes the administrator over an otherwise
/// empty state.
pub fn instantiate(info: MessageInfo, msg: InstantiateMsg) -> (r: (VaultState, Response))
    ensures
        r.0.wf(),
        r.0@.admin == info.sender@,
        r.0@.handlers == Map::<Seq<char>, bool>::empty(),
        r.0@.currencies == Seq::<Seq<char>>::empty(),
        r.0@.balances == Map::<(Seq<char>, Seq<char>), CurrencyAccount>::empty(),
        r.1.messages@ == Seq::<TransferIntent>::empty(),
{
    execute_instantiation(info, msg)
}

/// Migration performs no state change.
pub fn migrate(_msg: MigrateMsg) -> (r: Response)
    ensures
        r.messages@ == Seq::<TransferIntent>::empty(),
{
    Response::default()
}

/// What executing one request does to the state and hands back.
pub open spec fn execute_transition(
    v: VaultView,
    env: Env,
    info: MessageInfo,
    msg: ExecuteMsg,
    addr_valid: bool,
) -> ExecOutcome {
    match msg {
        ExecuteMsg::Admin(admin_msg) => admin_transition(v, info.sender, admin_msg, addr_valid),
        _ => default_transition(v, env, info, msg, addr_valid),
    }
}

/// Execute one request. `addr_valid` carries the verdict of the host's
/// address-validation capability on the one address the request submits for
/// validation — the target of an authorization change or the beneficiary of
/// a native deposit; requests that validate no address ignore it.
pub fn execute(
    state: &mut VaultState,
    env: &Env,
    info: MessageInfo,
    msg: ExecuteMsg,
    addr_valid: bool,
) -> (r: Result<Response, ContractError>)
    requires
        old(state).wf(),
    ensures
        final(state).wf(),
        ({
            let (v2, out) = execute_transition(old(state)@, *env, info, msg, addr_valid);
            final(state)@ == v2 && outcome_matches(r, out)
        }),
{
    match msg {
        ExecuteMsg::Admin(admin_msg) => dispatch_admin(state, env, info, admin_msg, addr_valid),
        other => dispatch_default(state, env, info, other, addr_valid),
    }
}

/// Answer a read-only request against the current state.
pub fn query(state: &VaultState, msg: QueryMsg) -> (r: QueryAnswer)
    requires
        state.wf(),
    ensures
        match msg {
            QueryMsg::GetBalance { account_owner, currency_id } => r matches QueryAnswer::Balance(
                resp,
            ) && resp.account == account_of(state@.balances, (account_owner@, currency_id@)),
            QueryMsg::GetAllBalances { account_owner } => r matches QueryAnswer::AllBalances(resp)
                && resp.accounts@.len() == state@.currencies.len() && (forall|i: int|
                0 <= i < resp.accounts@.len() ==> resp.accounts@[i] == account_of(
                    state@.balances,
                    (account_owner@, state@.currencies[i]),
                )),
        },
{
    match msg {
        QueryMsg::GetBalance { account_owner, currency_id } => QueryAnswer::Balance(
            query_execute::get_currency_account(state, account_owner, currency_id),
        ),
        QueryMsg::GetAllBalances { account_owner } => QueryAnswer::AllBalances(
            query_execute::get_all_currency_accounts(state, account_owner),
        ),
    }
}

} // verus!
