//! Dispatch of privileged requests: gated once on the administrator, then
//! applied to the registry or the authorization directory.
use vstd::prelude::*;

use crate::error::ContractError;
use crate::execute_messages::msg_admin::AdminExecuteMsg;
use crate::state::registry::register_spec;
use crate::state::state_entries::{VaultState, VaultView};
use crate::state::state_reads;
use crate::state::state_writes;
use crate::structs::{outcome_matches, Env, MessageInfo, Response, TransferIntent};

verus! {

/// What dispatching an admin request does to the state and hands back, as a
/// function of the state's view. `addr_valid` stands for the host's verdict
/// on the address the request submits for validation, if it submits one.
pub open spec fn admin_transition(
    v: VaultView,
    sender: String,
    msg: AdminExecuteMsg,
    addr_valid: bool,
) -> (VaultView, Result<Seq<TransferIntent>, ContractError>) {
    if v.admin != sender@ {
        (v, Err(ContractError::Unauthorized))
    } else {
        match msg {
            AdminExecuteMsg::SetAuthorizationStatus { target, new_status } => {
                if !addr_valid {
                    (v, Err(ContractError::InvalidAddress { address: target }))
                } else {
                    (
                        VaultView { handlers: v.handlers.insert(target@, new_status), ..v },
                        Ok(Seq::<TransferIntent>::empty()),
                    )
                }
            },
            AdminExecuteMsg::AddValidCurrency { currency_id } => {
                (
                    VaultView { currencies: register_spec(v.currencies, currency_id@), ..v },
                    Ok(Seq::<TransferIntent>::empty()),
                )
            },
        }
    }
}

/// Handle a privileged request. Any caller but the administrator is turned
/// away unauthorized, whatever the payload.
pub fn dispatch_admin(
    state: &mut VaultState,
    _env: &Env,
    info: MessageInfo,
    admin_msg: AdminExecuteMsg,
    addr_valid: bool,
) -> (r: Result<Response, ContractError>)
    requires
        old(state).wf(),
    ensures
        final(state).wf(),
        ({
            let (v2, out) = admin_transition(old(state)@, info.sender, admin_msg, addr_valid);
            final(state)@ == v2 && outcome_matches(r, out)
        }),
{
    if !state_reads::is_admin(state, &info.sender) {
        return Err(ContractError::Unauthorized);
    }
    match admin_msg {
        AdminExecuteMsg::SetAuthorizationStatus { target, new_status } => {
            try_set_authorization_status(state, target, new_status, addr_valid)
        },
        AdminExecuteMsg::AddValidCurrency { currency_id } => {
            try_add_valid_currency(state, currency_id)
        },
    }
}

fn try_add_valid_currency(state: &mut VaultState, currency_id: String) -> (r: Result<
    Response,
    ContractError,
>)
    requires
        old(state).wf(),
    ensures
        final(state).wf(),
        final(state)@ == (VaultView {
            currencies: register_spec(old(state)@.currencies, currency_id@),
            ..old(state)@
        }),
        r matches Ok(resp) && resp.messages@ == Seq::<TransferIntent>::empty(),
{
    state_writes::add_valid_currency(state, currency_id);
    Ok(Response::new())
}

fn try_set_authorization_status(
    state: &mut VaultState,
    target: String,
    new_status: bool,
    target_valid: bool,
) -> (r: Result<Response, ContractError>)
    requires
        old(state).wf(),
    ensures
        final(state).wf(),
        if !target_valid {
            final(state)@ == old(state)@ && r == Err::<Response, ContractError>(
                ContractError::InvalidAddress { address: target },
            )
        } else {
            final(state)@ == (VaultView {
                handlers: old(state)@.handlers.insert(target@, new_status),
                ..old(state)@
            }) && (r matches Ok(resp) && resp.messages@ == Seq::<TransferIntent>::empty())
        },
{
    if !target_valid {
        return Err(ContractError::InvalidAddress { address: target });
    }
    state_writes::set_authorization_status(state, target, new_status);
    Ok(Response::new())
}

} // verus!
