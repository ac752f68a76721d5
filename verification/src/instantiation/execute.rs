//! Creation of a vault: the caller becomes the administrator, the registry
//! starts empty, and no account or handler exists yet.
use vstd::prelude::*;

use crate::instantiation::msg::InstantiateMsg;
use crate::state::state_entries::VaultState;
use crate::structs::{CurrencyAccount, MessageInfo, Response};

verus! {

/// Build the initial state. The sender of the instantiation request is the
/// administrator, the only entity guaranteed to exist at the start.
pub fn execute_instantiation(info: MessageInfo, _msg: InstantiateMsg) -> (r: (VaultState, Response))
    ensures
        r.0.wf(),
        r.0@.admin == info.sender@,
        r.0@.handlers == Map::<Seq<char>, bool>::empty(),
        r.0@.currencies == Seq::<Seq<char>>::empty(),
        r.0@.balances == Map::<(Seq<char>, Seq<char>), CurrencyAccount>::empty(),
        r.1.messages@ == Seq::<crate::structs::TransferIntent>::empty(),
{
    let state = VaultState {
        admin: info.sender,
        handlers: Vec::new(),
        currencies: Vec::new(),
        balances: Vec::new(),
    };
    proof {
        assert(state@.handlers =~= Map::<Seq<char>, bool>::empty());
        assert(state@.currencies =~= Seq::<Seq<char>>::empty());
        assert(state@.balances =~= Map::<(Seq<char>, Seq<char>), CurrencyAccount>::empty());
    }
    (state, Response::default())
}

} // verus!
