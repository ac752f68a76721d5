//! The (empty) request that creates a vault.
use vstd::prelude::*;

verus! {

#[derive(Clone, Debug, PartialEq)]
pub struct InstantiateMsg {}

} // verus!
