pub mod amounts;
pub mod contract;
pub mod error;
pub mod execute;
pub mod execute_messages;
pub mod instantiation;
pub mod query;
pub mod state;
pub mod structs;

pub use crate::error::ContractError;
