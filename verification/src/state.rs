pub mod ledger;
pub mod registry;
pub mod state_entries;
pub mod state_reads;
pub mod state_writes;
