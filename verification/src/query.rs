pub mod query_execute;
pub mod query_message;
pub mod query_response;
