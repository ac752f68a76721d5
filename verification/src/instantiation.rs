pub mod execute;
pub mod msg;
