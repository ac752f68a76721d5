pub mod msg;
pub mod msg_admin;
