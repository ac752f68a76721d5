pub mod admin;
pub mod default;
