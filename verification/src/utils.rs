pub mod config;
pub mod email;
