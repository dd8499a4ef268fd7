pub mod config;
pub mod relay;
pub mod session;
