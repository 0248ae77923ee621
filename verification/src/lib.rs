pub mod actions;
pub mod connection;
pub mod displays;
pub mod json;
pub mod laws;
pub mod secrets;
pub mod store;
pub mod text;
pub mod watchdog;
pub mod weburl;
