pub mod text;
pub mod protocol;
pub mod config;
pub mod runner;
pub mod paths;
pub mod identity;
pub mod command;
pub mod segger;
pub mod client;
pub mod session;
pub mod agent;
