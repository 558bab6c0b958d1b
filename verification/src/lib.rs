//! Logic of a local agent runtime: the run loop and its policy gates, the tools,
//! the daemon protocol, the session store, the gateways and the terminal client.
pub mod anthropic;
pub mod app;
pub mod cli;
pub mod config;
pub mod daemon;
pub mod desktop;
pub mod diff;
pub mod discord_gateway;
pub mod error;
pub mod gateway;
pub mod harness;
pub mod json;
pub mod ledger;
pub mod members;
pub mod model;
pub mod paths;
pub mod provider;
pub mod recorder;
pub mod replay;
pub mod run;
pub mod session;
pub mod shape;
pub mod table;
pub mod telegram_gateway;
pub mod text;
pub mod tool_catalog;
pub mod tools;
pub mod tui;

pub use error::{AppError, AppResult};
