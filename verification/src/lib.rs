//! Watches the Riot client and forwards what a player does to a server: the
//! rules by which it does so, as functions on plain values.

pub mod backend;
pub mod clock;
pub mod config;
pub mod dedup;
pub mod encoding;
pub mod error;
pub mod events;
pub mod fetch;
pub mod hardware;
pub mod http;
pub mod json;
pub mod lockfile;
pub mod login;
pub mod orchestrator;
pub mod paths;
pub mod pattern;
pub mod session;
pub mod session_service;
pub mod text;
pub mod token_flow;
pub mod updater;
pub mod watchers;
pub mod ws;
