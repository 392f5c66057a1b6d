//! The platform logic of a Zenoh build for browsers: WebSocket links, timers,
//! plugin and library loading, and how a runtime connects to its peers.
pub mod bindings;
pub mod endpoints;
pub mod lib_loader;
pub mod orchestrator;
pub mod plugin;
pub mod start_conditions;
pub mod text;
pub mod time;
pub mod ws_link;
pub mod ws_read;
