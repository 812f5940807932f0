//! A bridge that takes message-provider webhook deliveries over HTTP and relays
//! them to a downstream messaging client.
//!
//! The library holds the decisions: how a payload is decoded, which deliveries
//! are duplicates, how a downstream outcome is classified, and which response a
//! delivery ends with. Sockets, locks and timers belong to the program around it.

pub mod config;
pub mod dispatch;
pub mod event;
pub mod http;
pub mod json;
pub mod pipeline;
pub mod schema;
pub mod state;
pub mod text;
