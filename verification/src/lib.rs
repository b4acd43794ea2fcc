//! Core of a line-based chat relay: wire messages, the per-connection
//! session protocol, and the text handling of the terminal client.

pub mod app;
pub mod handler;
pub mod helper_fns;
pub mod message;
pub mod session_proofs;
pub mod text;
pub mod ui;
pub mod update;
pub mod users;
