//! Planning poker: a real-time collaborative estimation library.
//!
//! The heart of the crate is the game-session coordination layer: a game
//! state machine (`poker`), a registry of live client connections
//! (`registry`), and a coordinator that serializes client commands against a
//! shared game record and computes the notifications that must be fanned out
//! to the participants (`coordinator`). The coordinator describes the store
//! operations to perform and the messages to deliver as plain values;
//! `transport` owns the per-connection outbound channels and performs the
//! fan-out, while decoding, persistence and the sockets themselves are left
//! to the embedding application.

pub mod config;
pub mod coordinator;
pub mod forms;
pub mod http;
mod idgen;
pub mod keyed;
pub mod models;
pub mod poker;
pub mod registry;
pub mod sim;
pub mod state;
pub mod transport;
