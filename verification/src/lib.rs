//! Core of a real-time chat relay: a registry of live connections, a
//! per-connection protocol state machine, a message router with offline
//! fallback, a friend-request workflow, and chat history with read-tracking.
//!
//! Storage, sockets and push delivery are collaborators behind thin
//! boundaries; the decision logic here is verified.

pub mod auth;
pub mod error;
pub mod fcm;
pub mod messages;
pub mod registry;
pub mod repository;
pub mod router;
pub mod session;
pub mod store;

pub use error::Error;
