//! Core logic of a chat-simulation application: a message store with
//! per-contact ordered message lists, a timing policy for replaying a
//! conversation as an animated simulation, a cancellable replay engine
//! driven by a monotonically increasing token, and the projection that
//! decides which message list and typing indicator the UI shows.

pub mod display;
pub mod engine;
pub mod media;
pub mod migrate;
pub mod models;
pub mod replay;
pub mod state;
pub mod store;
pub mod timing;
pub mod util;
pub mod version;
