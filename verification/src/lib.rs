//! Core of a ChatOps relay: normalizes language-model output into typed
//! intents, gates risky service actions behind a confirm/cancel handshake,
//! and plans the chat replies and command-bus publishes for each turn.
pub mod classify;
pub mod dispatch;
pub mod ids;
pub mod json;
pub mod models;
pub mod normalize;
pub mod registry;
pub mod text;
