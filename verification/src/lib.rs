//! Verified core of the Deep Forge face-swap engine: frame layouts, the
//! detection tracker, greedy suppression, model selection, the model
//! manifest, profile bookkeeping and the request decisions of the server.

pub mod tracker;
pub mod text;
pub mod frame;
pub mod capture;
pub mod detect;
pub mod api;
pub mod profiles;
pub mod codec;
pub mod provider;
pub mod manifest;
pub mod server;
pub mod stream;
pub mod shell;
