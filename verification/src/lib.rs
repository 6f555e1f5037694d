//! rusthome: a deterministic, event-sourced home-automation core.
pub mod text;
pub mod event;
pub mod strmap;
pub mod error;
pub mod config;
pub mod ids;
pub mod state;
pub mod reducer;
pub mod journal;
pub mod pipeline;
pub mod reconciliation;
pub mod rusthome_file;
pub mod bridge;
pub mod json;
pub mod mqtt;
pub mod snapshot;
