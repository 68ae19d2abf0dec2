//! Per-channel state: configuration, the bounded series buffer, and the
//! shared channel object with its view-bounds engine.

pub mod bounds;
pub mod config;
pub mod data;
pub mod shared;
pub mod theorems;

pub use config::GraphConfig;
pub use data::GraphData;
pub use shared::GraphShared;
