//! Remote control of the channels.

pub mod remote;
