//! Statistics persistence and live dashboard of a sampling client.
//!
//! The crate holds the record codec, an in-memory image of the section store,
//! the snapshot assembler, the dashboard state and the decisions of the render
//! loop. Everything here works on plain values; reading the store from disk
//! and driving the terminal are left to the program that embeds the crate.

pub mod app;
pub mod client;
pub mod cluster;
pub mod codec;
pub mod key;
pub mod section;
pub mod session;
pub mod snapshot;
pub mod store;
