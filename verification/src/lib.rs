//! A two-dice game settled by randomness that a trusted provider delivers
//! out of band.
//!
//! A caller opens a job under an identifier of its choice; the contract asks
//! the provider for randomness; the provider later calls back with 32 bytes
//! for that identifier, from which the contract derives the sum of two
//! six-sided dice and records it. Recorded outcomes can be read one by one or
//! listed in ascending order of identifier.
//!
//! The persistent state is an explicit value, [`state::State`], handed to
//! every entry point of [`contract`].

pub mod dice;
pub mod order;
pub mod text;
pub mod history;
pub mod store;
pub mod error;
pub mod msg;
pub mod response;
pub mod state;
pub mod codec;
pub mod contract;
pub mod laws;
