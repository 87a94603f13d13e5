//! The engine: how a node answers its user, its peers and the clock.
pub mod commands;
pub mod connection;
pub mod download;
pub mod effect;
pub mod fetching;
pub mod handshake;
pub mod laws;
pub mod requests;
pub mod responses;
