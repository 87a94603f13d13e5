//! The delta engine: files with versions, of which only what changed is sent.
pub mod backend;
pub mod chunk;
pub mod effect;
pub mod engine;
pub mod files;
pub mod laws;
pub mod messages;
pub mod metadata;
pub mod operations;
pub mod requests;
pub mod responses;
pub mod session;
pub mod transfer;
pub mod ui;
pub mod ws;
