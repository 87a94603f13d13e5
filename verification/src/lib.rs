//! Zero-knowledge peer-to-peer file synchronisation: the verified core.
pub mod args;
pub mod cli;
pub mod collections;
pub mod crypto;
pub mod delta;
pub mod error;
pub mod file_transfer;
pub mod gui;
pub mod identity;
pub mod listing;
pub mod network;
pub mod paths;
pub mod peer;
pub mod pieces;
pub mod primitives;
pub mod state;
pub mod storage;
pub mod sync;
pub mod text;
pub mod tofu;
pub mod transfer;
pub mod vault;
pub mod watcher;
