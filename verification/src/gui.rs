//! The user interface: its types, its page, and its connection.
pub mod http;
pub mod types;
pub mod ws;
