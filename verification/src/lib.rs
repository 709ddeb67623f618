pub mod bridge;
pub mod cli;
pub mod daemon_types;
pub mod digits;
pub mod edge_types;
pub mod fields;
pub mod listener;
pub mod serial;
pub mod server;
pub mod text;
