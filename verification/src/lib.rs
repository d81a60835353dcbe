//! Session and routing fabric of a LAN-local relay for chat messages and files.

pub mod desktop;
pub mod discovery;
pub mod handlers;
pub mod ids;
pub mod json;
pub mod model;
pub mod range;
pub mod server;
pub mod state;
pub mod table;
pub mod text;
pub mod transfer;
pub mod utils;
pub mod ws;
