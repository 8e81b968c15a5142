//! Message pipeline of an Attorney-Online style courtroom server: scalar text
//! codecs, the command schema, the wire codec, the client registry and the
//! per-connection state machines.

pub mod buffer;
pub mod client;
pub mod client_command;
pub mod client_manager;
pub mod codec;
pub mod command;
pub mod config;
pub mod error;
pub mod field;
pub mod master_command;
pub mod master_server;
pub mod prompt;
pub mod records;
pub mod schema;
pub mod server_command;
pub mod session;
pub mod text;
pub mod timeout;
pub mod wire;
