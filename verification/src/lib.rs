//! A bidirectional, packetized game-protocol engine: a streaming XOR cipher,
//! a typed codec layer for wire structures, a length-prefixed framer, and a
//! cooperative handler/task framework shared by a client and a server.

pub mod captcha;
pub mod client_components;
pub mod client_resources;
pub mod codec;
pub mod connection;
pub mod crypto;
pub mod custom;
pub mod error;
pub mod handler;
pub mod packets;
pub mod rank;
pub mod reader;
pub mod registry;
pub mod resources;
pub mod session;
pub mod users;

pub use codec::Codeable;
pub use error::{ConnectionClosedError, ProtocolError};
pub use reader::Reader;
