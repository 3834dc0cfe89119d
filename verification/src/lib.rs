//! Record synchronisation: the wire protocol between IOC clients and the
//! recceiver server, the server's session logic, and the preparation of
//! inventory updates for its storage backends.

pub mod announce;
pub mod buffer;
pub mod channelfinder;
pub mod codec;
pub mod config;
pub mod error;
pub mod types;
pub mod inventory;
pub mod session;
pub mod storage;
pub mod text;
