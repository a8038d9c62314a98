//! The verified logic of the OpenDisplay Windows sender: the wire protocol's
//! framing, the session state machines, the tray/core IPC schema and its
//! handling, device discovery bookkeeping, and the installer and tray flows.

pub mod protocol;
pub mod session_state;
pub mod io_error;
pub mod frame_sender;
pub mod text;
pub mod base64;
pub mod input;
pub mod bootstrap;
pub mod ipc;
pub mod transport;
pub mod ipc_server;
pub mod json;
pub mod protocol_session;
pub mod display_spec;
pub mod cursor;
pub mod session_driver;
pub mod log;
pub mod display;
pub mod capture;
pub mod encode;
pub mod tray;
pub mod stream;
pub mod installer;
