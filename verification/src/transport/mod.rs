//! Device transports (WiFi, USB) the core can discover and dial, plus the
//! shared dialing logic that unifies them.

pub mod dial;
pub mod net;
pub mod usb;
pub mod wifi;
