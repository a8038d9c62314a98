//! Control-message `type` strings of the wire protocol.

use vstd::prelude::*;

verus! {

/// Sender to receiver: the sender's protocol version and minimum supported peer.
pub const WELCOME: &'static str = "welcome";

/// Sender to receiver: the peer is below the sender's floor.
pub const UPDATE_REQUIRED: &'static str = "updateRequired";

/// Receiver to sender: the device locked, reconnect on wake.
pub const SLEEPING: &'static str = "sleeping";

/// Receiver to sender: the app quit, end the session for good.
pub const CLOSING: &'static str = "closing";

/// Receiver to sender: finger input.
pub const TOUCH: &'static str = "touch";

/// Receiver to sender: two-finger scroll.
pub const SCROLL: &'static str = "scroll";

/// Sender to receiver liveness beat, sent every two seconds while connected.
pub const PING: &'static str = "ping";

/// Receiver to sender: stylus input. Accepted and ignored by this sender.
pub const PENCIL: &'static str = "pencil";

/// Receiver to sender: stylus hover enter/leave. Accepted and ignored.
pub const PROXIMITY: &'static str = "proximity";

} // verus!
