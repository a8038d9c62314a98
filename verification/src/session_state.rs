//! The reconnect/retry state machine for one device's session.
//!
//! A flat one-second redial interval (no exponential backoff), and, since the
//! wire protocol has no "you were replaced" signal, "another sender took
//! over" is inferred from `REFUSALS_BEFORE_ANOTHER_SENDER` consecutive
//! refused dials. This module holds the pure transition logic only; the timer
//! and the redial itself belong to whatever drives the machine.

use vstd::prelude::*;

verus! {

/// How many consecutive dial refusals are treated as "another sender has
/// taken over this device", not a transient failure.
pub const REFUSALS_BEFORE_ANOTHER_SENDER: u32 = 3;

/// The flat redial interval, in milliseconds.
pub const RETRY_INTERVAL_MILLIS: u64 = 1000;

/// How often a `ping` control message goes out while connected, in
/// nanoseconds of a monotonic clock (two seconds).
pub const PING_INTERVAL_NANOS: u64 = 2_000_000_000;

/// Why a session reached `Terminal`: no further auto-retry follows.
#[derive(Debug, Clone, Copy, PartialEq, Eq, Structural)]
pub enum TerminalReason {
    /// The receiver's `closing` control message: the user quit the app.
    Closing,
    /// Repeated dial refusals, inferred as "the receiver adopted a different
    /// sender".
    AnotherSenderConnected,
}

/// One device's session state.
#[derive(Debug, Clone, Copy, PartialEq, Eq, Structural)]
pub enum SessionState {
    /// Handshake complete, streaming.
    Connected,
    /// Reconnecting after an ordinary drop; counts consecutive dial refusals
    /// to detect the "another sender" case.
    Retrying { consecutive_refusals: u32 },
    /// The device reported `sleeping`; the session waits to redial on wake.
    Paused,
    /// No further auto-retry for this device.
    Terminal { reason: TerminalReason },
}

impl SessionState {
    /// The initial state once a handshake completes.
    pub fn new_connected() -> (s: Self)
        ensures
            s == SessionState::Connected,
    {
        SessionState::Connected
    }
}

/// Inputs that drive a session state transition.
#[derive(Debug, Clone, Copy, PartialEq, Eq, Structural)]
pub enum SessionEvent {
    /// An ordinary connection drop (socket closed, no known reason).
    Dropped,
    /// A redial attempt is beginning (used to leave `Paused`).
    DialAttempted,
    /// A dial attempt was refused.
    DialRefused,
    /// A redial attempt succeeded.
    DialSucceeded,
    /// The receiver's `sleeping` control message.
    ReceivedSleeping,
    /// The receiver's `closing` control message.
    ReceivedClosing,
}

/// The state that `event` moves `state` to.
pub open spec fn spec_transition(state: SessionState, event: SessionEvent) -> SessionState {
    match (state, event) {
        (SessionState::Terminal { reason }, _) => SessionState::Terminal { reason },
        (_, SessionEvent::ReceivedClosing) => SessionState::Terminal { reason: TerminalReason::Closing },
        (SessionState::Connected, SessionEvent::Dropped) => SessionState::Retrying { consecutive_refusals: 0 },
        (SessionState::Connected, SessionEvent::ReceivedSleeping) => SessionState::Paused,
        (SessionState::Retrying { consecutive_refusals }, SessionEvent::DialRefused) =>
            if consecutive_refusals + 1 >= REFUSALS_BEFORE_ANOTHER_SENDER {
                SessionState::Terminal { reason: TerminalReason::AnotherSenderConnected }
            } else {
                SessionState::Retrying { consecutive_refusals: (consecutive_refusals + 1) as u32 }
            },
        (SessionState::Retrying { .. }, SessionEvent::DialSucceeded) => SessionState::Connected,
        (SessionState::Paused, SessionEvent::DialAttempted) => SessionState::Retrying { consecutive_refusals: 0 },
        (state, _) => state,
    }
}

/// The states the machine can reach from `new_connected`: a retrying state
/// never holds as many refusals as the another-sender floor.
pub open spec fn reachable_state(state: SessionState) -> bool {
    match state {
        SessionState::Retrying { consecutive_refusals } => consecutive_refusals < REFUSALS_BEFORE_ANOTHER_SENDER,
        _ => true,
    }
}

/// The state after feeding `events` to the machine in order.
pub open spec fn run_events(state: SessionState, events: Seq<SessionEvent>) -> SessionState
    decreases events.len(),
{
    if events.len() == 0 {
        state
    } else {
        run_events(spec_transition(state, events[0]), events.drop_first())
    }
}

/// Advances `state` in response to `event`. `Terminal` never transitions
/// further: once a device's session is terminal, no event revives it.
pub fn transition(state: SessionState, event: SessionEvent) -> (next: SessionState)
    ensures
        next == spec_transition(state, event),
{
    match (state, event) {
        (SessionState::Terminal { reason }, _) => SessionState::Terminal { reason },
        (_, SessionEvent::ReceivedClosing) => {
            SessionState::Terminal { reason: TerminalReason::Closing }
        },
        (SessionState::Connected, SessionEvent::Dropped) => {
            SessionState::Retrying { consecutive_refusals: 0 }
        },
        (SessionState::Connected, SessionEvent::ReceivedSleeping) => SessionState::Paused,
        (SessionState::Retrying { consecutive_refusals }, SessionEvent::DialRefused) => {
            let refusals = consecutive_refusals.saturating_add(1);
            if refusals >= REFUSALS_BEFORE_ANOTHER_SENDER {
                SessionState::Terminal { reason: TerminalReason::AnotherSenderConnected }
            } else {
                SessionState::Retrying { consecutive_refusals: refusals }
            }
        },
        (SessionState::Retrying { .. }, SessionEvent::DialSucceeded) => SessionState::Connected,
        (SessionState::Paused, SessionEvent::DialAttempted) => {
            SessionState::Retrying { consecutive_refusals: 0 }
        },
        (state, _) => state,
    }
}

/// Whether a `ping` is due: only while connected, immediately when none has
/// gone out yet this session, and otherwise once `PING_INTERVAL_NANOS` have
/// elapsed since the last one. Times are nanosecond readings of one
/// monotonic clock; a `now` earlier than `last_ping_at` counts as no time
/// elapsed.
pub open spec fn spec_should_send_ping(state: SessionState, last_ping_at: Option<u64>, now: u64) -> bool {
    state == SessionState::Connected && match last_ping_at {
        None => true,
        Some(last) => now >= last && now - last >= PING_INTERVAL_NANOS,
    }
}

/// Decides whether a `ping` should be sent right now, given the session's
/// state and when the last one went out.
pub fn should_send_ping(state: SessionState, last_ping_at: Option<u64>, now: u64) -> (r: bool)
    ensures
        r == spec_should_send_ping(state, last_ping_at, now),
        state != SessionState::Connected ==> !r,
        state == SessionState::Connected && last_ping_at is None ==> r,
        forall|last: u64|
            last_ping_at == Some(last) ==> (r <==> (state == SessionState::Connected && now >= last && now - last
                >= PING_INTERVAL_NANOS)),
{
    if state != SessionState::Connected {
        return false;
    }
    match last_ping_at {
        None => true,
        Some(last) => now.saturating_sub(last) >= PING_INTERVAL_NANOS,
    }
}

/// The ping decision, in terms of time alone: never outside `Connected`;
/// while connected, at once when none has gone out yet, and otherwise
/// exactly when at least the ping interval has passed since the last one.
/// So once a ping is due it stays due as time goes on, until one is sent.
pub proof fn lemma_ping_is_due_once_the_interval_has_passed(state: SessionState, last: u64, now: u64, later: u64)
    ensures
        !spec_should_send_ping(state, None, now) <==> state != SessionState::Connected,
        spec_should_send_ping(SessionState::Connected, Some(last), now) <==> (now >= last && now - last
            >= PING_INTERVAL_NANOS),
        spec_should_send_ping(state, Some(last), now) && now <= later ==> spec_should_send_ping(state, Some(last), later),
        state != SessionState::Connected ==> !spec_should_send_ping(state, Some(last), now),
{
}

/// A terminal session stays terminal, with the same reason, whatever events
/// follow.
pub proof fn lemma_terminal_is_sticky(reason: TerminalReason, events: Seq<SessionEvent>)
    ensures
        run_events(SessionState::Terminal { reason }, events) == (SessionState::Terminal { reason }),
    decreases events.len(),
{
    if events.len() > 0 {
        lemma_terminal_is_sticky(reason, events.drop_first());
    }
}

/// A `closing` message ends any session for good: from a non-terminal state
/// it yields `Terminal { Closing }`.
pub proof fn lemma_closing_ends_the_session(state: SessionState)
    requires
        !(state is Terminal),
    ensures
        spec_transition(state, SessionEvent::ReceivedClosing)
            == (SessionState::Terminal { reason: TerminalReason::Closing }),
{
}

/// Every transition keeps the machine within its reachable states.
pub proof fn lemma_transition_preserves_reachable(state: SessionState, event: SessionEvent)
    requires
        reachable_state(state),
    ensures
        reachable_state(spec_transition(state, event)),
{
}

/// From a freshly dropped connection, `k` consecutive refusals leave the
/// session retrying with `k` refusals counted while `k` is below the floor,
/// and end it as `AnotherSenderConnected` once `k` reaches the floor.
pub proof fn lemma_refusals_reach_another_sender(k: nat)
    ensures
        run_events(
            SessionState::Retrying { consecutive_refusals: 0 },
            Seq::new(k, |i: int| SessionEvent::DialRefused),
        ) == if k < REFUSALS_BEFORE_ANOTHER_SENDER {
            SessionState::Retrying { consecutive_refusals: k as u32 }
        } else {
            SessionState::Terminal { reason: TerminalReason::AnotherSenderConnected }
        },
    decreases k,
{
    lemma_refusals_from(0, k);
}

proof fn lemma_refusals_from(start: u32, k: nat)
    requires
        start < REFUSALS_BEFORE_ANOTHER_SENDER,
    ensures
        run_events(
            SessionState::Retrying { consecutive_refusals: start },
            Seq::new(k, |i: int| SessionEvent::DialRefused),
        ) == if start + k < REFUSALS_BEFORE_ANOTHER_SENDER {
            SessionState::Retrying { consecutive_refusals: (start + k) as u32 }
        } else {
            SessionState::Terminal { reason: TerminalReason::AnotherSenderConnected }
        },
    decreases k,
{
    let events = Seq::new(k, |i: int| SessionEvent::DialRefused);
    if k > 0 {
        assert(events.drop_first() =~= Seq::new((k - 1) as nat, |i: int| SessionEvent::DialRefused));
        if start + 1 < REFUSALS_BEFORE_ANOTHER_SENDER {
            lemma_refusals_from((start + 1) as u32, (k - 1) as nat);
        } else {
            lemma_terminal_is_sticky(TerminalReason::AnotherSenderConnected, events.drop_first());
        }
    }
}

} // verus!
