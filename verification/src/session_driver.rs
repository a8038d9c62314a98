//! The decisions that drive one targeted device end to end: resolve, dial,
//! handshake, create the display, stream, and redial after an ordinary drop,
//! as the session state machine describes.
//!
//! The dialing, the streaming and the sleeping are outside work; here each
//! of their outcomes becomes the next decision, so the driving loop only
//! carries them out.

use vstd::prelude::*;
use crate::session_state::{spec_transition, transition, SessionEvent, SessionState, TerminalReason, REFUSALS_BEFORE_ANOTHER_SENDER};

verus! {

/// Why one pass through a connected session's loop ended.
#[derive(Debug, Clone, Copy, PartialEq, Eq, Structural)]
pub enum SessionOutcome {
    /// An ordinary drop, a read or framing error, or the receiver's
    /// `sleeping`: redial after the retry interval.
    Retry,
    /// The receiver's `closing`, or the refusal floor: no further retry.
    Terminal(TerminalReason),
    /// Teardown was requested from outside (`Disconnect`, or a `Connect` to
    /// another device): stop at once, without retry or status report.
    ExternallyStopped,
}

/// What one attempt at the targeted device came to.
#[derive(Debug, Clone, Copy, PartialEq, Eq, Structural)]
pub enum AttemptOutcome {
    /// Teardown was requested before the attempt began.
    TeardownRequested,
    /// Neither transport currently lists the device.
    DeviceNotFound,
    /// The dial was refused.
    DialRefused,
    /// The dial failed some other way.
    DialFailed,
    /// The peer's protocol version is below the supported floor.
    PeerBelowMinSupported,
    /// The handshake failed some other way.
    HandshakeFailed,
    /// The handshake completed, but the virtual display could not be made.
    DisplayFailed,
    /// The handshake completed and the session ran until it ended so.
    SessionEnded(SessionOutcome),
}

/// Why the driver stopped for good.
#[derive(Debug, Clone, Copy, PartialEq, Eq, Structural)]
pub enum StopReason {
    /// Teardown was requested from outside.
    TornDown,
    /// The peer is too old; it was told to update.
    PeerBelowMinSupported,
    /// Enough consecutive refusals that another sender has the device.
    AnotherSenderConnected,
    /// The session ended terminally.
    SessionEnded(TerminalReason),
}

/// What the driver does after an attempt.
#[derive(Debug, Clone, Copy, PartialEq, Eq, Structural)]
pub enum DriveDecision {
    /// Wait the retry interval, then attempt again.
    RetryAfterInterval,
    /// Stop driving this device.
    Stop(StopReason),
}

/// The consecutive-refusal count and decision that follow an attempt: a
/// refusal counts, and the count reaching the floor stops the driver; a
/// completed handshake resets the count; every other failure leaves it and
/// retries.
pub open spec fn spec_drive_step(consecutive_refusals: u32, outcome: AttemptOutcome) -> (u32, DriveDecision) {
    match outcome {
        AttemptOutcome::TeardownRequested => (consecutive_refusals, DriveDecision::Stop(StopReason::TornDown)),
        AttemptOutcome::DeviceNotFound | AttemptOutcome::DialFailed | AttemptOutcome::HandshakeFailed => (
            consecutive_refusals,
            DriveDecision::RetryAfterInterval,
        ),
        AttemptOutcome::DialRefused => {
            let refusals: u32 = if consecutive_refusals < u32::MAX { (consecutive_refusals + 1) as u32 } else { u32::MAX };
            if refusals >= REFUSALS_BEFORE_ANOTHER_SENDER {
                (refusals, DriveDecision::Stop(StopReason::AnotherSenderConnected))
            } else {
                (refusals, DriveDecision::RetryAfterInterval)
            }
        },
        AttemptOutcome::PeerBelowMinSupported => (consecutive_refusals, DriveDecision::Stop(StopReason::PeerBelowMinSupported)),
        AttemptOutcome::DisplayFailed => (0, DriveDecision::RetryAfterInterval),
        AttemptOutcome::SessionEnded(SessionOutcome::Retry) => (0, DriveDecision::RetryAfterInterval),
        AttemptOutcome::SessionEnded(SessionOutcome::Terminal(reason)) => (0, DriveDecision::Stop(StopReason::SessionEnded(reason))),
        AttemptOutcome::SessionEnded(SessionOutcome::ExternallyStopped) => (0, DriveDecision::Stop(StopReason::TornDown)),
    }
}

/// Whether an attempt got as far as a completed handshake.
pub open spec fn handshake_completed(outcome: AttemptOutcome) -> bool {
    outcome matches AttemptOutcome::DisplayFailed || outcome matches AttemptOutcome::SessionEnded(_)
}

/// The attempts after which the driver gives up on the device: a teardown
/// request, a peer too old to serve, the refusal that reaches the floor, and
/// a session that ended for good or was stopped from outside.
pub open spec fn stops_the_driver(consecutive_refusals: u32, outcome: AttemptOutcome) -> bool {
    ||| outcome == AttemptOutcome::TeardownRequested
    ||| outcome == AttemptOutcome::PeerBelowMinSupported
    ||| outcome == AttemptOutcome::DialRefused && consecutive_refusals + 1 >= REFUSALS_BEFORE_ANOTHER_SENDER
    ||| outcome matches AttemptOutcome::SessionEnded(SessionOutcome::Terminal(_))
    ||| outcome == AttemptOutcome::SessionEnded(SessionOutcome::ExternallyStopped)
}

/// Decides what follows an attempt at the targeted device, and the new
/// count of consecutive dial refusals.
pub fn drive_step(consecutive_refusals: u32, outcome: AttemptOutcome) -> (r: (u32, DriveDecision))
    ensures
        r == spec_drive_step(consecutive_refusals, outcome),
        r.1 is Stop <==> stops_the_driver(consecutive_refusals, outcome),
        handshake_completed(outcome) ==> r.0 == 0,
{
    match outcome {
        AttemptOutcome::TeardownRequested => (consecutive_refusals, DriveDecision::Stop(StopReason::TornDown)),
        AttemptOutcome::DeviceNotFound | AttemptOutcome::DialFailed | AttemptOutcome::HandshakeFailed => {
            (consecutive_refusals, DriveDecision::RetryAfterInterval)
        },
        AttemptOutcome::DialRefused => {
            let refusals = consecutive_refusals.saturating_add(1);
            if refusals >= REFUSALS_BEFORE_ANOTHER_SENDER {
                (refusals, DriveDecision::Stop(StopReason::AnotherSenderConnected))
            } else {
                (refusals, DriveDecision::RetryAfterInterval)
            }
        },
        AttemptOutcome::PeerBelowMinSupported => {
            (consecutive_refusals, DriveDecision::Stop(StopReason::PeerBelowMinSupported))
        },
        AttemptOutcome::DisplayFailed => (0, DriveDecision::RetryAfterInterval),
        AttemptOutcome::SessionEnded(SessionOutcome::Retry) => (0, DriveDecision::RetryAfterInterval),
        AttemptOutcome::SessionEnded(SessionOutcome::Terminal(reason)) => {
            (0, DriveDecision::Stop(StopReason::SessionEnded(reason)))
        },
        AttemptOutcome::SessionEnded(SessionOutcome::ExternallyStopped) => {
            (0, DriveDecision::Stop(StopReason::TornDown))
        },
    }
}

/// The refusal count and decisions after a run of attempts, from `start`.
pub open spec fn run_attempts(start: u32, outcomes: Seq<AttemptOutcome>) -> (u32, Seq<DriveDecision>)
    decreases outcomes.len(),
{
    if outcomes.len() == 0 {
        (start, seq![])
    } else {
        let (n, d) = spec_drive_step(start, outcomes[0]);
        let (m, ds) = run_attempts(n, outcomes.drop_first());
        (m, seq![d] + ds)
    }
}

/// Refusals alone stop the driver exactly at the floor: from a fresh count,
/// each refusal before the floor retries, and the refusal that reaches it
/// stops the driver as "another sender connected".
pub proof fn lemma_refusal_floor_stops_the_driver(k: nat)
    requires
        1 <= k <= REFUSALS_BEFORE_ANOTHER_SENDER,
    ensures
        ({
            let (n, ds) = run_attempts(0, Seq::new(k, |i: int| AttemptOutcome::DialRefused));
            &&& n == k
            &&& ds.len() == k
            &&& forall|i: int| 0 <= i < k - 1 ==> ds[i] == DriveDecision::RetryAfterInterval
            &&& ds[k - 1] == (if k == REFUSALS_BEFORE_ANOTHER_SENDER {
                DriveDecision::Stop(StopReason::AnotherSenderConnected)
            } else {
                DriveDecision::RetryAfterInterval
            })
        }),
{
    reveal_with_fuel(run_attempts, 4);
    let s = Seq::new(k, |i: int| AttemptOutcome::DialRefused);
    assert(s.drop_first() =~= Seq::new((k - 1) as nat, |i: int| AttemptOutcome::DialRefused));
    if k >= 2 {
        assert(s.drop_first().drop_first() =~= Seq::new((k - 2) as nat, |i: int| AttemptOutcome::DialRefused));
    }
    if k >= 3 {
        assert(s.drop_first().drop_first().drop_first() =~= Seq::new((k - 3) as nat, |i: int| AttemptOutcome::DialRefused));
    }
}

/// Whether an attempt failed without completing a handshake and without
/// stopping the driver: a refusal, a device not listed, or another dial or
/// handshake failure.
pub open spec fn ordinary_failure(outcome: AttemptOutcome) -> bool {
    ||| outcome == AttemptOutcome::DialRefused
    ||| outcome == AttemptOutcome::DeviceNotFound
    ||| outcome == AttemptOutcome::DialFailed
    ||| outcome == AttemptOutcome::HandshakeFailed
}

/// How many of `outcomes` are dial refusals.
pub open spec fn refusals_in(outcomes: Seq<AttemptOutcome>) -> nat
    decreases outcomes.len(),
{
    if outcomes.len() == 0 {
        0
    } else {
        (if outcomes[0] == AttemptOutcome::DialRefused { 1nat } else { 0nat }) + refusals_in(outcomes.drop_first())
    }
}

proof fn lemma_refusals_accumulate(start: u32, outcomes: Seq<AttemptOutcome>)
    requires
        forall|i: int| 0 <= i < outcomes.len() ==> ordinary_failure(#[trigger] outcomes[i]),
        start + refusals_in(outcomes) < REFUSALS_BEFORE_ANOTHER_SENDER,
    ensures
        run_attempts(start, outcomes).0 == start + refusals_in(outcomes),
        run_attempts(start, outcomes).1.len() == outcomes.len(),
        forall|i: int| 0 <= i < outcomes.len() ==> #[trigger] run_attempts(start, outcomes).1[i] == DriveDecision::RetryAfterInterval,
    decreases outcomes.len(),
{
    if outcomes.len() > 0 {
        let rest = outcomes.drop_first();
        assert(ordinary_failure(outcomes[0]));
        assert forall|i: int| 0 <= i < rest.len() implies ordinary_failure(#[trigger] rest[i]) by {
            assert(rest[i] == outcomes[i + 1]);
        }
        let (n, d) = spec_drive_step(start, outcomes[0]);
        lemma_refusals_accumulate(n, rest);
        let ds = run_attempts(start, outcomes).1;
        assert forall|i: int| 0 <= i < outcomes.len() implies #[trigger] ds[i] == DriveDecision::RetryAfterInterval by {
            if i > 0 {
                assert(ds[i] == run_attempts(n, rest).1[i - 1]);
            }
        }
    }
}

proof fn lemma_run_attempts_append(start: u32, a: Seq<AttemptOutcome>, b: Seq<AttemptOutcome>)
    ensures
        run_attempts(start, a + b).0 == run_attempts(run_attempts(start, a).0, b).0,
        run_attempts(start, a + b).1 == run_attempts(start, a).1 + run_attempts(run_attempts(start, a).0, b).1,
    decreases a.len(),
{
    if a.len() == 0 {
        assert(a + b =~= b);
    } else {
        let (n, d) = spec_drive_step(start, a[0]);
        assert((a + b).drop_first() =~= a.drop_first() + b);
        lemma_run_attempts_append(n, a.drop_first(), b);
        assert(run_attempts(start, a + b).1 =~= run_attempts(start, a).1 + run_attempts(run_attempts(start, a).0, b).1);
    }
}

/// Over any run of ordinary failures from a fresh count, refusals need not
/// be back to back: the driver retries after every attempt until the
/// refusal that brings the run's refusals to the floor, and stops there as
/// "another sender connected".
pub proof fn lemma_refusal_floor_over_a_run(outcomes: Seq<AttemptOutcome>)
    requires
        outcomes.len() > 0,
        forall|i: int| 0 <= i < outcomes.len() ==> ordinary_failure(#[trigger] outcomes[i]),
        outcomes.last() == AttemptOutcome::DialRefused,
        refusals_in(outcomes) == REFUSALS_BEFORE_ANOTHER_SENDER,
    ensures
        ({
            let ds = run_attempts(0, outcomes).1;
            &&& ds.len() == outcomes.len()
            &&& forall|i: int| 0 <= i < outcomes.len() - 1 ==> #[trigger] ds[i] == DriveDecision::RetryAfterInterval
            &&& ds.last() == DriveDecision::Stop(StopReason::AnotherSenderConnected)
        }),
{
    let prefix = outcomes.drop_last();
    let last = seq![AttemptOutcome::DialRefused];
    assert(outcomes =~= prefix + last);
    lemma_refusals_append(prefix, last);
    assert(refusals_in(last) == 1) by {
        reveal_with_fuel(refusals_in, 2);
    }
    assert forall|i: int| 0 <= i < prefix.len() implies ordinary_failure(#[trigger] prefix[i]) by {
        assert(prefix[i] == outcomes[i]);
    }
    lemma_refusals_accumulate(0, prefix);
    lemma_run_attempts_append(0, prefix, last);
    reveal_with_fuel(run_attempts, 2);
}

proof fn lemma_refusals_append(a: Seq<AttemptOutcome>, b: Seq<AttemptOutcome>)
    ensures
        refusals_in(a + b) == refusals_in(a) + refusals_in(b),
    decreases a.len(),
{
    if a.len() == 0 {
        assert(a + b =~= b);
    } else {
        assert((a + b).drop_first() =~= a.drop_first() + b);
        lemma_refusals_append(a.drop_first(), b);
    }
}

/// The driver stops only after a teardown request, a peer too old to
/// serve, the refusal that reaches the floor, or a session that ended for
/// good or was stopped from outside; after every other attempt it redials
/// once the retry interval has passed. A completed handshake (even one
/// whose display could not be made) clears the refusal count, a refusal
/// adds one to it, and every other attempt leaves it.
pub proof fn lemma_when_the_driver_stops(consecutive_refusals: u32, outcome: AttemptOutcome)
    requires
        consecutive_refusals < u32::MAX,
    ensures
        spec_drive_step(consecutive_refusals, outcome).1 is Stop <==> stops_the_driver(consecutive_refusals, outcome),
        !stops_the_driver(consecutive_refusals, outcome) ==> spec_drive_step(consecutive_refusals, outcome).1
            == DriveDecision::RetryAfterInterval,
        handshake_completed(outcome) ==> spec_drive_step(consecutive_refusals, outcome).0 == 0,
        outcome == AttemptOutcome::DialRefused ==> spec_drive_step(consecutive_refusals, outcome).0
            == consecutive_refusals + 1,
        !handshake_completed(outcome) && outcome != AttemptOutcome::DialRefused ==> spec_drive_step(
            consecutive_refusals,
            outcome,
        ).0 == consecutive_refusals,
        spec_drive_step(consecutive_refusals, AttemptOutcome::DisplayFailed) == (0u32, DriveDecision::RetryAfterInterval),
{
}

/// A completed handshake wipes out earlier refusals: after it, the floor
/// needs as many fresh consecutive refusals as from the start.
pub proof fn lemma_handshake_resets_refusals(consecutive_refusals: u32, outcome: SessionOutcome)
    ensures
        spec_drive_step(consecutive_refusals, AttemptOutcome::DisplayFailed).0 == 0,
        spec_drive_step(consecutive_refusals, AttemptOutcome::SessionEnded(outcome)).0 == 0,
{
}

/// What one read of the connection gave during a connected session.
#[derive(Debug, Clone, Copy, PartialEq, Eq, Structural)]
pub enum ControlRead {
    /// Nothing arrived this tick.
    Nothing,
    /// A control message arrived; `event` is the session event it carries,
    /// if any.
    Message { event: Option<SessionEvent> },
    /// The connection dropped, or its framing broke.
    Failed,
}

/// The state and, when the session ends, the outcome that follow one tick
/// of a connected session: a teardown request stops it first; a failed read
/// is an ordinary drop; an event drives the state machine, and a terminal
/// state ends the session for good, a paused one for a redial.
pub open spec fn spec_session_tick(state: SessionState, teardown: bool, read: ControlRead) -> (SessionState, Option<SessionOutcome>) {
    if teardown {
        (state, Some(SessionOutcome::ExternallyStopped))
    } else {
        match read {
            ControlRead::Nothing | ControlRead::Message { event: None } => (state, None),
            ControlRead::Failed => (state, Some(SessionOutcome::Retry)),
            ControlRead::Message { event: Some(event) } => {
                let next = spec_transition(state, event);
                match next {
                    SessionState::Terminal { reason } => (next, Some(SessionOutcome::Terminal(reason))),
                    SessionState::Paused => (next, Some(SessionOutcome::Retry)),
                    _ => (next, None),
                }
            },
        }
    }
}

/// Decides one tick of a connected session from whether teardown was
/// requested and what the connection read gave.
pub fn session_tick(state: SessionState, teardown: bool, read: ControlRead) -> (r: (SessionState, Option<SessionOutcome>))
    ensures
        r == spec_session_tick(state, teardown, read),
{
    if teardown {
        return (state, Some(SessionOutcome::ExternallyStopped));
    }
    match read {
        ControlRead::Nothing => (state, None),
        ControlRead::Message { event: None } => (state, None),
        ControlRead::Failed => (state, Some(SessionOutcome::Retry)),
        ControlRead::Message { event: Some(event) } => {
            let next = transition(state, event);
            match next {
                SessionState::Terminal { reason } => (next, Some(SessionOutcome::Terminal(reason))),
                SessionState::Paused => (next, Some(SessionOutcome::Retry)),
                _ => (next, None),
            }
        },
    }
}

/// The receiver's `closing` always ends a connected session for good, and
/// `sleeping` ends it for a redial; the driver then stops, or retries.
pub proof fn lemma_receiver_messages_end_the_session()
    ensures
        spec_session_tick(SessionState::Connected, false, ControlRead::Message { event: Some(SessionEvent::ReceivedClosing) }).1
            == Some(SessionOutcome::Terminal(TerminalReason::Closing)),
        spec_session_tick(SessionState::Connected, false, ControlRead::Message { event: Some(SessionEvent::ReceivedSleeping) }).1
            == Some(SessionOutcome::Retry),
        spec_drive_step(0, AttemptOutcome::SessionEnded(SessionOutcome::Terminal(TerminalReason::Closing))).1
            == DriveDecision::Stop(StopReason::SessionEnded(TerminalReason::Closing)),
        spec_drive_step(0, AttemptOutcome::SessionEnded(SessionOutcome::Retry)).1 == DriveDecision::RetryAfterInterval,
{
}

} // verus!
