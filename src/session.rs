use vstd::prelude::*;

verus! {

/// Where a subscriber session stands.
#[derive(PartialEq, Eq, Structural, Clone, Copy, Debug)]
pub enum Phase {
    /// Waiting for the next item from the broadcast hub.
    Receiving,
    /// Waiting for the connection to accept a written frame.
    Writing,
    /// Ended; the session has left the hub.
    Finished,
}

/// What the session was told.
pub enum SessionEvent {
    /// The hub delivered an item, already encoded as a frame.
    Delivered(String),
    /// The session fell behind and the hub dropped this many of its oldest
    /// undelivered items.
    Missed(u64),
    /// The hub will deliver nothing more.
    HubClosed,
    /// The connection accepted the last frame.
    Written,
    /// Writing failed, or the connection closed.
    WriteFailed,
}

/// What the session does next.
pub enum SessionAction {
    /// Write this frame to the connection.
    Write(String),
    /// Wait for the next item from the hub.
    Receive,
    /// End the session and leave the hub.
    Stop,
}

/// The phase that follows `phase` on `event`.
pub open spec fn next_phase(phase: Phase, event: SessionEvent) -> Phase {
    match phase {
        Phase::Receiving => match event {
            SessionEvent::Delivered(_) => Phase::Writing,
            SessionEvent::Missed(_) => Phase::Receiving,
            _ => Phase::Finished,
        },
        Phase::Writing => match event {
            SessionEvent::Written => Phase::Receiving,
            _ => Phase::Finished,
        },
        Phase::Finished => Phase::Finished,
    }
}

/// The action that goes with entering `next` from `phase` on `event`.
pub open spec fn action_spec(
    phase: Phase,
    event: SessionEvent,
    action: SessionAction,
) -> bool {
    let next = next_phase(phase, event);
    match next {
        Phase::Finished => action is Stop,
        Phase::Writing => match (event, action) {
            (SessionEvent::Delivered(f), SessionAction::Write(w)) => phase == Phase::Receiving
                && w@ == f@,
            _ => false,
        },
        Phase::Receiving => action is Receive,
    }
}

/// Decides one step of a subscriber session. A delivered item is written;
/// missed items are skipped and the session keeps receiving; a closed hub or
/// a failed write ends the session, and so does an event that does not
/// belong to the current phase. A finished session stays finished.
pub fn session_step(phase: &mut Phase, event: SessionEvent) -> (action: SessionAction)
    ensures
        *final(phase) == next_phase(*old(phase), event),
        action_spec(*old(phase), event, action),
{
    match *phase {
        Phase::Receiving => match event {
            SessionEvent::Delivered(frame) => {
                *phase = Phase::Writing;
                SessionAction::Write(frame)
            },
            SessionEvent::Missed(_) => SessionAction::Receive,
            _ => {
                *phase = Phase::Finished;
                SessionAction::Stop
            },
        },
        Phase::Writing => match event {
            SessionEvent::Written => {
                *phase = Phase::Receiving;
                SessionAction::Receive
            },
            _ => {
                *phase = Phase::Finished;
                SessionAction::Stop
            },
        },
        Phase::Finished => SessionAction::Stop,
    }
}

} // verus!
