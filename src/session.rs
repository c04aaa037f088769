use vstd::prelude::*;

verus! {

/// Where a connection stands.
#[derive(PartialEq, Eq, Structural, Clone, Copy, Debug)]
pub enum SessionPhase {
    Connecting,
    Active,
    Closing,
    Closed,
}

/// What the connection layer reports to a session.
#[derive(PartialEq, Eq, Structural, Clone, Copy, Debug)]
pub enum SessionEvent {
    /// The transport is upgraded and the user's identity is known.
    Accepted,
    /// An inbound frame did not decode.
    BadFrame,
    /// The inbound pump stopped: the peer closed or a read failed.
    InboundEnded,
    /// The outbound pump stopped: a write failed or the channel closed.
    OutboundEnded,
    /// The disconnect has been handled.
    TornDown,
}

/// What the connection layer does next.
#[derive(PartialEq, Eq, Structural, Clone, Copy, Debug)]
pub enum SessionAction {
    /// Subscribe to the channel and start both pumps.
    StartPumps,
    /// Drop the frame and keep reading.
    DropFrame,
    /// Cancel the outbound pump, then handle the user's disconnect.
    CancelOutboundAndDisconnect,
    /// Cancel the inbound pump, then handle the user's disconnect.
    CancelInboundAndDisconnect,
    /// Release the subscription and the transport.
    Release,
    /// Nothing to do.
    Nothing,
}

/// One step of a connection's lifecycle. A bad frame is dropped and the
/// session goes on; whichever pump stops first cancels the other and leads
/// to exactly one disconnect; events that do not fit the phase change nothing.
pub fn session_step(phase: SessionPhase, event: SessionEvent) -> (r: (SessionPhase, SessionAction))
    ensures
        r == (match (phase, event) {
            (SessionPhase::Connecting, SessionEvent::Accepted) => (SessionPhase::Active, SessionAction::StartPumps),
            (SessionPhase::Active, SessionEvent::BadFrame) => (SessionPhase::Active, SessionAction::DropFrame),
            (SessionPhase::Active, SessionEvent::InboundEnded) => (SessionPhase::Closing, SessionAction::CancelOutboundAndDisconnect),
            (SessionPhase::Active, SessionEvent::OutboundEnded) => (SessionPhase::Closing, SessionAction::CancelInboundAndDisconnect),
            (SessionPhase::Closing, SessionEvent::TornDown) => (SessionPhase::Closed, SessionAction::Release),
            _ => (phase, SessionAction::Nothing),
        }),
{
    match (phase, event) {
        (SessionPhase::Connecting, SessionEvent::Accepted) => (SessionPhase::Active, SessionAction::StartPumps),
        (SessionPhase::Active, SessionEvent::BadFrame) => (SessionPhase::Active, SessionAction::DropFrame),
        (SessionPhase::Active, SessionEvent::InboundEnded) => (SessionPhase::Closing, SessionAction::CancelOutboundAndDisconnect),
        (SessionPhase::Active, SessionEvent::OutboundEnded) => (SessionPhase::Closing, SessionAction::CancelInboundAndDisconnect),
        (SessionPhase::Closing, SessionEvent::TornDown) => (SessionPhase::Closed, SessionAction::Release),
        _ => (phase, SessionAction::Nothing),
    }
}

} // verus!
