//! The per-connection lifecycle and the decisions its two tasks make.
//!
//! Every accepted socket is served by two concurrent duties: a reader
//! that turns bytes into lines and publishes them, and a writer that
//! subscribes to the hub and copies delivered messages back onto the
//! socket.  The connection as a whole moves `Active` -> `HalfClosed`
//! -> `Closed`: whichever duty ends first must signal its sibling, so
//! a half-dead connection never leaks its other task.
//!
//! The functions here decide; the loops that read, write and sleep
//! around them live outside the library.  A subscriber that lagged is
//! handled with the skip policy: the gap is dropped and delivery
//! resumes from the next retained message, so one slow client never
//! stalls the relay (lag is not an error that closes the connection).

use crate::hub::RecvOutcome;
use vstd::prelude::*;

verus! {

/// Lifecycle of one connection: both duties running, one ended, both
/// ended with its resources released.
#[derive(Clone, Copy, PartialEq, Eq, Structural, Debug)]
pub enum ConnState {
    Active,
    HalfClosed,
    Closed,
}

/// What the writer does with one delivery outcome.
#[derive(Clone, Copy, PartialEq, Eq, Structural, Debug)]
pub enum WriterDecision {
    /// Write the delivered message to the socket.
    Forward,
    /// Drop the gap and resume from the next retained message.
    SkipGap,
    /// Nothing to deliver yet: wait for the next publication.
    Wait,
}

/// What one accept-loop iteration saw.
#[derive(Clone, Copy, PartialEq, Eq, Structural, Debug)]
pub enum AcceptEvent {
    /// A new socket arrived.
    Accepted,
    /// A transient accept error: logged, nothing created.
    TransientError,
}

/// The state after one duty (reader or writer) has terminated.
pub open spec fn side_terminated_spec(state: ConnState) -> ConnState {
    match state {
        ConnState::Active => ConnState::HalfClosed,
        ConnState::HalfClosed => ConnState::Closed,
        ConnState::Closed => ConnState::Closed,
    }
}

/// Whether that termination must signal the sibling duty to stop.
pub open spec fn must_signal_peer_spec(state: ConnState) -> bool {
    state == ConnState::Active
}

/// One duty ended: end of input, a read or write error, or a decode
/// error on this connection's bytes.  Returns the connection's next
/// state and whether the sibling duty must now be told to terminate.
/// All such failures stay scoped to this connection.
pub fn side_terminated(state: ConnState) -> (r: (ConnState, bool))
    ensures
        r.0 == side_terminated_spec(state),
        r.1 == must_signal_peer_spec(state),
{
    match state {
        ConnState::Active => (ConnState::HalfClosed, true),
        ConnState::HalfClosed => (ConnState::Closed, false),
        ConnState::Closed => (ConnState::Closed, false),
    }
}

/// The reader publishes a completed line only while the connection is
/// still fully active; once either duty started shutting down, no more
/// of this connection's lines enter the hub.
pub fn reader_may_publish(state: ConnState) -> (r: bool)
    ensures
        r == (state == ConnState::Active),
{
    match state {
        ConnState::Active => true,
        ConnState::HalfClosed => false,
        ConnState::Closed => false,
    }
}

/// The writer's decision for one delivery outcome: forward a message,
/// skip a gap and resume (the documented lag policy), or wait.
pub fn writer_decision(outcome: &RecvOutcome) -> (d: WriterDecision)
    ensures
        d == WriterDecision::Forward <==> outcome is Message,
        d == WriterDecision::SkipGap <==> outcome is Lagged,
        d == WriterDecision::Wait <==> outcome is Pending,
{
    match outcome {
        RecvOutcome::Message(_) => WriterDecision::Forward,
        RecvOutcome::Lagged(_) => WriterDecision::SkipGap,
        RecvOutcome::Pending => WriterDecision::Wait,
    }
}

/// One accept-loop decision: spawn a handler exactly for an accepted
/// socket, and keep listening either way -- a transient accept failure
/// never terminates the server.
pub fn accept_decision(event: &AcceptEvent) -> (r: (bool, bool))
    ensures
        r.0 == (*event == AcceptEvent::Accepted),
        r.1,
{
    match event {
        AcceptEvent::Accepted => (true, true),
        AcceptEvent::TransientError => (false, true),
    }
}

/// Shutdown is paired and bounded: from a fully active connection, the
/// first duty to end signals its sibling, and the sibling's own
/// termination then closes the connection for good -- two steps, never
/// a leaked task.  From any state at all, two terminations suffice.
pub proof fn lemma_paired_shutdown_closes(state: ConnState)
    ensures
        side_terminated_spec(side_terminated_spec(state)) == ConnState::Closed,
        must_signal_peer_spec(ConnState::Active),
        !must_signal_peer_spec(side_terminated_spec(ConnState::Active)),
{
}

} // verus!
