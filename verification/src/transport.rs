//! The reconnecting transport of one lane: when to connect, when to wait for
//! a connection that is already being made, and when to use the one at hand.
//!
//! The caller owns the connection and does the connecting and the sending.
//! It tells the transport what happened and is told what to do. A send that
//! finds no usable connection leads to one attempt to connect; if that
//! attempt fails the send fails, and the next send tries again.

use vstd::prelude::*;
use crate::address::Destination;

verus! {

/// What is known of the connection.
#[derive(Clone, Copy, Debug, PartialEq, Eq, Structural)]
pub enum ConnectionState {
    /// None has been made yet.
    Absent,
    /// An attempt to connect is in flight.
    Connecting,
    /// There is a connection, and it is thought usable.
    Live,
    /// The last connection closed, or the last attempt failed.
    Broken,
}

/// What the caller reports.
#[derive(Clone, Copy, Debug, PartialEq, Eq, Structural)]
pub enum TransportEvent {
    /// Someone wants to send.
    SendRequested,
    /// The attempt in flight gave a connection.
    Connected,
    /// The attempt in flight failed.
    ConnectFailed,
    /// The connection was found closed.
    Closed,
}

/// What the caller is to do.
#[derive(Clone, Copy, Debug, PartialEq, Eq, Structural)]
pub enum TransportAction {
    /// Start an attempt to connect, and report how it ends.
    Connect,
    /// Wait for the attempt that is in flight; start none.
    AwaitConnect,
    /// Send on the connection at hand: open a stream, write, close.
    UseConnection,
    /// Let the sends that wait for the connection fail. No second attempt is
    /// made for them.
    FailSend,
    /// Nothing.
    Nothing,
}

/// The state after `event`.
pub open spec fn next_state(state: ConnectionState, event: TransportEvent) -> ConnectionState {
    match (state, event) {
        (ConnectionState::Absent, TransportEvent::SendRequested) => ConnectionState::Connecting,
        (ConnectionState::Broken, TransportEvent::SendRequested) => ConnectionState::Connecting,
        (ConnectionState::Connecting, TransportEvent::Connected) => ConnectionState::Live,
        (ConnectionState::Connecting, TransportEvent::ConnectFailed) => ConnectionState::Broken,
        (ConnectionState::Live, TransportEvent::Closed) => ConnectionState::Broken,
        _ => state,
    }
}

/// What to do about `event` in `state`.
pub open spec fn action_for(state: ConnectionState, event: TransportEvent) -> TransportAction {
    match (state, event) {
        (ConnectionState::Absent, TransportEvent::SendRequested) => TransportAction::Connect,
        (ConnectionState::Broken, TransportEvent::SendRequested) => TransportAction::Connect,
        (ConnectionState::Connecting, TransportEvent::SendRequested) => TransportAction::AwaitConnect,
        (ConnectionState::Live, TransportEvent::SendRequested) => TransportAction::UseConnection,
        (ConnectionState::Connecting, TransportEvent::Connected) => TransportAction::UseConnection,
        (ConnectionState::Connecting, TransportEvent::ConnectFailed) => TransportAction::FailSend,
        _ => TransportAction::Nothing,
    }
}

/// The state after all of `events`, first to last.
pub open spec fn state_after(state: ConnectionState, events: Seq<TransportEvent>) -> ConnectionState
    decreases events.len(),
{
    if events.len() == 0 {
        state
    } else {
        next_state(state_after(state, events.drop_last()), events.last())
    }
}

/// Attempts to connect that `events` set off, starting from `state`.
pub open spec fn attempts_started(state: ConnectionState, events: Seq<TransportEvent>) -> nat
    decreases events.len(),
{
    if events.len() == 0 {
        0
    } else {
        let before = state_after(state, events.drop_last());
        attempts_started(state, events.drop_last()) + if action_for(before, events.last())
            == TransportAction::Connect {
            1nat
        } else {
            0nat
        }
    }
}

/// Attempts to connect that `events` report as ended, starting from `state`.
/// A report that comes while no attempt is in flight ends none.
pub open spec fn attempts_ended(state: ConnectionState, events: Seq<TransportEvent>) -> nat
    decreases events.len(),
{
    if events.len() == 0 {
        0
    } else {
        let before = state_after(state, events.drop_last());
        attempts_ended(state, events.drop_last()) + if before == ConnectionState::Connecting && (
        events.last() == TransportEvent::Connected || events.last()
            == TransportEvent::ConnectFailed) {
            1nat
        } else {
            0nat
        }
    }
}

/// `n` requests to send, with nothing reported in between.
pub open spec fn requests(n: nat) -> Seq<TransportEvent> {
    Seq::new(n, |i: int| TransportEvent::SendRequested)
}

/// A transport as a value.
pub struct TransportView {
    pub destination: Destination,
    pub state: ConnectionState,
}

/// The transport of one lane. It is owned by that lane and by no other.
pub struct Transport {
    destination: Destination,
    state: ConnectionState,
}

impl View for Transport {
    type V = TransportView;

    closed spec fn view(&self) -> TransportView {
        TransportView { destination: self.destination, state: self.state }
    }
}

impl Transport {
    /// A transport towards `destination` that has not connected yet.
    pub fn new(destination: Destination) -> (transport: Self)
        ensures
            transport@ == (TransportView { destination, state: ConnectionState::Absent }),
    {
        Transport { destination, state: ConnectionState::Absent }
    }

    /// Takes note of `event` and says what to do about it.
    pub fn on_event(&mut self, event: TransportEvent) -> (action: TransportAction)
        ensures
            action == action_for(old(self)@.state, event),
            final(self)@ == (TransportView {
                state: next_state(old(self)@.state, event),
                ..old(self)@
            }),
    {
        let (state, action) = match (self.state, event) {
            (ConnectionState::Absent, TransportEvent::SendRequested) => (
                ConnectionState::Connecting,
                TransportAction::Connect,
            ),
            (ConnectionState::Broken, TransportEvent::SendRequested) => (
                ConnectionState::Connecting,
                TransportAction::Connect,
            ),
            (ConnectionState::Connecting, TransportEvent::SendRequested) => (
                ConnectionState::Connecting,
                TransportAction::AwaitConnect,
            ),
            (ConnectionState::Live, TransportEvent::SendRequested) => (
                ConnectionState::Live,
                TransportAction::UseConnection,
            ),
            (ConnectionState::Connecting, TransportEvent::Connected) => (
                ConnectionState::Live,
                TransportAction::UseConnection,
            ),
            (ConnectionState::Connecting, TransportEvent::ConnectFailed) => (
                ConnectionState::Broken,
                TransportAction::FailSend,
            ),
            (ConnectionState::Live, TransportEvent::Closed) => (
                ConnectionState::Broken,
                TransportAction::Nothing,
            ),
            (state, _) => (state, TransportAction::Nothing),
        };
        self.state = state;
        action
    }

    /// What is known of the connection.
    pub fn state(&self) -> (state: ConnectionState)
        ensures
            state == self@.state,
    {
        self.state
    }

    /// Where the transport sends to.
    pub fn destination(&self) -> (destination: Destination)
        ensures
            destination == self@.destination,
    {
        self.destination
    }
}

/// Any number of callers that ask to send while there is no connection set
/// off one attempt to connect between them: the first starts it, and the
/// others wait for it. With a connection at hand, or an attempt already in
/// flight, they set off none.
pub proof fn lemma_callers_share_one_attempt(state: ConnectionState, n: nat)
    ensures
        attempts_started(state, requests(n)) == if n > 0 && (state == ConnectionState::Absent
            || state == ConnectionState::Broken) {
            1nat
        } else {
            0nat
        },
        n > 0 && state != ConnectionState::Live ==> state_after(state, requests(n))
            == ConnectionState::Connecting,
        state == ConnectionState::Live ==> state_after(state, requests(n)) == ConnectionState::Live,
    decreases n,
{
    if n > 0 {
        let fewer: nat = (n - 1) as nat;
        assert(requests(n).drop_last() == requests(fewer));
        lemma_callers_share_one_attempt(state, fewer);
    }
}

/// At every instant at most one attempt to connect is in flight: whatever is
/// reported, in whatever order, the attempts started are those that ended,
/// and one more while the transport is connecting.
pub proof fn lemma_at_most_one_attempt_in_flight(state: ConnectionState, events: Seq<TransportEvent>)
    requires
        state != ConnectionState::Connecting,
    ensures
        attempts_started(state, events) == attempts_ended(state, events) + if state_after(
            state,
            events,
        ) == ConnectionState::Connecting {
            1nat
        } else {
            0nat
        },
    decreases events.len(),
{
    if events.len() > 0 {
        lemma_at_most_one_attempt_in_flight(state, events.drop_last());
    }
}

} // verus!
