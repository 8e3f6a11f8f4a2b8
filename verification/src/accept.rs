//! The accept loop's state machine: `Running` while new clients are
//! admitted, `Draining` once the shutdown flag is observed, `Stopped` when
//! the loop has exited. A failed accept is retried, never fatal.

use vstd::prelude::*;

verus! {

/// Where the accept loop stands.
#[derive(Clone, Copy, PartialEq, Eq, Structural, Debug)]
pub enum AcceptState {
    /// Admitting new connections.
    Running,
    /// Shutdown observed: no more accepts; existing handlers drain.
    Draining,
    /// Terminal: the loop has exited.
    Stopped,
}

/// What the accept loop just observed.
#[derive(Clone, Copy, PartialEq, Eq, Structural, Debug)]
pub enum AcceptEvent {
    /// The shutdown flag read false.
    FlagClear,
    /// The shutdown flag read true.
    FlagSet,
    /// An accept attempt returned a new connection.
    Accepted,
    /// An accept attempt failed.
    AcceptFailed,
}

/// What the accept loop does next.
#[derive(Clone, Copy, PartialEq, Eq, Structural, Debug)]
pub enum AcceptAction {
    /// Block on the listener for the next connection.
    AwaitConnection,
    /// Hand the accepted connection its own handler.
    SpawnHandler,
    /// Log the accept error and try again after a pause; never crash the
    /// server over one failed accept.
    RetryAfterError,
    /// Admit nobody else.
    StopAccepting,
}

/// The transition table of the accept loop.
pub open spec fn accept_step_v(st: AcceptState, ev: AcceptEvent) -> (AcceptState, AcceptAction) {
    match st {
        AcceptState::Running => match ev {
            AcceptEvent::FlagClear => (AcceptState::Running, AcceptAction::AwaitConnection),
            AcceptEvent::FlagSet => (AcceptState::Draining, AcceptAction::StopAccepting),
            AcceptEvent::Accepted => (AcceptState::Running, AcceptAction::SpawnHandler),
            AcceptEvent::AcceptFailed => (AcceptState::Running, AcceptAction::RetryAfterError),
        },
        AcceptState::Draining => (AcceptState::Stopped, AcceptAction::StopAccepting),
        AcceptState::Stopped => (AcceptState::Stopped, AcceptAction::StopAccepting),
    }
}

/// The event a reading of the shutdown flag stands for.
pub fn event_for_flag(flag_set: bool) -> (ev: AcceptEvent)
    ensures
        ev == (if flag_set {
            AcceptEvent::FlagSet
        } else {
            AcceptEvent::FlagClear
        }),
{
    if flag_set {
        AcceptEvent::FlagSet
    } else {
        AcceptEvent::FlagClear
    }
}

/// One step of the accept loop: from its state and what it observed to its
/// next state and what it must do.
pub fn accept_step(st: AcceptState, ev: AcceptEvent) -> (r: (AcceptState, AcceptAction))
    ensures
        r == accept_step_v(st, ev),
{
    match st {
        AcceptState::Running => match ev {
            AcceptEvent::FlagClear => (AcceptState::Running, AcceptAction::AwaitConnection),
            AcceptEvent::FlagSet => (AcceptState::Draining, AcceptAction::StopAccepting),
            AcceptEvent::Accepted => (AcceptState::Running, AcceptAction::SpawnHandler),
            AcceptEvent::AcceptFailed => (AcceptState::Running, AcceptAction::RetryAfterError),
        },
        AcceptState::Draining => (AcceptState::Stopped, AcceptAction::StopAccepting),
        AcceptState::Stopped => (AcceptState::Stopped, AcceptAction::StopAccepting),
    }
}

/// Observing the raised shutdown flag stops admission at once.
pub proof fn lemma_flag_stops_admission()
    ensures
        accept_step_v(AcceptState::Running, AcceptEvent::FlagSet).0 is Draining,
        accept_step_v(AcceptState::Running, AcceptEvent::FlagSet).1 is StopAccepting,
{
}

/// Once the loop has left `Running`, it never admits or spawns again and
/// never returns to `Running`, whatever it observes.
pub proof fn lemma_shutdown_is_final(st: AcceptState, ev: AcceptEvent)
    requires
        !(st is Running),
    ensures
        !(accept_step_v(st, ev).0 is Running),
        accept_step_v(st, ev).1 is StopAccepting,
{
}

} // verus!
