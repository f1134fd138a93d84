//! The life of one connection, as the server and the client see it.
use vstd::prelude::*;

verus! {

/// Where a connection stands on the server.
#[derive(Clone, Copy, Debug, PartialEq, Eq, Structural)]
pub enum ConnectionPhase {
    Connecting,
    Snapshotting,
    Active,
    Disconnected,
}

/// What happened to a connection.
#[derive(Clone, Copy, Debug, PartialEq, Eq, Structural)]
pub enum PhaseEvent {
    /// The server accepted it and gave it a player.
    Accepted,
    /// Every snapshot packet went out.
    SnapshotSent,
    /// A steady send failed.
    SendFailed,
    /// A steady receive failed or the stream closed.
    ReceiveFailed,
    /// No ping arrived within the liveness timeout.
    TimedOut,
    /// The server removed it.
    Removed,
}

pub open spec fn phase_step(p: ConnectionPhase, e: PhaseEvent) -> ConnectionPhase {
    match p {
        ConnectionPhase::Connecting => match e {
            PhaseEvent::Accepted => ConnectionPhase::Snapshotting,
            PhaseEvent::SnapshotSent => ConnectionPhase::Connecting,
            _ => ConnectionPhase::Disconnected,
        },
        ConnectionPhase::Snapshotting => match e {
            PhaseEvent::SnapshotSent => ConnectionPhase::Active,
            PhaseEvent::Accepted => ConnectionPhase::Snapshotting,
            _ => ConnectionPhase::Disconnected,
        },
        ConnectionPhase::Active => match e {
            PhaseEvent::Accepted | PhaseEvent::SnapshotSent => ConnectionPhase::Active,
            _ => ConnectionPhase::Disconnected,
        },
        ConnectionPhase::Disconnected => ConnectionPhase::Disconnected,
    }
}

/// The next phase: accepting starts the snapshot, a complete snapshot makes
/// the connection active, and any failure, timeout or removal ends it for
/// good. Events that do not apply to a phase leave it as it is.
pub fn next_phase(p: ConnectionPhase, e: PhaseEvent) -> (r: ConnectionPhase)
    ensures
        r == phase_step(p, e),
{
    match p {
        ConnectionPhase::Connecting => match e {
            PhaseEvent::Accepted => ConnectionPhase::Snapshotting,
            PhaseEvent::SnapshotSent => ConnectionPhase::Connecting,
            _ => ConnectionPhase::Disconnected,
        },
        ConnectionPhase::Snapshotting => match e {
            PhaseEvent::SnapshotSent => ConnectionPhase::Active,
            PhaseEvent::Accepted => ConnectionPhase::Snapshotting,
            _ => ConnectionPhase::Disconnected,
        },
        ConnectionPhase::Active => match e {
            PhaseEvent::Accepted | PhaseEvent::SnapshotSent => ConnectionPhase::Active,
            _ => ConnectionPhase::Disconnected,
        },
        ConnectionPhase::Disconnected => ConnectionPhase::Disconnected,
    }
}

/// The phase after a run of events.
pub open spec fn run_phases(p: ConnectionPhase, es: Seq<PhaseEvent>) -> ConnectionPhase
    decreases es.len(),
{
    if es.len() == 0 {
        p
    } else {
        phase_step(run_phases(p, es.drop_last()), es.last())
    }
}

/// A disconnected connection stays disconnected, and a connection only
/// becomes active through a completed snapshot: a failed snapshot never
/// reaches the active phase.
pub proof fn lemma_phases(es: Seq<PhaseEvent>)
    ensures
        run_phases(ConnectionPhase::Disconnected, es) == ConnectionPhase::Disconnected,
        run_phases(ConnectionPhase::Connecting, es) == ConnectionPhase::Active ==> exists|i: int|
            0 <= i < es.len() && es[i] == PhaseEvent::SnapshotSent,
    decreases es.len(),
{
    if es.len() > 0 {
        lemma_phases(es.drop_last());
        let prev = run_phases(ConnectionPhase::Connecting, es.drop_last());
        if run_phases(ConnectionPhase::Connecting, es) == ConnectionPhase::Active {
            if prev == ConnectionPhase::Active {
                let i = choose|i: int| 0 <= i < es.drop_last().len() && es.drop_last()[i] == PhaseEvent::SnapshotSent;
                assert(es[i] == es.drop_last()[i]);
            } else {
                assert(es[es.len() - 1] == PhaseEvent::SnapshotSent);
            }
        }
    }
}

/// How the client judges its link from the time since its last ping.
#[derive(Clone, Copy, Debug, PartialEq, Eq, Structural)]
pub enum LinkStatus {
    Stable,
    Unstable,
    Disconnected,
}

/// From this many time units the link is shown as unstable.
pub const UNSTABLE_AFTER: u64 = 10;

/// From this many time units the link is shown as lost.
pub const DISCONNECTED_AFTER: u64 = 30;

pub fn link_status(elapsed: u64) -> (r: LinkStatus)
    ensures
        elapsed >= DISCONNECTED_AFTER ==> r == LinkStatus::Disconnected,
        UNSTABLE_AFTER <= elapsed < DISCONNECTED_AFTER ==> r == LinkStatus::Unstable,
        elapsed < UNSTABLE_AFTER ==> r == LinkStatus::Stable,
{
    if elapsed >= DISCONNECTED_AFTER {
        LinkStatus::Disconnected
    } else if elapsed >= UNSTABLE_AFTER {
        LinkStatus::Unstable
    } else {
        LinkStatus::Stable
    }
}

/// The two transports.
#[derive(Clone, Copy, Debug, PartialEq, Eq, Structural)]
pub enum TransportKind {
    Local,
    Networked,
}

/// A server takes connections of its own transport only.
pub fn connection_allowed(server: TransportKind, connection: TransportKind) -> (r: bool)
    ensures
        r == (server == connection),
{
    server == connection
}

} // verus!
