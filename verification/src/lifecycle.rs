//! The per-connection lifecycle: a connection is created on accept, polled
//! until one of its two monotonic flags fires, promoted into a registered
//! participant at most once, and cleaned up exactly once after promotion.
//!
//! The surrounding task owns the socket and the clock; this module owns the
//! decisions. Each turn of the task reads the two flags and hands them to
//! [`ConnectionLifecycle::step`], which returns the next action to perform:
//! poll, register, poll the participant, remove it, or finish.

use vstd::prelude::*;

verus! {

/// The two cross-task flags of a connection. Both are monotonic: once set,
/// never cleared, and a second set is a no-op.
#[derive(Clone, Copy, Debug, PartialEq, Eq, Structural)]
pub struct ConnectionFlags {
    pub closed: bool,
    pub promote: bool,
}

/// The flags after a close request.
pub open spec fn spec_with_closed(f: ConnectionFlags) -> ConnectionFlags {
    ConnectionFlags { closed: true, promote: f.promote }
}

/// The flags after a promotion request.
pub open spec fn spec_with_promote(f: ConnectionFlags) -> ConnectionFlags {
    ConnectionFlags { closed: f.closed, promote: true }
}

impl ConnectionFlags {
    pub fn new() -> (r: ConnectionFlags)
        ensures
            !r.closed,
            !r.promote,
    {
        ConnectionFlags { closed: false, promote: false }
    }

    /// Request closure; the other flag is untouched.
    pub fn set_closed(&mut self)
        ensures
            *final(self) == spec_with_closed(*old(self)),
    {
        self.closed = true;
    }

    /// Request promotion; the other flag is untouched.
    pub fn set_promote(&mut self)
        ensures
            *final(self) == spec_with_promote(*old(self)),
    {
        self.promote = true;
    }
}

/// Each flag fires at most once effectively: a second set changes nothing,
/// and neither set clears the other flag, so a set flag stays set forever.
pub proof fn lemma_flags_monotonic(f: ConnectionFlags)
    ensures
        spec_with_closed(spec_with_closed(f)) == spec_with_closed(f),
        spec_with_promote(spec_with_promote(f)) == spec_with_promote(f),
        spec_with_closed(f).promote == f.promote,
        spec_with_promote(f).closed == f.closed,
        f.closed ==> spec_with_promote(f).closed,
        f.promote ==> spec_with_closed(f).promote,
{
}

/// Where a connection's task stands.
#[derive(Clone, Copy, Debug, PartialEq, Eq, Structural)]
pub enum LifecyclePhase {
    /// Socket accepted, identifier assigned, task about to start polling.
    Connecting,
    /// Polling the raw connection, before any promotion.
    ClientPolling,
    /// The connection was consumed into a registered participant.
    PlayerPolling,
    /// The task is over; a promoted participant has been removed.
    Closed,
}

/// What the surrounding task must do for the step just decided.
#[derive(Clone, Copy, Debug, PartialEq, Eq, Structural)]
pub enum LifecycleAction {
    /// Poll the raw connection once and dispatch any frames received.
    PollClient,
    /// Consume the connection, register the participant with the server
    /// registry, spawn it into the world, and send its initial suggestion
    /// packet.
    RegisterParticipant,
    /// Poll the participant's connection once and dispatch in-game frames.
    PollPlayer,
    /// Unregister the participant and perform its world-side removal.
    RemoveParticipant,
    /// Nothing left to do; the task ends.
    Finished,
}

/// The decision state of one connection's task, together with counters of
/// the registry operations it has ordered so far.
#[derive(Clone, Copy, Debug, PartialEq, Eq, Structural)]
pub struct ConnectionLifecycle {
    pub phase: LifecyclePhase,
    pub was_promoted: bool,
    pub registrations: u64,
    pub removals: u64,
}

impl ConnectionLifecycle {
    /// The lifecycle invariant: registration is ordered exactly once, on
    /// promotion, and removal exactly once, when a promoted connection
    /// closes; a connection that never promotes orders neither.
    pub open spec fn wf(self) -> bool {
        &&& self.registrations == if self.was_promoted {
            1int
        } else {
            0int
        }
        &&& self.removals == if self.phase is Closed && self.was_promoted {
            1int
        } else {
            0int
        }
        &&& (self.phase is PlayerPolling ==> self.was_promoted)
        &&& ((self.phase is Connecting || self.phase is ClientPolling) ==> !self.was_promoted)
    }

    /// The transition relation, from the current phase and a snapshot of
    /// the two flags. Promotion takes precedence over closure, as the task
    /// must still register and then immediately clean up a connection whose
    /// both flags fired.
    pub open spec fn spec_step(self, closed: bool, promote: bool) -> (ConnectionLifecycle, LifecycleAction) {
        if self.phase is Connecting || self.phase is ClientPolling {
            if promote {
                (
                    ConnectionLifecycle {
                        phase: LifecyclePhase::PlayerPolling,
                        was_promoted: true,
                        registrations: (self.registrations + 1) as u64,
                        removals: self.removals,
                    },
                    LifecycleAction::RegisterParticipant,
                )
            } else if closed {
                (
                    ConnectionLifecycle {
                        phase: LifecyclePhase::Closed,
                        was_promoted: self.was_promoted,
                        registrations: self.registrations,
                        removals: self.removals,
                    },
                    LifecycleAction::Finished,
                )
            } else {
                (
                    ConnectionLifecycle {
                        phase: LifecyclePhase::ClientPolling,
                        was_promoted: self.was_promoted,
                        registrations: self.registrations,
                        removals: self.removals,
                    },
                    LifecycleAction::PollClient,
                )
            }
        } else if self.phase is PlayerPolling {
            if closed {
                (
                    ConnectionLifecycle {
                        phase: LifecyclePhase::Closed,
                        was_promoted: self.was_promoted,
                        registrations: self.registrations,
                        removals: (self.removals + 1) as u64,
                    },
                    LifecycleAction::RemoveParticipant,
                )
            } else {
                (self, LifecycleAction::PollPlayer)
            }
        } else {
            (self, LifecycleAction::Finished)
        }
    }

    /// A fresh lifecycle for an accepted socket.
    pub fn new() -> (r: ConnectionLifecycle)
        ensures
            r.phase is Connecting,
            !r.was_promoted,
            r.registrations == 0,
            r.removals == 0,
            r.wf(),
    {
        ConnectionLifecycle {
            phase: LifecyclePhase::Connecting,
            was_promoted: false,
            registrations: 0,
            removals: 0,
        }
    }

    /// Decide one turn of the task from a snapshot of the flags; returns
    /// the action the task must perform before the next turn.
    pub fn step(&mut self, closed: bool, promote: bool) -> (action: LifecycleAction)
        requires
            old(self).wf(),
        ensures
            *final(self) == old(self).spec_step(closed, promote).0,
            action == old(self).spec_step(closed, promote).1,
            final(self).wf(),
    {
        match self.phase {
            LifecyclePhase::Connecting | LifecyclePhase::ClientPolling => {
                if promote {
                    self.phase = LifecyclePhase::PlayerPolling;
                    self.was_promoted = true;
                    self.registrations = self.registrations + 1;
                    LifecycleAction::RegisterParticipant
                } else if closed {
                    self.phase = LifecyclePhase::Closed;
                    LifecycleAction::Finished
                } else {
                    self.phase = LifecyclePhase::ClientPolling;
                    LifecycleAction::PollClient
                }
            },
            LifecyclePhase::PlayerPolling => {
                if closed {
                    self.phase = LifecyclePhase::Closed;
                    self.removals = self.removals + 1;
                    LifecycleAction::RemoveParticipant
                } else {
                    LifecycleAction::PollPlayer
                }
            },
            LifecyclePhase::Closed => LifecycleAction::Finished,
        }
    }
}

/// Every reachable lifecycle orders registration at most once and removal
/// at most once, never removal without registration; both counters follow
/// from the invariant that each step preserves.
pub proof fn lemma_registry_operations_bounded(lc: ConnectionLifecycle)
    requires
        lc.wf(),
    ensures
        lc.registrations <= 1,
        lc.removals <= 1,
        lc.removals <= lc.registrations,
        lc.phase is PlayerPolling ==> lc.registrations == 1 && lc.removals == 0,
{
}

/// The transition relation leaves the invariant intact and never undoes a
/// promotion: counters only grow, and a promoted connection stays promoted.
pub proof fn lemma_step_preserves_wf(lc: ConnectionLifecycle, closed: bool, promote: bool)
    requires
        lc.wf(),
    ensures
        lc.spec_step(closed, promote).0.wf(),
        lc.spec_step(closed, promote).0.registrations >= lc.registrations,
        lc.spec_step(closed, promote).0.removals >= lc.removals,
        lc.was_promoted ==> lc.spec_step(closed, promote).0.was_promoted,
{
}

/// The accept loop's identifier counter: wraps around at the top of the
/// range instead of overflowing.
pub fn next_client_id(id: u16) -> (r: u16)
    ensures
        r == if id == 65535 {
            0u16
        } else {
            (id + 1) as u16
        },
{
    if id == 65535 {
        0
    } else {
        id + 1
    }
}

} // verus!
