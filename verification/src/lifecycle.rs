//! The life of the serving process as a state machine: the caller reports
//! what happened, the machine says what to do next.

use vstd::prelude::*;

verus! {

/// Where the agent stands between start and exit.
#[derive(Debug, Clone, Copy, PartialEq, Eq, Structural)]
pub enum Phase {
    /// The guest's network is not known to be up, or no listener is bound.
    NetworkPending,
    /// A listener is bound; no connection has been asked for yet.
    ListenerBound,
    /// Connections are accepted and handled.
    Serving,
    /// No new connections; those in flight run to their end.
    Draining,
    /// Nothing is left to do.
    Stopped,
}

/// What the caller reports to the machine.
#[derive(Debug, Clone, Copy, PartialEq, Eq, Structural)]
pub enum Event {
    /// The network bootstrap has completed.
    NetworkReady,
    /// The network bootstrap has failed.
    NetworkFailed,
    /// The listener is bound.
    Bound,
    /// The listener could not be bound.
    BindFailed,
    /// The accept loop has been entered.
    AcceptLoopEntered,
    /// A peer has connected.
    Accepted,
    /// Accepting a connection has failed.
    AcceptFailed,
    /// The handling of one connection has come to its end.
    ConnectionClosed,
    /// An interrupt or terminate signal has arrived.
    Shutdown,
}

/// What the machine asks of the caller.
#[derive(Debug, Clone, Copy, PartialEq, Eq, Structural)]
pub enum Action {
    /// Nothing to do.
    Nothing,
    /// Bind the listener.
    Bind,
    /// Enter the accept loop.
    EnterAcceptLoop,
    /// Handle the connection that was accepted.
    Serve,
    /// Close the connection that was accepted without handling it.
    Refuse,
    /// Note the failure and go on accepting.
    Continue,
    /// Stop accepting; let the connections in flight finish.
    StopAccepting,
    /// Leave the process with this status.
    Exit(i32),
}

/// The state of the machine.
#[derive(Debug, Clone, Copy, PartialEq, Eq, Structural)]
pub struct Lifecycle {
    pub phase: Phase,
    /// The network is up and the listener may be bound.
    pub network_ready: bool,
    /// Connections being handled.
    pub in_flight: usize,
}

/// How far along a phase is.
pub open spec fn rank(phase: Phase) -> int {
    match phase {
        Phase::NetworkPending => 0,
        Phase::ListenerBound => 1,
        Phase::Serving => 2,
        Phase::Draining => 3,
        Phase::Stopped => 4,
    }
}

impl Lifecycle {
    /// True of every state that the machine reaches from its start: the
    /// network is up once a listener is bound, connections are in flight
    /// only while serving or draining, and draining lasts only while some
    /// are.
    pub open spec fn wf(self) -> bool {
        &&& self.phase == Phase::NetworkPending || self.network_ready
        &&& self.phase == Phase::Serving || self.phase == Phase::Draining || self.in_flight == 0
        &&& self.phase == Phase::Draining ==> self.in_flight > 0
    }

    /// The state after `event` and what the caller is to do.
    pub open spec fn next(self, event: Event) -> (Lifecycle, Action) {
        let stopped = Lifecycle { phase: Phase::Stopped, network_ready: true, in_flight: 0 };
        match self.phase {
            Phase::NetworkPending => match event {
                Event::NetworkReady => if self.network_ready {
                    (self, Action::Nothing)
                } else {
                    (Lifecycle { network_ready: true, ..self }, Action::Bind)
                },
                Event::Bound => if self.network_ready {
                    (Lifecycle { phase: Phase::ListenerBound, ..self }, Action::EnterAcceptLoop)
                } else {
                    (self, Action::Nothing)
                },
                Event::NetworkFailed | Event::BindFailed => (stopped, Action::Exit(1)),
                Event::Shutdown => (stopped, Action::Exit(0)),
                Event::Accepted => (self, Action::Refuse),
                _ => (self, Action::Nothing),
            },
            Phase::ListenerBound => match event {
                Event::AcceptLoopEntered => (
                    Lifecycle { phase: Phase::Serving, ..self },
                    Action::Nothing,
                ),
                Event::Shutdown => (stopped, Action::Exit(0)),
                Event::Accepted => (self, Action::Refuse),
                _ => (self, Action::Nothing),
            },
            Phase::Serving => match event {
                Event::Accepted => if self.in_flight < usize::MAX {
                    (Lifecycle { in_flight: (self.in_flight + 1) as usize, ..self }, Action::Serve)
                } else {
                    (self, Action::Refuse)
                },
                Event::AcceptFailed => (self, Action::Continue),
                Event::ConnectionClosed => if self.in_flight > 0 {
                    (
                        Lifecycle { in_flight: (self.in_flight - 1) as usize, ..self },
                        Action::Nothing,
                    )
                } else {
                    (self, Action::Nothing)
                },
                Event::Shutdown => if self.in_flight == 0 {
                    (stopped, Action::Exit(0))
                } else {
                    (Lifecycle { phase: Phase::Draining, ..self }, Action::StopAccepting)
                },
                _ => (self, Action::Nothing),
            },
            Phase::Draining => match event {
                Event::Accepted => (self, Action::Refuse),
                Event::ConnectionClosed => if self.in_flight <= 1 {
                    (stopped, Action::Exit(0))
                } else {
                    (
                        Lifecycle { in_flight: (self.in_flight - 1) as usize, ..self },
                        Action::Nothing,
                    )
                },
                _ => (self, Action::Nothing),
            },
            Phase::Stopped => match event {
                Event::Accepted => (self, Action::Refuse),
                _ => (self, Action::Nothing),
            },
        }
    }

    /// The machine at the start of the process.
    pub fn new() -> (state: Lifecycle)
        ensures
            state == (Lifecycle {
                phase: Phase::NetworkPending,
                network_ready: false,
                in_flight: 0,
            }),
            state.wf(),
    {
        Lifecycle { phase: Phase::NetworkPending, network_ready: false, in_flight: 0 }
    }

    /// Takes one event. The machine never goes back to an earlier phase,
    /// asks to serve a connection only while serving, and asks to exit only
    /// with no connection in flight.
    pub fn step(self, event: Event) -> (r: (Lifecycle, Action))
        ensures
            r == self.next(event),
            self.wf() ==> r.0.wf(),
            rank(r.0.phase) >= rank(self.phase),
            r.1 == Action::Serve ==> self.phase == Phase::Serving && r.0.in_flight
                == self.in_flight + 1,
            r.1 is Exit ==> r.0.phase == Phase::Stopped && r.0.in_flight == 0,
            self.wf() && r.1 is Exit ==> self.in_flight <= 1,
    {
        let stopped = Lifecycle { phase: Phase::Stopped, network_ready: true, in_flight: 0 };
        match self.phase {
            Phase::NetworkPending => match event {
                Event::NetworkReady => {
                    if self.network_ready {
                        (self, Action::Nothing)
                    } else {
                        (
                            Lifecycle {
                                phase: self.phase,
                                network_ready: true,
                                in_flight: self.in_flight,
                            },
                            Action::Bind,
                        )
                    }
                },
                Event::Bound => {
                    if self.network_ready {
                        (
                            Lifecycle {
                                phase: Phase::ListenerBound,
                                network_ready: self.network_ready,
                                in_flight: self.in_flight,
                            },
                            Action::EnterAcceptLoop,
                        )
                    } else {
                        (self, Action::Nothing)
                    }
                },
                Event::NetworkFailed => (stopped, Action::Exit(1)),
                Event::BindFailed => (stopped, Action::Exit(1)),
                Event::Shutdown => (stopped, Action::Exit(0)),
                Event::Accepted => (self, Action::Refuse),
                _ => (self, Action::Nothing),
            },
            Phase::ListenerBound => match event {
                Event::AcceptLoopEntered => (
                    Lifecycle {
                        phase: Phase::Serving,
                        network_ready: self.network_ready,
                        in_flight: self.in_flight,
                    },
                    Action::Nothing,
                ),
                Event::Shutdown => (stopped, Action::Exit(0)),
                Event::Accepted => (self, Action::Refuse),
                _ => (self, Action::Nothing),
            },
            Phase::Serving => match event {
                Event::Accepted => {
                    if self.in_flight < usize::MAX {
                        (
                            Lifecycle {
                                phase: self.phase,
                                network_ready: self.network_ready,
                                in_flight: self.in_flight + 1,
                            },
                            Action::Serve,
                        )
                    } else {
                        (self, Action::Refuse)
                    }
                },
                Event::AcceptFailed => (self, Action::Continue),
                Event::ConnectionClosed => {
                    if self.in_flight > 0 {
                        (
                            Lifecycle {
                                phase: self.phase,
                                network_ready: self.network_ready,
                                in_flight: self.in_flight - 1,
                            },
                            Action::Nothing,
                        )
                    } else {
                        (self, Action::Nothing)
                    }
                },
                Event::Shutdown => {
                    if self.in_flight == 0 {
                        (stopped, Action::Exit(0))
                    } else {
                        (
                            Lifecycle {
                                phase: Phase::Draining,
                                network_ready: self.network_ready,
                                in_flight: self.in_flight,
                            },
                            Action::StopAccepting,
                        )
                    }
                },
                _ => (self, Action::Nothing),
            },
            Phase::Draining => match event {
                Event::Accepted => (self, Action::Refuse),
                Event::ConnectionClosed => {
                    if self.in_flight <= 1 {
                        (stopped, Action::Exit(0))
                    } else {
                        (
                            Lifecycle {
                                phase: self.phase,
                                network_ready: self.network_ready,
                                in_flight: self.in_flight - 1,
                            },
                            Action::Nothing,
                        )
                    }
                },
                _ => (self, Action::Nothing),
            },
            Phase::Stopped => match event {
                Event::Accepted => (self, Action::Refuse),
                _ => (self, Action::Nothing),
            },
        }
    }
}

/// Asking twice for shutdown is asking once: the second request changes
/// nothing and asks nothing of the caller.
pub proof fn lemma_shutdown_idempotent(state: Lifecycle)
    ensures
        state.next(Event::Shutdown).0.next(Event::Shutdown) == (
            state.next(Event::Shutdown).0,
            Action::Nothing,
        ),
{
}

/// After a request for shutdown no connection is served any more, whatever
/// happens in between.
pub proof fn lemma_no_service_after_shutdown(state: Lifecycle, events: Seq<Event>)
    ensures
        run(state.next(Event::Shutdown).0, events).next(Event::Accepted).1 == Action::Refuse,
        rank(run(state.next(Event::Shutdown).0, events).phase) >= rank(Phase::Draining),
    decreases events.len(),
{
    if events.len() > 0 {
        lemma_no_service_after_shutdown(state, events.drop_last());
    }
}

/// The state after a run of events.
pub open spec fn run(state: Lifecycle, events: Seq<Event>) -> Lifecycle
    decreases events.len(),
{
    if events.len() == 0 {
        state
    } else {
        run(state, events.drop_last()).next(events.last()).0
    }
}

/// One event leads from a state that the machine can reach to another such
/// state, and never takes the phase back.
pub proof fn lemma_next_keeps_order(state: Lifecycle, event: Event)
    ensures
        state.wf() ==> state.next(event).0.wf(),
        rank(state.next(event).0.phase) >= rank(state.phase),
{
}

/// Along any run of events the machine stays in states it can reach, and
/// the phase never goes back.
pub proof fn lemma_run_keeps_order(state: Lifecycle, events: Seq<Event>)
    ensures
        state.wf() ==> run(state, events).wf(),
        rank(run(state, events).phase) >= rank(state.phase),
    decreases events.len(),
{
    if events.len() > 0 {
        lemma_run_keeps_order(state, events.drop_last());
        lemma_next_keeps_order(run(state, events.drop_last()), events.last());
    }
}

/// Draining ends: with `n` connections in flight, `n` of them coming to
/// their end stop the agent.
pub proof fn lemma_draining_ends(state: Lifecycle)
    requires
        state.wf(),
        state.phase == Phase::Draining,
    ensures
        run(state, Seq::new(state.in_flight as nat, |i: int| Event::ConnectionClosed)).phase
            == Phase::Stopped,
{
    lemma_closing_counts_down(state, state.in_flight as nat);
}

proof fn lemma_closing_counts_down(state: Lifecycle, k: nat)
    requires
        state.wf(),
        state.phase == Phase::Draining,
        k <= state.in_flight,
    ensures
        k < state.in_flight ==> run(
            state,
            Seq::new(k, |i: int| Event::ConnectionClosed),
        ) == (Lifecycle { in_flight: (state.in_flight - k) as usize, ..state }),
        k == state.in_flight ==> run(state, Seq::new(k, |i: int| Event::ConnectionClosed)).phase
            == Phase::Stopped,
    decreases k,
{
    let events = Seq::new(k, |i: int| Event::ConnectionClosed);
    if k > 0 {
        lemma_closing_counts_down(state, (k - 1) as nat);
        assert(events.drop_last() =~= Seq::new((k - 1) as nat, |i: int| Event::ConnectionClosed));
        assert(events.last() == Event::ConnectionClosed);
    }
}

} // verus!
