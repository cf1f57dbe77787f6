//! Lifecycle supervision of the sidecar helper process.
//!
//! The supervisor is a state machine over plain values: the surrounding
//! process performs each requested action (resolve the executable path,
//! probe the liveness port, spawn, sleep) and feeds the observed result back
//! in as an event. Every transition is a total function, so a fault event at
//! any point drives the attempt to a terminal outcome, and the start guard
//! is released by an unconditional `finish_start` whatever happened before.

use vstd::prelude::*;

verus! {

/// How one start attempt ended.
#[derive(Clone, Copy, PartialEq, Eq, Structural, Debug)]
pub enum StartOutcome {
    /// The liveness port already answered: an earlier instance is alive.
    AlreadyRunning,
    /// The helper was spawned and answered on the liveness port in time.
    Started,
    /// The helper executable could not be located.
    PathNotFound,
    /// The operating system refused to create the process.
    SpawnFailed,
    /// The process exited before it became live.
    CrashedImmediately,
    /// The process was spawned but never answered within the retry budget.
    LivenessTimeout,
    /// The attempt was cut short by an internal fault (panic-equivalent)
    /// or by an event that its phase does not expect.
    InternalFault,
}

/// Where one start attempt currently stands.
#[derive(Clone, Copy, PartialEq, Eq, Structural, Debug)]
pub enum StartPhase {
    /// Waiting for the executable path to be resolved.
    ResolvingPath,
    /// Waiting for the pre-spawn liveness probe.
    ProbingPort,
    /// Waiting for the spawn result.
    Spawning,
    /// Waiting for the immediate post-spawn exit check of the direct child.
    CheckingEarlyExit { handle: u64 },
    /// Waiting for liveness probes, with this many probes left in the budget.
    PollingLiveness { attempts_left: u8 },
    /// The attempt is over.
    Finished { outcome: StartOutcome },
}

/// What the surrounding process observed while carrying out the last action.
#[derive(Clone, Copy, PartialEq, Eq, Structural, Debug)]
pub enum StartEvent {
    /// Path resolution found the helper executable.
    PathResolved,
    /// Path resolution failed.
    PathMissing,
    /// The liveness port answered.
    PortOpen,
    /// The liveness port did not answer in time.
    PortClosed,
    /// The helper was spawned directly; the token identifies the held child.
    SpawnedDirect { handle: u64 },
    /// The helper was spawned through the privilege-elevation launcher,
    /// so no child handle can be retained.
    SpawnedElevated,
    /// The spawn call failed.
    SpawnError,
    /// The immediate post-spawn check found the child already exited.
    ExitedEarly,
    /// The immediate post-spawn check found the child alive.
    StillRunning,
    /// An internal fault (panic-equivalent) interrupted the attempt.
    Fault,
}

/// What the surrounding process must do next.
#[derive(Clone, Copy, PartialEq, Eq, Structural, Debug)]
pub enum StartAction {
    /// Resolve the helper executable's path.
    ResolvePath,
    /// Probe the liveness port with a short timeout.
    ProbePort,
    /// Spawn the helper process from the resolved path.
    Spawn,
    /// Check whether the just-spawned child already exited.
    CheckEarlyExit,
    /// Wait one retry interval, then probe the liveness port again.
    WaitThenProbe,
    /// The attempt is over with this outcome; release the guard.
    Finish { outcome: StartOutcome },
}

/// What a stop request must still do after the graceful shutdown attempt.
#[derive(Clone, Copy, PartialEq, Eq, Structural, Debug)]
pub enum StopAction {
    /// A direct child handle is held: terminate it; this is authoritative.
    KillChild { handle: u64 },
    /// No handle is held and the graceful request did not appear to succeed:
    /// fall back to a name-based forced termination.
    ForceKillByName,
    /// The graceful request sufficed; nothing further to do.
    NoFurtherAction,
}

/// How many liveness probes one start attempt may spend.
pub const LIVENESS_RETRY_BUDGET: u8 = 10;

/// The supervisor's shared state: the start guard and the held child handle.
/// The surrounding process must protect a shared supervisor with a lock; the
/// contracts here speak about each call in isolation.
pub struct SidecarSupervisor {
    /// True while a start attempt is in flight.
    pub starting: bool,
    /// Token of the directly spawned child, when one is held.
    pub handle: Option<u64>,
}

/// What `begin_start` does: acquire the guard when it is free.
pub open spec fn spec_begin_start(s: SidecarSupervisor) -> (SidecarSupervisor, bool) {
    if s.starting {
        (s, false)
    } else {
        (SidecarSupervisor { starting: true, ..s }, true)
    }
}

/// What `finish_start` does: release the guard, touching nothing else.
pub open spec fn spec_finish_start(s: SidecarSupervisor) -> SidecarSupervisor {
    SidecarSupervisor { starting: false, ..s }
}

/// One transition of a start attempt: from the attempt's phase and the
/// observed event to the supervisor state, the next phase and the next action.
pub open spec fn spec_start_step(
    s: SidecarSupervisor,
    phase: StartPhase,
    event: StartEvent,
) -> (SidecarSupervisor, StartPhase, StartAction) {
    match phase {
        StartPhase::Finished { outcome } => {
            (s, phase, StartAction::Finish { outcome })
        },
        _ => {
            if event is Fault {
                let o = StartOutcome::InternalFault;
                (s, StartPhase::Finished { outcome: o }, StartAction::Finish { outcome: o })
            } else {
                match phase {
                    StartPhase::ResolvingPath => match event {
                        StartEvent::PathResolved => (s, StartPhase::ProbingPort, StartAction::ProbePort),
                        StartEvent::PathMissing => {
                            let o = StartOutcome::PathNotFound;
                            (s, StartPhase::Finished { outcome: o }, StartAction::Finish { outcome: o })
                        },
                        _ => spec_protocol_fault(s),
                    },
                    StartPhase::ProbingPort => match event {
                        StartEvent::PortOpen => {
                            let o = StartOutcome::AlreadyRunning;
                            (s, StartPhase::Finished { outcome: o }, StartAction::Finish { outcome: o })
                        },
                        StartEvent::PortClosed => (s, StartPhase::Spawning, StartAction::Spawn),
                        _ => spec_protocol_fault(s),
                    },
                    StartPhase::Spawning => match event {
                        StartEvent::SpawnedDirect { handle } => (
                            s,
                            StartPhase::CheckingEarlyExit { handle },
                            StartAction::CheckEarlyExit,
                        ),
                        StartEvent::SpawnedElevated => (
                            s,
                            StartPhase::PollingLiveness { attempts_left: LIVENESS_RETRY_BUDGET },
                            StartAction::WaitThenProbe,
                        ),
                        StartEvent::SpawnError => {
                            let o = StartOutcome::SpawnFailed;
                            (s, StartPhase::Finished { outcome: o }, StartAction::Finish { outcome: o })
                        },
                        _ => spec_protocol_fault(s),
                    },
                    StartPhase::CheckingEarlyExit { handle } => match event {
                        StartEvent::ExitedEarly => {
                            let o = StartOutcome::CrashedImmediately;
                            (s, StartPhase::Finished { outcome: o }, StartAction::Finish { outcome: o })
                        },
                        StartEvent::StillRunning => (
                            SidecarSupervisor { handle: Some(handle), ..s },
                            StartPhase::PollingLiveness { attempts_left: LIVENESS_RETRY_BUDGET },
                            StartAction::WaitThenProbe,
                        ),
                        _ => spec_protocol_fault(s),
                    },
                    StartPhase::PollingLiveness { attempts_left } => match event {
                        StartEvent::PortOpen => {
                            let o = StartOutcome::Started;
                            (s, StartPhase::Finished { outcome: o }, StartAction::Finish { outcome: o })
                        },
                        StartEvent::PortClosed => {
                            if attempts_left > 1 {
                                (
                                    s,
                                    StartPhase::PollingLiveness {
                                        attempts_left: (attempts_left - 1) as u8,
                                    },
                                    StartAction::WaitThenProbe,
                                )
                            } else {
                                let o = StartOutcome::LivenessTimeout;
                                (
                                    s,
                                    StartPhase::Finished { outcome: o },
                                    StartAction::Finish { outcome: o },
                                )
                            }
                        },
                        _ => spec_protocol_fault(s),
                    },
                    StartPhase::Finished { .. } => (s, phase, StartAction::Finish {
                        outcome: StartOutcome::InternalFault,
                    }),  // unreachable: handled above
                }
            }
        },
    }
}

/// The terminal transition taken on a fault or an out-of-protocol event.
pub open spec fn spec_protocol_fault(s: SidecarSupervisor) -> (
    SidecarSupervisor,
    StartPhase,
    StartAction,
) {
    let o = StartOutcome::InternalFault;
    (s, StartPhase::Finished { outcome: o }, StartAction::Finish { outcome: o })
}

/// What `stop_plan` does: take and kill a held handle; otherwise fall back to
/// a name-based kill exactly when the graceful request did not succeed.
pub open spec fn spec_stop_plan(s: SidecarSupervisor, graceful_ok: bool) -> (
    SidecarSupervisor,
    StopAction,
) {
    match s.handle {
        Some(h) => (SidecarSupervisor { handle: None, ..s }, StopAction::KillChild { handle: h }),
        None => if !graceful_ok {
            (s, StopAction::ForceKillByName)
        } else {
            (s, StopAction::NoFurtherAction)
        },
    }
}

/// Runs a start attempt from a phase through a whole sequence of events,
/// collecting the supervisor state, the final phase and every issued action.
pub open spec fn spec_run_attempt(
    s: SidecarSupervisor,
    phase: StartPhase,
    events: Seq<StartEvent>,
) -> (SidecarSupervisor, StartPhase, Seq<StartAction>)
    decreases events.len(),
{
    if events.len() == 0 {
        (s, phase, seq![])
    } else {
        let (s1, p1, a1) = spec_start_step(s, phase, events[0]);
        let (s2, p2, rest) = spec_run_attempt(s1, p1, events.drop_first());
        (s2, p2, seq![a1] + rest)
    }
}

/// No action in the sequence asks for a process to be spawned.
pub open spec fn no_spawn(actions: Seq<StartAction>) -> bool {
    forall|i: int| 0 <= i < actions.len() ==> actions[i] != StartAction::Spawn
}

/// Acquiring the guard twice lets only the first caller proceed: however
/// quickly two start requests follow each other, at most one attempt — and
/// so at most one spawn — is in flight.
pub proof fn lemma_start_guard_excludes_second(s: SidecarSupervisor)
    ensures
        ({
            let (s1, p1) = spec_begin_start(s);
            let (s2, p2) = spec_begin_start(s1);
            &&& p1 == !s.starting
            &&& p2 == false
            &&& s2 == s1
        }),
{
}

/// A finished attempt absorbs every further event: the supervisor state is
/// untouched, the phase stays terminal, and every issued action merely
/// repeats the outcome.
pub proof fn lemma_finished_absorbs(
    s: SidecarSupervisor,
    outcome: StartOutcome,
    events: Seq<StartEvent>,
)
    ensures
        ({
            let (s2, p2, acts) = spec_run_attempt(
                s,
                StartPhase::Finished { outcome },
                events,
            );
            &&& s2 == s
            &&& p2 == StartPhase::Finished { outcome }
            &&& forall|i: int|
                0 <= i < acts.len() ==> acts[i] == StartAction::Finish { outcome }
        }),
    decreases events.len(),
{
    if events.len() > 0 {
        lemma_finished_absorbs(s, outcome, events.drop_first());
    }
}

/// When a listener is already bound on the liveness port before a start
/// attempt begins — the path resolves and the pre-spawn probe answers — the
/// attempt never asks for a spawn, whatever happens afterwards.
pub proof fn lemma_no_spawn_when_port_open(s: SidecarSupervisor, events: Seq<StartEvent>)
    requires
        events.len() >= 2,
        events[0] == StartEvent::PathResolved,
        events[1] == StartEvent::PortOpen,
    ensures
        no_spawn(spec_run_attempt(s, StartPhase::ResolvingPath, events).2),
{
    let o = StartOutcome::AlreadyRunning;
    let fin = StartPhase::Finished { outcome: o };
    let tail = events.drop_first();
    let tail2 = tail.drop_first();
    assert(tail[0] == StartEvent::PortOpen);
    lemma_finished_absorbs(s, o, tail2);
    let acts2 = spec_run_attempt(s, fin, tail2).2;
    let acts1 = spec_run_attempt(s, StartPhase::ProbingPort, tail).2;
    let acts = spec_run_attempt(s, StartPhase::ResolvingPath, events).2;
    assert(spec_start_step(s, StartPhase::ResolvingPath, events[0]) == (
        s,
        StartPhase::ProbingPort,
        StartAction::ProbePort,
    ));
    assert(spec_start_step(s, StartPhase::ProbingPort, tail[0]) == (
        s,
        fin,
        StartAction::Finish { outcome: o },
    ));
    assert(acts =~= seq![StartAction::ProbePort] + acts1);
    assert(acts1 =~= seq![StartAction::Finish { outcome: o }] + acts2);
    assert forall|i: int| 0 <= i < acts.len() implies acts[i] != StartAction::Spawn by {
        if i >= 2 {
            assert(acts[i] == acts1[i - 1]);
            assert(acts1[i - 1] == acts2[i - 2]);
        } else if i == 1 {
            assert(acts[i] == acts1[0]);
        }
    };
}

/// The forward order of an attempt's phases: steps never move back.
pub open spec fn phase_rank(p: StartPhase) -> int {
    match p {
        StartPhase::ResolvingPath => 0,
        StartPhase::ProbingPort => 1,
        StartPhase::Spawning => 2,
        StartPhase::CheckingEarlyExit { .. } => 3,
        StartPhase::PollingLiveness { .. } => 4,
        StartPhase::Finished { .. } => 5,
    }
}

/// One step never moves an attempt backward, and a spawn is requested only
/// on the single forward step out of the pre-spawn probe.
pub proof fn lemma_step_moves_forward(s: SidecarSupervisor, phase: StartPhase, event: StartEvent)
    ensures
        phase_rank(spec_start_step(s, phase, event).1) >= phase_rank(phase),
        spec_start_step(s, phase, event).2 == StartAction::Spawn ==> phase
            == StartPhase::ProbingPort && phase_rank(spec_start_step(s, phase, event).1) == 2,
{
}

/// From the spawn phase on, no further spawn is ever requested.
pub proof fn lemma_no_spawn_past_probe(
    s: SidecarSupervisor,
    phase: StartPhase,
    events: Seq<StartEvent>,
)
    requires
        phase_rank(phase) >= 2,
    ensures
        no_spawn(spec_run_attempt(s, phase, events).2),
    decreases events.len(),
{
    if events.len() > 0 {
        let (s1, p1, a1) = spec_start_step(s, phase, events[0]);
        lemma_step_moves_forward(s, phase, events[0]);
        lemma_no_spawn_past_probe(s1, p1, events.drop_first());
        let rest = spec_run_attempt(s1, p1, events.drop_first()).2;
        let acts = spec_run_attempt(s, phase, events).2;
        assert(acts =~= seq![a1] + rest);
        assert forall|i: int| 0 <= i < acts.len() implies acts[i] != StartAction::Spawn by {
            if i >= 1 {
                assert(acts[i] == rest[i - 1]);
            }
        };
    }
}

/// However an attempt runs, it asks for at most one spawn: together with the
/// start guard this is the no-double-launch guarantee.
pub proof fn lemma_at_most_one_spawn(
    s: SidecarSupervisor,
    phase: StartPhase,
    events: Seq<StartEvent>,
)
    ensures
        ({
            let acts = spec_run_attempt(s, phase, events).2;
            forall|i: int, j: int|
                0 <= i < j < acts.len() ==> !(acts[i] == StartAction::Spawn && acts[j]
                    == StartAction::Spawn)
        }),
    decreases events.len(),
{
    if events.len() > 0 {
        let (s1, p1, a1) = spec_start_step(s, phase, events[0]);
        lemma_step_moves_forward(s, phase, events[0]);
        let rest = spec_run_attempt(s1, p1, events.drop_first()).2;
        let acts = spec_run_attempt(s, phase, events).2;
        assert(acts =~= seq![a1] + rest);
        if a1 == StartAction::Spawn {
            lemma_no_spawn_past_probe(s1, p1, events.drop_first());
            assert forall|i: int, j: int| 0 <= i < j < acts.len() implies !(acts[i]
                == StartAction::Spawn && acts[j] == StartAction::Spawn) by {
                assert(acts[j] == rest[j - 1]);
            };
        } else {
            lemma_at_most_one_spawn(s1, p1, events.drop_first());
            assert forall|i: int, j: int| 0 <= i < j < acts.len() implies !(acts[i]
                == StartAction::Spawn && acts[j] == StartAction::Spawn) by {
                if i >= 1 {
                    assert(acts[i] == rest[i - 1]);
                    assert(acts[j] == rest[j - 1]);
                }
            };
        }
    }
}

/// No step of a start attempt touches the start guard: only `begin_start`
/// takes it and only `finish_start` releases it.
pub proof fn lemma_steps_preserve_guard(
    s: SidecarSupervisor,
    phase: StartPhase,
    events: Seq<StartEvent>,
)
    ensures
        spec_run_attempt(s, phase, events).0.starting == s.starting,
    decreases events.len(),
{
    if events.len() > 0 {
        let (s1, p1, a1) = spec_start_step(s, phase, events[0]);
        assert(s1.starting == s.starting);
        lemma_steps_preserve_guard(s1, p1, events.drop_first());
    }
}

/// The guard is always released when an attempt ends — however the attempt
/// ran, fault included — so a later start request proceeds normally.
pub proof fn lemma_guard_released_after_any_attempt(
    s: SidecarSupervisor,
    events: Seq<StartEvent>,
)
    requires
        !s.starting,
    ensures
        ({
            let (s1, p1) = spec_begin_start(s);
            let (s2, p2, acts) = spec_run_attempt(s1, StartPhase::ResolvingPath, events);
            let s3 = spec_finish_start(s2);
            let (s4, p4) = spec_begin_start(s3);
            &&& p1 == true
            &&& !s3.starting
            &&& p4 == true
        }),
{
    let (s1, p1) = spec_begin_start(s);
    lemma_steps_preserve_guard(s1, StartPhase::ResolvingPath, events);
}

/// Stopping a supervisor that never started anything changes nothing and
/// kills no child; the call returns without error.
pub proof fn lemma_stop_never_started(s: SidecarSupervisor, graceful_ok: bool)
    requires
        s.handle is None,
    ensures
        ({
            let (s2, a) = spec_stop_plan(s, graceful_ok);
            &&& s2 == s
            &&& a !is KillChild
        }),
{
}

/// One start attempt in flight.
pub struct StartAttempt {
    /// Where the attempt stands.
    pub phase: StartPhase,
}

impl SidecarSupervisor {
    /// A supervisor that has never started anything.
    pub fn new() -> (s: SidecarSupervisor)
        ensures
            !s.starting,
            s.handle is None,
    {
        SidecarSupervisor { starting: false, handle: None }
    }

    /// Tries to acquire the start guard. When it is already held the call
    /// changes nothing and the caller must not proceed: this is the
    /// no-double-launch guarantee. Otherwise the guard is taken and a fresh
    /// attempt begins with path resolution.
    pub fn begin_start(&mut self) -> (r: Option<StartAttempt>)
        ensures
            (*final(self), r is Some) == spec_begin_start(*old(self)),
            r matches Some(a) ==> a.phase == StartPhase::ResolvingPath,
    {
        if self.starting {
            None
        } else {
            self.starting = true;
            Some(StartAttempt { phase: StartPhase::ResolvingPath })
        }
    }

    /// Releases the start guard. Called on every exit path of a start
    /// attempt, including internal faults; it never touches the held handle.
    pub fn finish_start(&mut self)
        ensures
            *final(self) == spec_finish_start(*old(self)),
            !final(self).starting,
    {
        self.starting = false;
    }

    /// Advances one start attempt by the observed event and says what to do
    /// next. A held child handle is recorded exactly when the direct child
    /// passes its immediate post-spawn exit check.
    pub fn start_step(&mut self, attempt: &mut StartAttempt, event: StartEvent) -> (a: StartAction)
        ensures
            (*final(self), final(attempt).phase, a) == spec_start_step(
                *old(self),
                old(attempt).phase,
                event,
            ),
    {
        if let StartPhase::Finished { outcome } = attempt.phase {
            return StartAction::Finish { outcome };
        }
        if let StartEvent::Fault = event {
            let o = StartOutcome::InternalFault;
            attempt.phase = StartPhase::Finished { outcome: o };
            return StartAction::Finish { outcome: o };
        }
        match attempt.phase {
            StartPhase::ResolvingPath => match event {
                StartEvent::PathResolved => {
                    attempt.phase = StartPhase::ProbingPort;
                    StartAction::ProbePort
                },
                StartEvent::PathMissing => {
                    let o = StartOutcome::PathNotFound;
                    attempt.phase = StartPhase::Finished { outcome: o };
                    StartAction::Finish { outcome: o }
                },
                _ => self.protocol_fault(attempt),
            },
            StartPhase::ProbingPort => match event {
                StartEvent::PortOpen => {
                    let o = StartOutcome::AlreadyRunning;
                    attempt.phase = StartPhase::Finished { outcome: o };
                    StartAction::Finish { outcome: o }
                },
                StartEvent::PortClosed => {
                    attempt.phase = StartPhase::Spawning;
                    StartAction::Spawn
                },
                _ => self.protocol_fault(attempt),
            },
            StartPhase::Spawning => match event {
                StartEvent::SpawnedDirect { handle } => {
                    attempt.phase = StartPhase::CheckingEarlyExit { handle };
                    StartAction::CheckEarlyExit
                },
                StartEvent::SpawnedElevated => {
                    attempt.phase = StartPhase::PollingLiveness {
                        attempts_left: LIVENESS_RETRY_BUDGET,
                    };
                    StartAction::WaitThenProbe
                },
                StartEvent::SpawnError => {
                    let o = StartOutcome::SpawnFailed;
                    attempt.phase = StartPhase::Finished { outcome: o };
                    StartAction::Finish { outcome: o }
                },
                _ => self.protocol_fault(attempt),
            },
            StartPhase::CheckingEarlyExit { handle } => match event {
                StartEvent::ExitedEarly => {
                    let o = StartOutcome::CrashedImmediately;
                    attempt.phase = StartPhase::Finished { outcome: o };
                    StartAction::Finish { outcome: o }
                },
                StartEvent::StillRunning => {
                    self.handle = Some(handle);
                    attempt.phase = StartPhase::PollingLiveness {
                        attempts_left: LIVENESS_RETRY_BUDGET,
                    };
                    StartAction::WaitThenProbe
                },
                _ => self.protocol_fault(attempt),
            },
            StartPhase::PollingLiveness { attempts_left } => match event {
                StartEvent::PortOpen => {
                    let o = StartOutcome::Started;
                    attempt.phase = StartPhase::Finished { outcome: o };
                    StartAction::Finish { outcome: o }
                },
                StartEvent::PortClosed => {
                    if attempts_left > 1 {
                        attempt.phase = StartPhase::PollingLiveness {
                            attempts_left: attempts_left - 1,
                        };
                        StartAction::WaitThenProbe
                    } else {
                        let o = StartOutcome::LivenessTimeout;
                        attempt.phase = StartPhase::Finished { outcome: o };
                        StartAction::Finish { outcome: o }
                    }
                },
                _ => self.protocol_fault(attempt),
            },
            StartPhase::Finished { outcome } => StartAction::Finish { outcome },
        }
    }

    /// Drives the attempt to the terminal fault outcome.
    fn protocol_fault(&mut self, attempt: &mut StartAttempt) -> (a: StartAction)
        ensures
            *final(self) == *old(self),
            (*final(self), final(attempt).phase, a) == spec_protocol_fault(*old(self)),
    {
        let o = StartOutcome::InternalFault;
        attempt.phase = StartPhase::Finished { outcome: o };
        StartAction::Finish { outcome: o }
    }

    /// Decides how to stop. The graceful shutdown request over the liveness
    /// port has already been attempted by the caller; `graceful_ok` says
    /// whether it appeared to succeed (a connection failure means "already
    /// stopped", not an error). A held handle is always taken and killed,
    /// which is authoritative; without one, a name-based forced termination
    /// is requested exactly when the graceful request did not succeed.
    /// Stopping never blocks and never reports an error.
    pub fn stop_plan(&mut self, graceful_ok: bool) -> (a: StopAction)
        ensures
            (*final(self), a) == spec_stop_plan(*old(self), graceful_ok),
    {
        match self.handle {
            Some(h) => {
                self.handle = None;
                StopAction::KillChild { handle: h }
            },
            None => if !graceful_ok {
                StopAction::ForceKillByName
            } else {
                StopAction::NoFurtherAction
            },
        }
    }
}

} // verus!
