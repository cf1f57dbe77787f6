use divoom_monitor::supervisor::{
    SidecarSupervisor, StartAction, StartEvent, StartOutcome, StopAction,
};

#[test]
fn second_start_in_flight_is_refused() {
    // Two start requests in rapid succession: only the first proceeds, so
    // only one attempt — and so at most one spawn — can be in flight.
    let mut sup = SidecarSupervisor::new();
    let first = sup.begin_start();
    assert!(first.is_some());
    let second = sup.begin_start();
    assert!(second.is_none());
}

#[test]
fn port_already_bound_never_spawns() {
    // A listener already answers on the liveness port: the attempt ends as
    // AlreadyRunning, and no action ever asks for a spawn.
    let mut sup = SidecarSupervisor::new();
    let mut attempt = sup.begin_start().expect("guard free");
    let mut actions = Vec::new();
    actions.push(sup.start_step(&mut attempt, StartEvent::PathResolved));
    actions.push(sup.start_step(&mut attempt, StartEvent::PortOpen));
    // Whatever is fed afterwards, the attempt stays finished.
    actions.push(sup.start_step(&mut attempt, StartEvent::SpawnedDirect { handle: 7 }));
    actions.push(sup.start_step(&mut attempt, StartEvent::PortClosed));
    assert_eq!(
        actions[1],
        StartAction::Finish { outcome: StartOutcome::AlreadyRunning }
    );
    for a in &actions {
        assert!(!matches!(a, StartAction::Spawn));
    }
    assert!(sup.handle.is_none());
}

#[test]
fn stop_when_nothing_started_is_a_no_op() {
    let mut sup = SidecarSupervisor::new();
    // Nothing listens, so the graceful request cannot have succeeded.
    let action = sup.stop_plan(false);
    assert!(!matches!(action, StopAction::KillChild { .. }));
    assert!(sup.handle.is_none());
    assert!(!sup.starting);
}

#[test]
fn fault_still_releases_the_guard() {
    // A panic-equivalent inside the attempt: the fault barrier finishes the
    // attempt and releases the guard, and the next start proceeds normally.
    let mut sup = SidecarSupervisor::new();
    let mut attempt = sup.begin_start().expect("guard free");
    let a1 = sup.start_step(&mut attempt, StartEvent::PathResolved);
    assert_eq!(a1, StartAction::ProbePort);
    let a2 = sup.start_step(&mut attempt, StartEvent::Fault);
    assert_eq!(a2, StartAction::Finish { outcome: StartOutcome::InternalFault });
    sup.finish_start();
    assert!(!sup.starting);
    let retry = sup.begin_start();
    assert!(retry.is_some());
}

#[test]
fn direct_spawn_flow_stores_the_handle() {
    let mut sup = SidecarSupervisor::new();
    let mut attempt = sup.begin_start().expect("guard free");
    assert_eq!(sup.start_step(&mut attempt, StartEvent::PathResolved), StartAction::ProbePort);
    assert_eq!(sup.start_step(&mut attempt, StartEvent::PortClosed), StartAction::Spawn);
    assert_eq!(
        sup.start_step(&mut attempt, StartEvent::SpawnedDirect { handle: 42 }),
        StartAction::CheckEarlyExit
    );
    assert!(sup.handle.is_none());
    assert_eq!(
        sup.start_step(&mut attempt, StartEvent::StillRunning),
        StartAction::WaitThenProbe
    );
    assert_eq!(sup.handle, Some(42));
    assert_eq!(
        sup.start_step(&mut attempt, StartEvent::PortOpen),
        StartAction::Finish { outcome: StartOutcome::Started }
    );
    sup.finish_start();

    // Stop kills the held child directly, which is authoritative.
    let action = sup.stop_plan(false);
    assert_eq!(action, StopAction::KillChild { handle: 42 });
    assert!(sup.handle.is_none());
    // A second stop is a no-op apart from the name-based fallback.
    let again = sup.stop_plan(true);
    assert_eq!(again, StopAction::NoFurtherAction);
}

#[test]
fn early_crash_fails_the_attempt_without_a_handle() {
    let mut sup = SidecarSupervisor::new();
    let mut attempt = sup.begin_start().expect("guard free");
    sup.start_step(&mut attempt, StartEvent::PathResolved);
    sup.start_step(&mut attempt, StartEvent::PortClosed);
    sup.start_step(&mut attempt, StartEvent::SpawnedDirect { handle: 9 });
    let a = sup.start_step(&mut attempt, StartEvent::ExitedEarly);
    assert_eq!(a, StartAction::Finish { outcome: StartOutcome::CrashedImmediately });
    assert!(sup.handle.is_none());
}

#[test]
fn elevated_spawn_retains_no_handle_and_stop_falls_back_to_name() {
    let mut sup = SidecarSupervisor::new();
    let mut attempt = sup.begin_start().expect("guard free");
    sup.start_step(&mut attempt, StartEvent::PathResolved);
    sup.start_step(&mut attempt, StartEvent::PortClosed);
    let a = sup.start_step(&mut attempt, StartEvent::SpawnedElevated);
    assert_eq!(a, StartAction::WaitThenProbe);
    sup.start_step(&mut attempt, StartEvent::PortOpen);
    sup.finish_start();
    assert!(sup.handle.is_none());

    // Graceful shutdown did not appear to succeed: kill by process name.
    assert_eq!(sup.stop_plan(false), StopAction::ForceKillByName);
    // Graceful shutdown sufficed: nothing further.
    assert_eq!(sup.stop_plan(true), StopAction::NoFurtherAction);
}

#[test]
fn liveness_budget_exhaustion_times_out() {
    let mut sup = SidecarSupervisor::new();
    let mut attempt = sup.begin_start().expect("guard free");
    sup.start_step(&mut attempt, StartEvent::PathResolved);
    sup.start_step(&mut attempt, StartEvent::PortClosed);
    sup.start_step(&mut attempt, StartEvent::SpawnedElevated);
    let mut last = StartAction::WaitThenProbe;
    for _ in 0..10 {
        last = sup.start_step(&mut attempt, StartEvent::PortClosed);
    }
    assert_eq!(last, StartAction::Finish { outcome: StartOutcome::LivenessTimeout });
}

#[test]
fn missing_path_fails_the_attempt() {
    let mut sup = SidecarSupervisor::new();
    let mut attempt = sup.begin_start().expect("guard free");
    let a = sup.start_step(&mut attempt, StartEvent::PathMissing);
    assert_eq!(a, StartAction::Finish { outcome: StartOutcome::PathNotFound });
}

#[test]
fn spawn_error_fails_the_attempt() {
    let mut sup = SidecarSupervisor::new();
    let mut attempt = sup.begin_start().expect("guard free");
    sup.start_step(&mut attempt, StartEvent::PathResolved);
    sup.start_step(&mut attempt, StartEvent::PortClosed);
    let a = sup.start_step(&mut attempt, StartEvent::SpawnError);
    assert_eq!(a, StartAction::Finish { outcome: StartOutcome::SpawnFailed });
}
