use nvoc::srv::Probe;
use nvoc::thermal::{TeardownPlan, ThermalAction, ThermalEvent, ThermalState, teardown, thermal_step};

fn start(has_target: bool, worker_mode: bool) -> (ThermalState, ThermalAction) {
    thermal_step(ThermalState::Idle, ThermalEvent::Start { has_target, worker_mode })
}

#[test]
fn no_target_temp_is_a_noop() {
    let (state, action) = start(false, false);
    assert_eq!(state, ThermalState::Off);
    assert!(matches!(action, ThermalAction::Nothing));
    let (state, action) = start(false, true);
    assert_eq!(state, ThermalState::Off);
    assert!(matches!(action, ThermalAction::Nothing));
    assert_eq!(teardown(state), TeardownPlan::Nothing);
}

#[test]
fn worker_mode_ignores_target_temp() {
    let (state, action) = start(true, true);
    assert_eq!(state, ThermalState::Off);
    assert!(matches!(action, ThermalAction::WarnWorkerMode));
}

#[test]
fn exit_without_session_is_safe() {
    assert_eq!(teardown(ThermalState::Idle), TeardownPlan::Nothing);
}

#[test]
fn absent_service_is_spawned_then_engaged() {
    let (s, a) = start(true, false);
    assert_eq!(s, ThermalState::Probing);
    assert!(matches!(a, ThermalAction::Probe));
    let (s, a) = thermal_step(s, ThermalEvent::Probed(Ok(Probe::Absent)));
    assert_eq!(s, ThermalState::Spawning);
    assert!(matches!(a, ThermalAction::Spawn));
    let (s, a) = thermal_step(s, ThermalEvent::Spawned { ok: true });
    assert_eq!(s, ThermalState::WaitingReady { spawned: true });
    assert!(matches!(a, ThermalAction::Poll));
    let (s, a) = thermal_step(s, ThermalEvent::Polled { ready: false, past_deadline: false });
    assert!(matches!(a, ThermalAction::PollAgain));
    let (s, a) = thermal_step(s, ThermalEvent::Polled { ready: true, past_deadline: false });
    assert_eq!(s, ThermalState::SettingTarget { spawned: true });
    assert!(matches!(a, ThermalAction::PostTarget));
    let (s, a) = thermal_step(s, ThermalEvent::Posted { ok: true });
    assert!(matches!(a, ThermalAction::PostPidMode));
    let (s, a) = thermal_step(s, ThermalEvent::Posted { ok: true });
    assert_eq!(s, ThermalState::Active { spawned: true });
    assert!(matches!(a, ThermalAction::Activate));
    assert_eq!(teardown(s), TeardownPlan::RestoreAndStop);
}

#[test]
fn adopted_service_is_only_restored() {
    let (s, _) = start(true, false);
    let (s, a) = thermal_step(s, ThermalEvent::Probed(Ok(Probe::Ready)));
    assert!(matches!(a, ThermalAction::Adopt));
    let (s, _) = thermal_step(s, ThermalEvent::Polled { ready: true, past_deadline: false });
    let (s, _) = thermal_step(s, ThermalEvent::Posted { ok: true });
    let (s, _) = thermal_step(s, ThermalEvent::Posted { ok: true });
    assert_eq!(teardown(s), TeardownPlan::Restore);
}

#[test]
fn occupied_port_and_timeouts_leave_thermal_control_off() {
    let (s, _) = start(true, false);
    let (s, a) = thermal_step(s, ThermalEvent::Probed(Err("srv returned 404: nope".to_string())));
    assert_eq!(s, ThermalState::Off);
    match a {
        ThermalAction::WarnPortOccupied(m) => assert_eq!(m, "srv returned 404: nope"),
        other => panic!("unexpected action {other:?}"),
    }
    let (s, a) = thermal_step(
        ThermalState::WaitingReady { spawned: true },
        ThermalEvent::Polled { ready: false, past_deadline: true },
    );
    assert_eq!(s, ThermalState::Off);
    assert!(matches!(a, ThermalAction::WarnNeverReady { shutdown: true }));
    let (s, a) = thermal_step(ThermalState::SettingTarget { spawned: false }, ThermalEvent::Posted { ok: false });
    assert_eq!(s, ThermalState::Off);
    assert!(matches!(a, ThermalAction::WarnEngageFailed));
}
