//! The decisions of the opt-in thermal session (`--target-temp`): whether
//! to take part at all, whether to adopt a running control service or start
//! one, how long to wait for it, how to engage its PID mode, and how to tear
//! the session down. The caller performs each action (probing, spawning,
//! sleeping, posting) and hands back what happened.
use vstd::prelude::*;

use crate::srv::Probe;

verus! {

/// Where the setup of a thermal session stands.
#[derive(Debug, Clone, Copy, PartialEq, Eq, Structural)]
pub enum ThermalState {
    /// Nothing done yet.
    Idle,
    /// The first `/status` probe is under way.
    Probing,
    /// A service process is being started.
    Spawning,
    /// Polling `/status` until the service is ready or the deadline passes.
    WaitingReady { spawned: bool },
    /// `POST /pid?target_c=..` is under way.
    SettingTarget { spawned: bool },
    /// `POST /mode?value=pid` is under way.
    SettingMode { spawned: bool },
    /// The session is engaged; `spawned` tells whether this run started the
    /// service.
    Active { spawned: bool },
    /// The run goes on without thermal control.
    Off,
}

/// What the caller observed after the last action.
pub enum ThermalEvent {
    /// The run starts: whether a target temperature was given, and whether
    /// this process is a worker of the optimizer (which owns the session).
    Start { has_target: bool, worker_mode: bool },
    /// The outcome of the first `/status` probe.
    Probed(Result<Probe, String>),
    /// Whether the service process could be started.
    Spawned { ok: bool },
    /// A readiness poll: whether the service reported ready, and whether the
    /// readiness deadline has passed.
    Polled { ready: bool, past_deadline: bool },
    /// Whether the last `POST` succeeded.
    Posted { ok: bool },
}

/// What the caller does next.
#[derive(Debug)]
pub enum ThermalAction {
    /// Nothing more to do.
    Nothing,
    /// Warn that the target temperature is ignored in optimizer-worker mode.
    WarnWorkerMode,
    /// Probe `GET /status`.
    Probe,
    /// Say that the running service is adopted, then poll for readiness.
    Adopt,
    /// Say that the running service is still starting, then poll.
    WaitForStarting,
    /// Start the service process with the target.
    Spawn,
    /// Warn that the service could not be started.
    WarnSpawnFailed,
    /// Warn that the port is held by something else; carries the probe's
    /// message.
    WarnPortOccupied(String),
    /// Sleep one probe interval, then poll `/status` again.
    PollAgain,
    /// Poll `/status` for readiness.
    Poll,
    /// Warn that the service never became ready; `shutdown` asks to stop the
    /// service this run started.
    WarnNeverReady { shutdown: bool },
    /// Send `POST /pid?target_c=..`.
    PostTarget,
    /// Send `POST /mode?value=pid`.
    PostPidMode,
    /// Warn that PID mode could not be engaged.
    WarnEngageFailed,
    /// Record the session and announce it.
    Activate,
}

/// The next state and action of the session setup. An event that does not
/// belong to the current state changes nothing.
pub open spec fn thermal_next(state: ThermalState, event: ThermalEvent) -> (
    ThermalState,
    ThermalAction,
) {
    match (state, event) {
        (ThermalState::Idle, ThermalEvent::Start { has_target, worker_mode }) => if !has_target {
            (ThermalState::Off, ThermalAction::Nothing)
        } else if worker_mode {
            (ThermalState::Off, ThermalAction::WarnWorkerMode)
        } else {
            (ThermalState::Probing, ThermalAction::Probe)
        },
        (ThermalState::Probing, ThermalEvent::Probed(outcome)) => match outcome {
            Ok(Probe::Ready) => (ThermalState::WaitingReady { spawned: false }, ThermalAction::Adopt),
            Ok(Probe::Starting) => (
                ThermalState::WaitingReady { spawned: false },
                ThermalAction::WaitForStarting,
            ),
            Ok(Probe::Absent) => (ThermalState::Spawning, ThermalAction::Spawn),
            Err(m) => (ThermalState::Off, ThermalAction::WarnPortOccupied(m)),
        },
        (ThermalState::Spawning, ThermalEvent::Spawned { ok }) => if ok {
            (ThermalState::WaitingReady { spawned: true }, ThermalAction::Poll)
        } else {
            (ThermalState::Off, ThermalAction::WarnSpawnFailed)
        },
        (ThermalState::WaitingReady { spawned }, ThermalEvent::Polled { ready, past_deadline }) => {
            if ready {
                (ThermalState::SettingTarget { spawned }, ThermalAction::PostTarget)
            } else if past_deadline {
                (ThermalState::Off, ThermalAction::WarnNeverReady { shutdown: spawned })
            } else {
                (ThermalState::WaitingReady { spawned }, ThermalAction::PollAgain)
            }
        },
        (ThermalState::SettingTarget { spawned }, ThermalEvent::Posted { ok }) => if ok {
            (ThermalState::SettingMode { spawned }, ThermalAction::PostPidMode)
        } else {
            (ThermalState::Off, ThermalAction::WarnEngageFailed)
        },
        (ThermalState::SettingMode { spawned }, ThermalEvent::Posted { ok }) => if ok {
            (ThermalState::Active { spawned }, ThermalAction::Activate)
        } else {
            (ThermalState::Off, ThermalAction::WarnEngageFailed)
        },
        (s, _) => (s, ThermalAction::Nothing),
    }
}

/// Takes one step of the session setup (see [`thermal_next`]).
pub fn thermal_step(state: ThermalState, event: ThermalEvent) -> (r: (ThermalState, ThermalAction))
    ensures
        r == thermal_next(state, event),
{
    match (state, event) {
        (ThermalState::Idle, ThermalEvent::Start { has_target, worker_mode }) => if !has_target {
            (ThermalState::Off, ThermalAction::Nothing)
        } else if worker_mode {
            (ThermalState::Off, ThermalAction::WarnWorkerMode)
        } else {
            (ThermalState::Probing, ThermalAction::Probe)
        },
        (ThermalState::Probing, ThermalEvent::Probed(outcome)) => match outcome {
            Ok(Probe::Ready) => (ThermalState::WaitingReady { spawned: false }, ThermalAction::Adopt),
            Ok(Probe::Starting) => (
                ThermalState::WaitingReady { spawned: false },
                ThermalAction::WaitForStarting,
            ),
            Ok(Probe::Absent) => (ThermalState::Spawning, ThermalAction::Spawn),
            Err(m) => (ThermalState::Off, ThermalAction::WarnPortOccupied(m)),
        },
        (ThermalState::Spawning, ThermalEvent::Spawned { ok }) => if ok {
            (ThermalState::WaitingReady { spawned: true }, ThermalAction::Poll)
        } else {
            (ThermalState::Off, ThermalAction::WarnSpawnFailed)
        },
        (ThermalState::WaitingReady { spawned }, ThermalEvent::Polled { ready, past_deadline }) => {
            if ready {
                (ThermalState::SettingTarget { spawned }, ThermalAction::PostTarget)
            } else if past_deadline {
                (ThermalState::Off, ThermalAction::WarnNeverReady { shutdown: spawned })
            } else {
                (ThermalState::WaitingReady { spawned }, ThermalAction::PollAgain)
            }
        },
        (ThermalState::SettingTarget { spawned }, ThermalEvent::Posted { ok }) => if ok {
            (ThermalState::SettingMode { spawned }, ThermalAction::PostPidMode)
        } else {
            (ThermalState::Off, ThermalAction::WarnEngageFailed)
        },
        (ThermalState::SettingMode { spawned }, ThermalEvent::Posted { ok }) => if ok {
            (ThermalState::Active { spawned }, ThermalAction::Activate)
        } else {
            (ThermalState::Off, ThermalAction::WarnEngageFailed)
        },
        (s, _) => (s, ThermalAction::Nothing),
    }
}

/// What tearing a session down involves.
#[derive(Debug, Clone, Copy, PartialEq, Eq, Structural)]
pub enum TeardownPlan {
    /// No session: nothing to undo.
    Nothing,
    /// Hand fan control back (`POST /restore`) to a service that was
    /// already running.
    Restore,
    /// Hand fan control back, then stop the service this run started
    /// (`POST /shutdown`, wait, kill if it lingers).
    RestoreAndStop,
}

/// The teardown for a session in `state`: only an engaged session is undone,
/// and only a service this run started is stopped.
pub open spec fn teardown_spec(state: ThermalState) -> TeardownPlan {
    match state {
        ThermalState::Active { spawned } => if spawned {
            TeardownPlan::RestoreAndStop
        } else {
            TeardownPlan::Restore
        },
        _ => TeardownPlan::Nothing,
    }
}

/// Chooses the teardown for a session in `state` (see [`teardown_spec`]).
pub fn teardown(state: ThermalState) -> (p: TeardownPlan)
    ensures
        p == teardown_spec(state),
{
    match state {
        ThermalState::Active { spawned } => if spawned {
            TeardownPlan::RestoreAndStop
        } else {
            TeardownPlan::Restore
        },
        _ => TeardownPlan::Nothing,
    }
}

/// Whether a step can engage a session: only a successful `POST /mode`
/// after a successful `POST /pid` does.
pub open spec fn engages(before: ThermalState, after: ThermalState) -> bool {
    after is Active && !(before is Active)
}

/// A session becomes active only from the PID-mode step, and only on a
/// successful post; it keeps the origin (started by this run or adopted)
/// that the setup recorded.
pub proof fn lemma_only_pid_mode_engages(state: ThermalState, event: ThermalEvent)
    ensures
        engages(state, thermal_next(state, event).0) ==> (state matches ThermalState::SettingMode {
            spawned,
        } && event matches ThermalEvent::Posted { ok } && ok && thermal_next(state, event).0
            == ThermalState::Active { spawned }),
{
}

/// Without a target temperature, or in optimizer-worker mode, the session
/// setup ends at once without probing anything, and leaves nothing to tear
/// down.
pub proof fn lemma_no_session_without_target(has_target: bool, worker_mode: bool)
    requires
        !has_target || worker_mode,
    ensures
        thermal_next(ThermalState::Idle, ThermalEvent::Start { has_target, worker_mode }).0
            == ThermalState::Off,
        !(thermal_next(ThermalState::Idle, ThermalEvent::Start { has_target, worker_mode }).1 is Probe),
        teardown_spec(
            thermal_next(ThermalState::Idle, ThermalEvent::Start { has_target, worker_mode }).0,
        ) == TeardownPlan::Nothing,
{
}

/// A service that was only adopted is never stopped: every path that began
/// with an adopting probe tears down by restoring alone.
pub proof fn lemma_adopted_service_is_not_stopped(state: ThermalState, event: ThermalEvent)
    requires
        match state {
            ThermalState::WaitingReady { spawned } => !spawned,
            ThermalState::SettingTarget { spawned } => !spawned,
            ThermalState::SettingMode { spawned } => !spawned,
            ThermalState::Active { spawned } => !spawned,
            _ => false,
        },
    ensures
        teardown_spec(thermal_next(state, event).0) != TeardownPlan::RestoreAndStop,
        !(thermal_next(state, event).1 matches ThermalAction::WarnNeverReady { shutdown } && shutdown),
{
}


/// A probe that finds nothing listening leads to starting the service.
pub proof fn lemma_absent_service_is_spawned()
    ensures
        thermal_next(ThermalState::Probing, ThermalEvent::Probed(Ok(Probe::Absent))).0
            == ThermalState::Spawning,
        (thermal_next(ThermalState::Probing, ThermalEvent::Probed(Ok(Probe::Absent))).1 is Spawn),
{
}

/// Only a service that this run started is ever shut down: by a teardown
/// of an active session it started, or on giving up waiting for it.
pub proof fn lemma_only_spawned_service_is_stopped(state: ThermalState, event: ThermalEvent)
    ensures
        teardown_spec(state) == TeardownPlan::RestoreAndStop ==> state == (ThermalState::Active {
            spawned: true,
        }),
        (thermal_next(state, event).1 matches ThermalAction::WarnNeverReady { shutdown } && shutdown)
            ==> state == (ThermalState::WaitingReady { spawned: true }),
        (thermal_next(state, event).0 matches ThermalState::WaitingReady { spawned } && spawned)
            ==> (state == ThermalState::Spawning || state == (ThermalState::WaitingReady {
            spawned: true,
        })),
{
}

} // verus!
