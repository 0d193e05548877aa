//! Runtime "started" switch: Stopped / Starting / Running / Stopping, plus the
//! restart-needed derivation.
//!
//! ```text
//! Stopped ──begin_start──▶ Starting ──finish_start──▶ Running
//!   ▲                        │ fail_start               │ begin_stop
//!   └────────────────────────┘                            ▼
//!   └──────────────────finish_stop─────────────────── Stopping
//! ```
//!
//! Starting means: engine warm-up, hotkey registration and overlay shown.
//! Changing the engine or the active model while Running sets restart-needed
//! (no automatic restart).

use vstd::prelude::*;

use crate::text::{chars_of, push_str, seq_eq};

verus! {

/// Runtime phase.
#[derive(Debug, Clone, Copy, PartialEq, Eq, Structural)]
pub enum RuntimePhase {
    /// not started: no hotkey registered
    Stopped,
    /// warm-up / hotkey registration / overlay in progress
    Starting,
    /// model loaded, hotkey registered, overlay visible
    Running,
    /// cancelling the session / unregistering / unloading in progress
    Stopping,
}

pub open spec fn phase_name(p: RuntimePhase) -> Seq<char> {
    match p {
        RuntimePhase::Stopped => "stopped"@,
        RuntimePhase::Starting => "starting"@,
        RuntimePhase::Running => "running"@,
        RuntimePhase::Stopping => "stopping"@,
    }
}

impl RuntimePhase {
    /// Name used in IPC and event payloads (lower case).
    pub fn as_str(self) -> (r: &'static str)
        ensures
            r@ == phase_name(self),
    {
        match self {
            RuntimePhase::Stopped => "stopped",
            RuntimePhase::Starting => "starting",
            RuntimePhase::Running => "running",
            RuntimePhase::Stopping => "stopping",
        }
    }
}

/// Starting is allowed only from Stopped (a "restart" is stop + start).
pub fn can_start(p: RuntimePhase) -> (r: bool)
    ensures
        r == (p == RuntimePhase::Stopped),
{
    p == RuntimePhase::Stopped
}

/// Stopping is allowed only from Running (stop while Stopped is a no-op of the shell).
pub fn can_stop(p: RuntimePhase) -> (r: bool)
    ensures
        r == (p == RuntimePhase::Running),
{
    p == RuntimePhase::Running
}

/// Transitional phases, during which start and stop requests are refused.
pub fn is_transitioning(p: RuntimePhase) -> (r: bool)
    ensures
        r == (p == RuntimePhase::Starting || p == RuntimePhase::Stopping),
{
    match p {
        RuntimePhase::Starting | RuntimePhase::Stopping => true,
        _ => false,
    }
}

/// The message of a refused transition: `当前状态（<phase>）<reason>`.
pub open spec fn refusal(p: RuntimePhase, reason: Seq<char>) -> Seq<char> {
    "当前状态（"@ + phase_name(p) + "）"@ + reason
}

fn refusal_message(p: RuntimePhase, reason: &str) -> (r: String)
    ensures
        r@ == refusal(p, reason@),
{
    let mut s = String::new();
    push_str(&mut s, "当前状态（");
    push_str(&mut s, p.as_str());
    push_str(&mut s, "）");
    push_str(&mut s, reason);
    s
}

/// Stopped → Starting.
pub fn begin_start(p: RuntimePhase) -> (r: Result<RuntimePhase, String>)
    ensures
        p == RuntimePhase::Stopped ==> r == Ok::<RuntimePhase, String>(RuntimePhase::Starting),
        p != RuntimePhase::Stopped ==> r is Err && r->Err_0@ == refusal(p, "不能启动"@),
{
    if can_start(p) {
        Ok(RuntimePhase::Starting)
    } else {
        Err(refusal_message(p, "不能启动"))
    }
}

/// Starting → Running.
pub fn finish_start(p: RuntimePhase) -> (r: Result<RuntimePhase, String>)
    ensures
        p == RuntimePhase::Starting ==> r == Ok::<RuntimePhase, String>(RuntimePhase::Running),
        p != RuntimePhase::Starting ==> r is Err && r->Err_0@ == refusal(p, "不是启动中"@),
{
    if p == RuntimePhase::Starting {
        Ok(RuntimePhase::Running)
    } else {
        Err(refusal_message(p, "不是启动中"))
    }
}

/// Failed start rolls back: Starting → Stopped.
pub fn fail_start(p: RuntimePhase) -> (r: Result<RuntimePhase, String>)
    ensures
        p == RuntimePhase::Starting ==> r == Ok::<RuntimePhase, String>(RuntimePhase::Stopped),
        p != RuntimePhase::Starting ==> r is Err && r->Err_0@ == refusal(p, "不是启动中"@),
{
    if p == RuntimePhase::Starting {
        Ok(RuntimePhase::Stopped)
    } else {
        Err(refusal_message(p, "不是启动中"))
    }
}

/// Running → Stopping.
pub fn begin_stop(p: RuntimePhase) -> (r: Result<RuntimePhase, String>)
    ensures
        p == RuntimePhase::Running ==> r == Ok::<RuntimePhase, String>(RuntimePhase::Stopping),
        p != RuntimePhase::Running ==> r is Err && r->Err_0@ == refusal(p, "不能停止"@),
{
    if can_stop(p) {
        Ok(RuntimePhase::Stopping)
    } else {
        Err(refusal_message(p, "不能停止"))
    }
}

/// Stopping → Stopped.
pub fn finish_stop(p: RuntimePhase) -> (r: Result<RuntimePhase, String>)
    ensures
        p == RuntimePhase::Stopping ==> r == Ok::<RuntimePhase, String>(RuntimePhase::Stopped),
        p != RuntimePhase::Stopping ==> r is Err && r->Err_0@ == refusal(p, "不是停止中"@),
{
    if p == RuntimePhase::Stopping {
        Ok(RuntimePhase::Stopped)
    } else {
        Err(refusal_message(p, "不是停止中"))
    }
}

/// Restart is needed only while Running, when the snapshot taken at start
/// (engine, active model) differs from the current configuration; Running
/// without a snapshot is treated conservatively as "no restart".
pub open spec fn restart_needed_spec(
    phase: RuntimePhase,
    started: Option<(Seq<char>, Seq<char>)>,
    current: (Seq<char>, Seq<char>),
) -> bool {
    phase == RuntimePhase::Running && match started {
        Some((se, sm)) => se != current.0 || sm != current.1,
        None => false,
    }
}

pub fn restart_needed(phase: RuntimePhase, started: Option<(&str, &str)>, current: (&str, &str)) -> (r: bool)
    ensures
        r == restart_needed_spec(
            phase,
            match started {
                Some((a, b)) => Some((a@, b@)),
                None => None,
            },
            (current.0@, current.1@),
        ),
{
    if phase != RuntimePhase::Running {
        return false;
    }
    match started {
        Some((se, sm)) => {
            let a = chars_of(se);
            let b = chars_of(current.0);
            let c = chars_of(sm);
            let d = chars_of(current.1);
            !seq_eq(a.as_slice(), b.as_slice()) || !seq_eq(c.as_slice(), d.as_slice())
        },
        None => false,
    }
}

/// The next phase of a transition, or `None` when it is refused.
pub open spec fn transition(p: RuntimePhase, t: RuntimeTransition) -> Option<RuntimePhase> {
    match t {
        RuntimeTransition::BeginStart => if p == RuntimePhase::Stopped {
            Some(RuntimePhase::Starting)
        } else {
            None
        },
        RuntimeTransition::FinishStart => if p == RuntimePhase::Starting {
            Some(RuntimePhase::Running)
        } else {
            None
        },
        RuntimeTransition::FailStart => if p == RuntimePhase::Starting {
            Some(RuntimePhase::Stopped)
        } else {
            None
        },
        RuntimeTransition::BeginStop => if p == RuntimePhase::Running {
            Some(RuntimePhase::Stopping)
        } else {
            None
        },
        RuntimeTransition::FinishStop => if p == RuntimePhase::Stopping {
            Some(RuntimePhase::Stopped)
        } else {
            None
        },
    }
}

/// The five transitions of the runtime switch.
#[derive(Debug, Clone, Copy, PartialEq, Eq, Structural)]
pub enum RuntimeTransition {
    BeginStart,
    FinishStart,
    FailStart,
    BeginStop,
    FinishStop,
}

/// Applies a transition by name (the functions above, one per transition).
pub fn apply_transition(p: RuntimePhase, t: RuntimeTransition) -> (r: Result<RuntimePhase, String>)
    ensures
        match transition(p, t) {
            Some(q) => r == Ok::<RuntimePhase, String>(q),
            None => r is Err,
        },
{
    match t {
        RuntimeTransition::BeginStart => begin_start(p),
        RuntimeTransition::FinishStart => finish_start(p),
        RuntimeTransition::FailStart => fail_start(p),
        RuntimeTransition::BeginStop => begin_stop(p),
        RuntimeTransition::FinishStop => finish_stop(p),
    }
}

/// Every accepted transition changes the phase, and a transitional phase is
/// always left towards a stable one: Starting ends in Running or Stopped,
/// Stopping ends in Stopped.
pub proof fn law_transitions_move(p: RuntimePhase, t: RuntimeTransition)
    ensures
        transition(p, t) matches Some(q) ==> q != p,
        p == RuntimePhase::Starting && transition(p, t) is Some ==> (transition(p, t)
            == Some(RuntimePhase::Running) || transition(p, t) == Some(RuntimePhase::Stopped)),
        p == RuntimePhase::Stopping && transition(p, t) is Some ==> transition(p, t) == Some(
            RuntimePhase::Stopped,
        ),
{
}

/// A start request is accepted exactly when `can_start` holds, a stop request
/// exactly when `can_stop` holds, and neither in a transitional phase.
pub proof fn law_guards_agree(p: RuntimePhase)
    ensures
        (transition(p, RuntimeTransition::BeginStart) is Some) == (p == RuntimePhase::Stopped),
        (transition(p, RuntimeTransition::BeginStop) is Some) == (p == RuntimePhase::Running),
        (p == RuntimePhase::Starting || p == RuntimePhase::Stopping) ==> transition(
            p,
            RuntimeTransition::BeginStart,
        ) is None && transition(p, RuntimeTransition::BeginStop) is None,
{
}

/// Restart is never needed outside Running, and never when nothing changed.
pub proof fn law_restart_only_when_running_and_changed(
    phase: RuntimePhase,
    started: Option<(Seq<char>, Seq<char>)>,
    current: (Seq<char>, Seq<char>),
)
    ensures
        phase != RuntimePhase::Running ==> !restart_needed_spec(phase, started, current),
        started == Some(current) ==> !restart_needed_spec(phase, started, current),
{
}

} // verus!
