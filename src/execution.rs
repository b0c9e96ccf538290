use vstd::prelude::*;

verus! {

/// The outcome of one run of the target.
#[derive(PartialEq, Eq, Structural, Clone, Copy, Debug)]
pub enum ExitKind {
    Completed,
    Crashed(i32),
    TimedOut,
}

impl ExitKind {
    /// Whether the outcome is a finding: a crash or a timeout.
    pub open spec fn is_objective_spec(&self) -> bool {
        !(self is Completed)
    }

    pub fn is_objective(&self) -> (r: bool)
        ensures
            r == self.is_objective_spec(),
    {
        match self {
            ExitKind::Completed => false,
            _ => true,
        }
    }
}

/// How a run ended, as the watchdog and the exit status tell it: a run longer than the deadline
/// timed out whatever its status; otherwise a terminating signal is a crash.
pub open spec fn classify_run_spec(signal: Option<i32>, elapsed_ms: u64, timeout_ms: u64) -> ExitKind {
    if elapsed_ms > timeout_ms {
        ExitKind::TimedOut
    } else {
        match signal {
            Some(s) => ExitKind::Crashed(s),
            None => ExitKind::Completed,
        }
    }
}

pub fn classify_run(signal: Option<i32>, elapsed_ms: u64, timeout_ms: u64) -> (r: ExitKind)
    ensures
        r == classify_run_spec(signal, elapsed_ms, timeout_ms),
{
    if elapsed_ms > timeout_ms {
        ExitKind::TimedOut
    } else {
        match signal {
            Some(s) => ExitKind::Crashed(s),
            None => ExitKind::Completed,
        }
    }
}

/// The life of an out-of-process target between runs.
#[derive(PartialEq, Eq, Structural, Clone, Copy, Debug)]
pub enum ChildState {
    Spawned,
    Running,
    Exited(i32),
    TimedOutKilled,
}

/// What the runner is to do before handing the next input to the child.
#[derive(PartialEq, Eq, Structural, Clone, Copy, Debug)]
pub enum ChildAction {
    Run,
    RespawnThenRun,
}

/// A child that crashed or was killed is replaced before the next run; a live one is reused.
pub open spec fn before_run_spec(state: ChildState) -> ChildAction {
    match state {
        ChildState::Exited(_) => ChildAction::RespawnThenRun,
        ChildState::TimedOutKilled => ChildAction::RespawnThenRun,
        _ => ChildAction::Run,
    }
}

pub fn before_run(state: ChildState) -> (r: ChildAction)
    requires
        !(state is Running),
    ensures
        r == before_run_spec(state),
{
    match state {
        ChildState::Exited(_) => ChildAction::RespawnThenRun,
        ChildState::TimedOutKilled => ChildAction::RespawnThenRun,
        _ => ChildAction::Run,
    }
}

/// Where a child stands once a run has ended with `kind`.
pub open spec fn after_run_spec(kind: ExitKind) -> ChildState {
    match kind {
        ExitKind::Completed => ChildState::Spawned,
        ExitKind::Crashed(s) => ChildState::Exited(s),
        ExitKind::TimedOut => ChildState::TimedOutKilled,
    }
}

pub fn after_run(kind: ExitKind) -> (r: ChildState)
    ensures
        r == after_run_spec(kind),
{
    match kind {
        ExitKind::Completed => ChildState::Spawned,
        ExitKind::Crashed(s) => ChildState::Exited(s),
        ExitKind::TimedOut => ChildState::TimedOutKilled,
    }
}

/// A run that overran the deadline leaves a child that is respawned before the next run.
pub proof fn lemma_timeout_forces_respawn(signal: Option<i32>, elapsed_ms: u64, timeout_ms: u64)
    requires
        elapsed_ms > timeout_ms,
    ensures
        classify_run_spec(signal, elapsed_ms, timeout_ms) == ExitKind::TimedOut,
        before_run_spec(after_run_spec(classify_run_spec(signal, elapsed_ms, timeout_ms)))
            == ChildAction::RespawnThenRun,
{
}

} // verus!
