//! The tasks of a session and the integer codes by which the numeric
//! engine reports them.

use vstd::prelude::*;

verus! {

/// The code with which a fresh session enters the engine.
pub const START: u32 = 1;

/// The code the engine leaves when it has accepted a new iterate.
pub const NEW_X: u32 = 2;

/// First code of the band that asks for the objective and its gradient.
pub const FG: u32 = 10;

/// Last code of the band that asks for the objective and its gradient.
pub const FG_END: u32 = 15;

/// First code of the band that reports convergence.
pub const CONVERGENCE: u32 = 20;

/// Last code of the band that reports convergence.
pub const CONVERGENCE_END: u32 = 25;

/// Why a session stopped short of convergence.
#[derive(Clone, Copy, PartialEq, Eq, Debug, Structural)]
pub enum StopReason {
    /// The engine broke down, the line search found no admissible step, or
    /// an evaluation was not finite.
    NumericalFailure,
    /// The evaluator reported failure.
    UserCancelled,
}

/// What a session is doing.  Exactly one task is current at any time.
#[derive(Clone, Copy, PartialEq, Eq, Debug, Structural)]
pub enum Task {
    /// Nothing has happened yet.
    Start,
    /// The objective and its gradient are wanted at the requested point.
    RequestEvaluation,
    /// An outer iteration has been completed and accepted.
    NewIterate,
    /// The engine reported convergence.
    Converged,
    /// The session ended without convergence.
    Stopped(StopReason),
}

/// How a finished session ended.
#[derive(Clone, Copy, PartialEq, Eq, Debug, Structural)]
pub enum ExitReason {
    Converged,
    Stopped(StopReason),
}

/// The code lies in the band that asks for an evaluation.
pub open spec fn spec_is_fg(task: i64) -> bool {
    FG <= task <= FG_END
}

/// Whether the engine's code asks for the objective and its gradient: true
/// exactly on the band from `FG` to `FG_END`.
#[verifier::when_used_as_spec(spec_is_fg)]
pub fn is_fg(task: i64) -> (r: bool)
    ensures
        r == spec_is_fg(task),
{
    task >= FG as i64 && task <= FG_END as i64
}

impl Task {
    /// A terminal task is never left.
    pub open spec fn spec_is_terminal(self) -> bool {
        self is Converged || self is Stopped
    }

    /// The task that a code of the engine stands for.  A code outside every
    /// known band is a failure of the engine.
    pub open spec fn spec_from_code(code: i64) -> Task {
        if spec_is_fg(code) {
            Task::RequestEvaluation
        } else if code == NEW_X {
            Task::NewIterate
        } else if code == START {
            Task::Start
        } else if CONVERGENCE <= code <= CONVERGENCE_END {
            Task::Converged
        } else {
            Task::Stopped(StopReason::NumericalFailure)
        }
    }

    pub open spec fn spec_exit_reason(self) -> Option<ExitReason> {
        match self {
            Task::Converged => Some(ExitReason::Converged),
            Task::Stopped(reason) => Some(ExitReason::Stopped(reason)),
            _ => None,
        }
    }

    #[verifier::when_used_as_spec(spec_is_terminal)]
    pub fn is_terminal(self) -> (r: bool)
        ensures
            r == self.spec_is_terminal(),
    {
        match self {
            Task::Converged | Task::Stopped(_) => true,
            _ => false,
        }
    }

    #[verifier::when_used_as_spec(spec_from_code)]
    pub fn from_code(code: i64) -> (task: Task)
        ensures
            task == Self::spec_from_code(code),
    {
        if is_fg(code) {
            Task::RequestEvaluation
        } else if code == NEW_X as i64 {
            Task::NewIterate
        } else if code == START as i64 {
            Task::Start
        } else if CONVERGENCE as i64 <= code && code <= CONVERGENCE_END as i64 {
            Task::Converged
        } else {
            Task::Stopped(StopReason::NumericalFailure)
        }
    }

    /// How the session ended: `Some` exactly when the task is terminal.
    #[verifier::when_used_as_spec(spec_exit_reason)]
    pub fn exit_reason(self) -> (r: Option<ExitReason>)
        ensures
            r == self.spec_exit_reason(),
            r is Some <==> self.spec_is_terminal(),
    {
        match self {
            Task::Converged => Some(ExitReason::Converged),
            Task::Stopped(reason) => Some(ExitReason::Stopped(reason)),
            _ => None,
        }
    }
}

} // verus!
