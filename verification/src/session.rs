//! The task protocol of a session, as a transition system on plain values.
//!
//! A session takes turns with two collaborators: the numeric engine, which
//! proposes points and accepts iterates, and the evaluator, which supplies
//! the objective and its gradient at a proposed point.  Whatever either of
//! them hands back is an event; `SessionModel::step` says what the session
//! makes of it.

use vstd::prelude::*;
use crate::ieee::{spec_all_finite, spec_is_finite, spec_le, spec_lt, ZERO};
use crate::param::LbfgsbParameter;
use crate::problem::{lemma_projection, lemma_valid_same_box, ProblemModel};
use crate::task::{StopReason, Task, START};
use crate::workspace::WorkspaceModel;

verus! {

/// What has to happen next.
#[derive(Clone, Copy, PartialEq, Eq, Debug, Structural)]
pub enum Action {
    /// Run the numeric engine on the current iterate and the current code.
    RunEngine,
    /// Evaluate the objective and its gradient at the pending point.
    Evaluate,
    /// Nothing: the session is over.
    Finish,
}

/// What a collaborator hands back.
pub enum EventModel {
    /// The engine returned, leaving `code` and the point `x`.
    Engine { code: i64, x: Seq<u64> },
    /// The evaluator returned the objective value `f` and the gradient `g`
    /// at the pending point.
    Evaluated { f: u64, g: Seq<u64> },
    /// The evaluator reported failure.
    EvaluationFailed,
}

/// A point with the objective value and the gradient there.
pub struct IterateModel {
    pub x: Seq<u64>,
    pub f: u64,
    pub g: Seq<u64>,
}

/// The current iterate of a problem.
pub open spec fn spec_iterate(problem: ProblemModel) -> IterateModel {
    IterateModel { x: problem.x, f: problem.f, g: problem.g }
}

/// What a session is.
pub struct SessionModel {
    /// The box, and the iterate of the latest valid evaluation.
    pub problem: ProblemModel,
    pub param: LbfgsbParameter,
    pub task: Task,
    /// The code with which the engine is entered next.
    pub code: i64,
    /// The point whose evaluation is outstanding, if one is.
    pub pending: Option<Seq<u64>>,
    /// The latest accepted iterate, if there is one.
    pub accepted: Option<IterateModel>,
    /// The scratch storage of the engine, while the session holds it.
    pub workspace: Option<WorkspaceModel>,
}

impl SessionModel {
    /// The session that is created for a problem: nothing has happened,
    /// and the scratch storage has the lengths that the problem and the
    /// options call for, with zero in every cell.
    pub open spec fn initial(problem: ProblemModel, param: LbfgsbParameter) -> SessionModel {
        SessionModel {
            problem,
            param,
            task: Task::Start,
            code: START as i64,
            pending: None,
            accepted: None,
            workspace: Some(WorkspaceModel::zeroed(problem.n(), param.m as nat)),
        }
    }

    /// Whose turn it is: nobody's in a finished session, the evaluator's
    /// while an evaluation is outstanding, else the engine's.
    pub open spec fn action(self) -> Action {
        if self.task.spec_is_terminal() {
            Action::Finish
        } else if self.pending is Some {
            Action::Evaluate
        } else {
            Action::RunEngine
        }
    }

    /// The invariant of every session.
    pub open spec fn wf(self) -> bool {
        &&& self.problem.wf()
        &&& self.problem.valid()
        &&& self.task != Task::Start ==> self.problem.feasible(self.problem.x)
        &&& self.task == Task::Start ==> self.pending is None && self.accepted is None
        &&& self.pending matches Some(p) ==> self.task == Task::RequestEvaluation
            && self.problem.feasible(p)
        &&& self.accepted matches Some(a) ==> {
            &&& self.problem.feasible(a.x)
            &&& spec_is_finite(a.f)
            &&& a.g.len() == self.problem.n()
            &&& spec_all_finite(a.g)
            &&& spec_is_finite(self.problem.f)
            &&& spec_all_finite(self.problem.g)
        }
        &&& self.task == Task::NewIterate ==> self.accepted == Some(spec_iterate(self.problem))
            && !self.gradient_converged()
        &&& self.task == Task::RequestEvaluation && self.pending is None ==> self.accepted is Some
        &&& self.task == Task::Converged ==> self.accepted == Some(spec_iterate(self.problem))
        &&& self.workspace matches Some(w) ==> w.fits(self.problem.n(), self.param.m as nat)
    }

    /// The current iterate may be accepted: something was evaluated since
    /// the session started, and the objective value of the current iterate
    /// does not exceed that of the iterate accepted before.
    pub open spec fn admissible(self) -> bool {
        self.accepted is Some && spec_le(self.problem.f, self.accepted->0.f)
    }

    /// The criterion of the gradient: the tolerance is positive, and the
    /// norm of the projected gradient at the current iterate does not exceed
    /// it.  With a tolerance that is zero, negative or NaN it never holds.
    pub open spec fn gradient_converged(self) -> bool {
        spec_lt(ZERO, self.param.pgtol) && spec_le(self.problem.projected_norm(), self.param.pgtol)
    }

    /// The session with its current iterate accepted: converged if the
    /// iterate meets the criterion of the gradient, at a new iterate if not.
    pub open spec fn accepting(self) -> SessionModel {
        let s = SessionModel { accepted: Some(spec_iterate(self.problem)), ..self };
        if s.gradient_converged() {
            SessionModel { task: Task::Converged, ..s }
        } else {
            SessionModel { task: Task::NewIterate, ..s }
        }
    }

    /// The session with its current point projected into the box.
    pub open spec fn projected(self) -> SessionModel {
        SessionModel {
            problem: self.problem.with_iterate(
                self.problem.projected(self.problem.x),
                self.problem.f,
                self.problem.g,
            ),
            ..self
        }
    }

    /// The session as its first event finds it: a session that has not
    /// started projects its point first.
    pub open spec fn entered(self) -> SessionModel {
        if self.task == Task::Start {
            self.projected()
        } else {
            self
        }
    }

    /// The session ended for `reason`: no evaluation is outstanding any
    /// more, and the iterate stays.
    pub open spec fn stopped(self, reason: StopReason) -> SessionModel {
        SessionModel { task: Task::Stopped(reason), pending: None, ..self }
    }

    /// The session asking for an evaluation at `p`.
    pub open spec fn requesting(self, p: Seq<u64>) -> SessionModel {
        SessionModel { task: Task::RequestEvaluation, pending: Some(p), ..self }
    }

    /// The engine returned with `code`, leaving the point `x`, while no
    /// evaluation was outstanding.
    ///
    /// - A code that asks for an evaluation: a session that had not started
    ///   asks for its own projected point; any other asks for the projection
    ///   of `x`, and stops for numerical failure when `x` has the wrong
    ///   length or a component that is not finite.
    /// - The code of a new iterate: the point evaluated last becomes the
    ///   accepted iterate if its objective value does not exceed that of the
    ///   iterate accepted before, and the session is converged if that
    ///   iterate meets the criterion of the gradient.  If the value rose, or
    ///   if nothing was evaluated since, the session stops for numerical
    ///   failure.
    /// - A code of convergence: the point evaluated last becomes the
    ///   accepted iterate, and the session ends as converged, if its
    ///   objective value does not exceed that of the iterate accepted
    ///   before.  If the value rose, or if nothing was evaluated yet, the
    ///   session stops for numerical failure.
    /// - Every other code ends the session for numerical failure.
    pub open spec fn after_engine(self, code: i64, x: Seq<u64>) -> SessionModel {
        let s = SessionModel { code, ..self.entered() };
        match Task::spec_from_code(code) {
            Task::RequestEvaluation => {
                if self.task == Task::Start {
                    s.requesting(s.problem.x)
                } else if x.len() == s.problem.n() && spec_all_finite(x) {
                    s.requesting(s.problem.projected(x))
                } else {
                    s.stopped(StopReason::NumericalFailure)
                }
            },
            Task::NewIterate => {
                if self.task == Task::RequestEvaluation && s.admissible() {
                    s.accepting()
                } else {
                    s.stopped(StopReason::NumericalFailure)
                }
            },
            Task::Converged => {
                if self.task != Task::Start && s.admissible() {
                    SessionModel {
                        task: Task::Converged,
                        accepted: Some(spec_iterate(s.problem)),
                        ..s
                    }
                } else {
                    s.stopped(StopReason::NumericalFailure)
                }
            },
            Task::Start => s.stopped(StopReason::NumericalFailure),
            Task::Stopped(reason) => s.stopped(reason),
        }
    }

    /// The evaluator returned `f` and `g` for the pending point.  Finite
    /// values of the right length make that point, with them, the current
    /// iterate; the first such value of a session is also its first accepted
    /// one.  Anything else ends the session for numerical failure, and the
    /// iterate stays.
    pub open spec fn after_evaluation(self, f: u64, g: Seq<u64>) -> SessionModel {
        if g.len() == self.problem.n() && spec_is_finite(f) && spec_all_finite(g) {
            SessionModel {
                problem: self.problem.with_iterate(self.pending->0, f, g),
                pending: None,
                accepted: if self.accepted is None {
                    Some(IterateModel { x: self.pending->0, f, g })
                } else {
                    self.accepted
                },
                ..self
            }
        } else {
            self.stopped(StopReason::NumericalFailure)
        }
    }

    /// The session after an event.  A finished session ignores every event;
    /// an event that is not the collaborator's turn is ignored too: the
    /// engine's while an evaluation is outstanding, an evaluation while none
    /// is.  A failed evaluation ends an unfinished session as cancelled.
    pub open spec fn step(self, event: EventModel) -> SessionModel {
        if self.task.spec_is_terminal() {
            self
        } else {
            match event {
                EventModel::Engine { code, x } => {
                    if self.pending is Some {
                        self
                    } else {
                        self.after_engine(code, x)
                    }
                },
                EventModel::Evaluated { f, g } => {
                    if self.pending is Some {
                        self.after_evaluation(f, g)
                    } else {
                        self
                    }
                },
                EventModel::EvaluationFailed => self.entered().stopped(StopReason::UserCancelled),
            }
        }
    }

    /// The session after a sequence of events, first to last.
    pub open spec fn run(self, events: Seq<EventModel>) -> SessionModel
        decreases events.len(),
    {
        if events.len() == 0 {
            self
        } else {
            self.run(events.drop_last()).step(events.last())
        }
    }
}

/// Which task may follow which in one step.
pub open spec fn spec_may_follow(before: Task, after: Task) -> bool {
    match before {
        Task::Start => after == Task::Start || after == Task::RequestEvaluation || after is Stopped,
        Task::RequestEvaluation => after != Task::Start,
        Task::NewIterate => after == Task::NewIterate || after == Task::RequestEvaluation || after
            == Task::Converged || after is Stopped,
        Task::Converged => after == Task::Converged,
        Task::Stopped(reason) => after == Task::Stopped(reason),
    }
}

/// A step keeps the invariant, the box and the options.
pub proof fn lemma_step_wf(s: SessionModel, event: EventModel)
    requires
        s.wf(),
    ensures
        s.step(event).wf(),
        s.step(event).param == s.param,
        s.step(event).problem.n() == s.problem.n(),
        s.step(event).problem.kinds == s.problem.kinds,
        s.step(event).problem.lo == s.problem.lo,
        s.step(event).problem.hi == s.problem.hi,
        s.step(event).workspace == s.workspace,
{
    lemma_projection(s.problem, s.problem.x);
    lemma_valid_same_box(s.problem, s.step(event).problem);
    match event {
        EventModel::Engine { code, x } => {
            if x.len() == s.problem.n() {
                lemma_projection(s.entered().problem, x);
            }
        },
        _ => {},
    }
}

/// Every run keeps the invariant, the box and the options.
pub proof fn lemma_run_wf(s: SessionModel, events: Seq<EventModel>)
    requires
        s.wf(),
    ensures
        s.run(events).wf(),
        s.run(events).param == s.param,
        s.run(events).problem.n() == s.problem.n(),
        s.run(events).problem.kinds == s.problem.kinds,
        s.run(events).problem.lo == s.problem.lo,
        s.run(events).problem.hi == s.problem.hi,
        s.run(events).workspace == s.workspace,
    decreases events.len(),
{
    if events.len() > 0 {
        lemma_run_wf(s, events.drop_last());
        lemma_step_wf(s.run(events.drop_last()), events.last());
    }
}

/// Feasibility: whatever the engine and the evaluator hand back, and in
/// whatever order, a session that has started holds only points of the
/// box.  Its current point and the point whose evaluation is outstanding
/// satisfy `lo_i <= x_i <= hi_i` for every variable, wherever a bound
/// applies.
pub proof fn lemma_feasibility(
    problem: ProblemModel,
    param: LbfgsbParameter,
    events: Seq<EventModel>,
)
    requires
        problem.wf(),
        problem.valid(),
    ensures
        ({
            let s = SessionModel::initial(problem, param).run(events);
            &&& s.task != Task::Start ==> s.problem.feasible(s.problem.x)
            &&& s.pending matches Some(p) ==> s.problem.feasible(p)
            &&& s.problem.kinds == problem.kinds
            &&& s.problem.lo == problem.lo
            &&& s.problem.hi == problem.hi
        }),
{
    lemma_run_wf(SessionModel::initial(problem, param), events);
}

/// Descent, one step: the accepted iterate changes only when the engine
/// reports a new iterate or convergence; it is then the current iterate,
/// and its objective value does not exceed the value accepted before.
pub proof fn lemma_descent_step(s: SessionModel, event: EventModel)
    requires
        s.wf(),
        s.accepted is Some,
    ensures
        s.step(event).accepted is Some,
        spec_le(s.step(event).accepted->0.f, s.accepted->0.f),
        s.step(event).accepted != s.accepted ==> {
            &&& event matches EventModel::Engine { code, x }
            &&& Task::spec_from_code(code) == Task::NewIterate || Task::spec_from_code(code)
                == Task::Converged
            &&& s.step(event).accepted == Some(spec_iterate(s.problem))
            &&& s.step(event).problem == s.problem
        },
{
}

/// The criterion of the gradient: a session does not rest at a new iterate
/// that meets it.  An accepted iterate that meets it ends the session as
/// converged; one that does not leaves it at a new iterate.
pub proof fn lemma_gradient_criterion(s: SessionModel, event: EventModel)
    requires
        s.wf(),
    ensures
        s.step(event).task == Task::NewIterate ==> !s.step(event).gradient_converged(),
        s.task != Task::Converged && s.step(event).task == Task::Converged ==> {
            &&& event matches EventModel::Engine { code, x }
            &&& s.step(event).problem == s.problem
            &&& s.admissible()
            &&& Task::spec_from_code(code) == Task::Converged || (Task::spec_from_code(code)
                == Task::NewIterate && s.step(event).gradient_converged())
        },
{
    lemma_step_wf(s, event);
}

/// Monotone descent: along every run the accepted objective value never
/// rises.  So the values of the accepted iterates, in the order of their
/// acceptance, do not increase; and a session that rests at a new iterate
/// or has converged holds an objective value that does not exceed any value
/// accepted before, the first one included.
pub proof fn lemma_monotone_descent(s: SessionModel, events: Seq<EventModel>)
    requires
        s.wf(),
        s.accepted is Some,
    ensures
        s.run(events).accepted is Some,
        spec_le(s.run(events).accepted->0.f, s.accepted->0.f),
        s.run(events).task == Task::NewIterate || s.run(events).task == Task::Converged
            ==> s.run(events).accepted == Some(spec_iterate(s.run(events).problem)) && spec_le(
            s.run(events).problem.f,
            s.accepted->0.f,
        ),
    decreases events.len(),
{
    lemma_run_wf(s, events);
    if events.len() > 0 {
        let before = s.run(events.drop_last());
        lemma_run_wf(s, events.drop_last());
        lemma_monotone_descent(s, events.drop_last());
        lemma_descent_step(before, events.last());
    }
}

/// The first evaluation of a session gives its first accepted iterate:
/// the projected starting point with the values returned for it.
pub proof fn lemma_first_accepted(s: SessionModel, f: u64, g: Seq<u64>)
    requires
        s.wf(),
        s.pending is Some,
        s.accepted is None,
        g.len() == s.problem.n(),
        spec_is_finite(f),
        spec_all_finite(g),
    ensures
        s.step(EventModel::Evaluated { f, g }).accepted == Some(
            IterateModel { x: s.pending->0, f, g },
        ),
{
}

/// A finished session never changes again.
pub proof fn lemma_terminal(s: SessionModel, events: Seq<EventModel>)
    requires
        s.task.spec_is_terminal(),
    ensures
        s.run(events) == s,
    decreases events.len(),
{
    if events.len() > 0 {
        lemma_terminal(s, events.drop_last());
    }
}

/// Tasks follow one another as the protocol allows: from the start only to
/// a request for an evaluation or to a stop; never back to the start; out of
/// a finished session nowhere.
pub proof fn lemma_may_follow(s: SessionModel, event: EventModel)
    requires
        s.wf(),
    ensures
        spec_may_follow(s.task, s.step(event).task),
{
}

/// Turns: while an evaluation is outstanding the engine's return changes
/// nothing, and while none is an evaluation changes nothing.  At most one
/// evaluation is outstanding, and only on request.
pub proof fn lemma_turns(s: SessionModel, event: EventModel)
    requires
        s.wf(),
    ensures
        s.action() == Action::Evaluate && event is Engine ==> s.step(event) == s,
        s.action() != Action::Evaluate && event is Evaluated ==> s.step(event) == s,
        s.step(event).action() == Action::Evaluate ==> s.step(event).task
            == Task::RequestEvaluation,
{
}

/// A valid evaluation makes the pending point the current one, with the
/// values that were returned for it.
pub proof fn lemma_valid_evaluation(s: SessionModel, f: u64, g: Seq<u64>)
    requires
        s.wf(),
        s.pending is Some,
        g.len() == s.problem.n(),
        spec_is_finite(f),
        spec_all_finite(g),
    ensures
        ({
            let after = s.step(EventModel::Evaluated { f, g });
            &&& after.problem.x == s.pending->0
            &&& after.problem.f == f
            &&& after.problem.g == g
            &&& after.task == Task::RequestEvaluation
            &&& after.action() == Action::RunEngine
        }),
{
}

/// The iterate of a started session changes with a valid evaluation of the
/// pending point, and with nothing else: not with what the engine leaves,
/// not with an evaluation that is out of turn or not finite, not with a
/// failure.
pub proof fn lemma_iterate_changes(s: SessionModel, event: EventModel)
    requires
        s.wf(),
        s.task != Task::Start,
    ensures
        s.step(event).problem != s.problem ==> {
            &&& s.pending is Some
            &&& event matches EventModel::Evaluated { f, g }
            &&& g.len() == s.problem.n()
            &&& spec_is_finite(f)
            &&& spec_all_finite(g)
            &&& s.step(event).problem == s.problem.with_iterate(s.pending->0, f, g)
        },
{
}

/// Cancellation: a failed evaluation ends a started, unfinished session as
/// cancelled, drops the pending point, and leaves the current iterate (the
/// point, the value and the gradient of the latest valid evaluation) as it
/// was.  No later event changes that.
pub proof fn lemma_cancellation(s: SessionModel, later: Seq<EventModel>)
    requires
        s.wf(),
        !s.task.spec_is_terminal(),
        s.task != Task::Start,
    ensures
        ({
            let after = s.step(EventModel::EvaluationFailed).run(later);
            &&& after.task == Task::Stopped(StopReason::UserCancelled)
            &&& after.problem == s.problem
            &&& after.accepted == s.accepted
            &&& after.pending is None
        }),
{
    lemma_terminal(s.step(EventModel::EvaluationFailed), later);
}

/// An evaluation that is not finite, or whose gradient has the wrong
/// length, ends the session for numerical failure and leaves the current
/// iterate as it was.
pub proof fn lemma_invalid_evaluation(s: SessionModel, f: u64, g: Seq<u64>)
    requires
        s.wf(),
        s.pending is Some,
        !(g.len() == s.problem.n() && spec_is_finite(f) && spec_all_finite(g)),
    ensures
        ({
            let after = s.step(EventModel::Evaluated { f, g });
            &&& after.task == Task::Stopped(StopReason::NumericalFailure)
            &&& after.problem == s.problem
        }),
{
}

/// Without bounds the session asks for exactly the points that the engine
/// proposes, and starts at exactly the point it was given.
pub proof fn lemma_unconstrained(s: SessionModel, code: i64, x: Seq<u64>)
    requires
        s.wf(),
        s.problem.unconstrained(),
        s.action() == Action::RunEngine,
        Task::spec_from_code(code) == Task::RequestEvaluation,
        x.len() == s.problem.n(),
        spec_all_finite(x),
    ensures
        ({
            let after = s.step(EventModel::Engine { code, x });
            &&& s.task == Task::Start ==> after.pending == Some(s.problem.x)
            &&& s.task != Task::Start ==> after.pending == Some(x)
            &&& after.problem.x == s.problem.x
        }),
{
    lemma_projection(s.problem, s.problem.x);
    lemma_projection(s.problem, x);
}

} // verus!
