//! The session: a problem, its options, the engine's scratch storage and
//! the state of the task protocol.

use vstd::prelude::*;
use crate::ieee::{all_finite, is_finite, le, lt, ZERO};
use crate::param::{spec_default, LbfgsbParameter, DEFAULT_M};
use crate::problem::{
    lemma_valid_same_box, spec_built, BoundPair, InvalidInput, LbfgsbProblem, ProblemModel,
};
use crate::session::{
    lemma_step_wf, spec_iterate, Action, EventModel, IterateModel, SessionModel,
};
use crate::task::{ExitReason, StopReason, Task, START};
use crate::workspace::{spec_iwa_len, spec_wa_len, Workspace};

verus! {

/// What a collaborator hands back to the session.
pub enum Event {
    /// The engine returned, leaving `code` and the point `x`.
    Engine { code: i64, x: Vec<u64> },
    /// The evaluator returned the objective value `f` and the gradient `g`
    /// at the pending point.
    Evaluated { f: u64, g: Vec<u64> },
    /// The evaluator reported failure.
    EvaluationFailed,
}

impl View for Event {
    type V = EventModel;

    open spec fn view(&self) -> EventModel {
        match self {
            Event::Engine { code, x } => EventModel::Engine { code: *code, x: x@ },
            Event::Evaluated { f, g } => EventModel::Evaluated { f: *f, g: g@ },
            Event::EvaluationFailed => EventModel::EvaluationFailed,
        }
    }
}

/// A point with the objective value and the gradient there.
struct Iterate {
    x: Vec<u64>,
    f: u64,
    g: Vec<u64>,
}

impl View for Iterate {
    type V = IterateModel;

    closed spec fn view(&self) -> IterateModel {
        IterateModel { x: self.x@, f: self.f, g: self.g@ }
    }
}

/// A session of the minimisation.
pub struct LbfgsbState {
    problem: LbfgsbProblem,
    param: LbfgsbParameter,
    task: Task,
    code: i64,
    pending: Option<Vec<u64>>,
    accepted: Option<Iterate>,
    workspace: Option<Workspace>,
}

impl View for LbfgsbState {
    type V = SessionModel;

    closed spec fn view(&self) -> SessionModel {
        SessionModel {
            problem: self.problem@,
            param: self.param,
            task: self.task,
            code: self.code,
            pending: match self.pending {
                Some(p) => Some(p@),
                None => None,
            },
            accepted: match self.accepted {
                Some(a) => Some(a@),
                None => None,
            },
            workspace: match self.workspace {
                Some(w) => Some(w@),
                None => None,
            },
        }
    }
}

/// A copy of `s`.
fn duplicate(s: &[u64]) -> (v: Vec<u64>)
    ensures
        v@ == s@,
{
    let mut v: Vec<u64> = Vec::new();
    let mut i: usize = 0;
    while i < s.len()
        invariant
            i <= s@.len(),
            v@ == s@.take(i as int),
        decreases s@.len() - i,
    {
        v.push(s[i]);
        assert(s@.take(i as int).push(s@[i as int]) =~= s@.take(i as int + 1));
        i = i + 1;
    }
    assert(s@.take(s@.len() as int) =~= s@);
    v
}

/// The pairs that give every variable both of its bounds.
pub open spec fn spec_two_sided(bounds: Seq<(u64, u64)>) -> Seq<BoundPair> {
    Seq::new(bounds.len(), |i: int| (Some(bounds[i].0), Some(bounds[i].1)))
}

/// The problem that starts at `x` and whose variable `i` has the bounds
/// that `bounds[i]` gives, as far as they are present and finite.
pub open spec fn spec_setup(x: Seq<u64>, bounds: Seq<BoundPair>) -> ProblemModel {
    spec_built(x).with_bounds(bounds)
}

/// The scratch storage for `n` variables and `m` correction pairs fits the
/// machine's word.
pub open spec fn spec_storable(n: nat, m: nat) -> bool {
    spec_wa_len(n, m) <= usize::MAX && spec_iwa_len(n) <= usize::MAX
}

impl LbfgsbState {
    /// The invariant of every session that this module hands out.
    pub open spec fn wf(&self) -> bool {
        self@.wf()
    }

    /// A session for `problem`, or the reason for which the problem is
    /// refused.  Nothing has happened in a new session: its task is
    /// `Start`, its point is the problem's, not yet projected, and it holds
    /// scratch storage of the lengths that the problem's variables and the
    /// options' correction pairs call for, with zero in every cell.
    pub fn new(problem: LbfgsbProblem, param: LbfgsbParameter) -> (r: Result<
        LbfgsbState,
        InvalidInput,
    >)
        requires
            problem.wf(),
            spec_storable(problem@.n(), param.m as nat),
        ensures
            r is Ok <==> problem@.valid(),
            r matches Ok(state) ==> state@ == SessionModel::initial(problem@, param) && state.wf(),
            r matches Err(e) ==> problem@.refused_for(e),
    {
        match problem.validate() {
            Ok(()) => {
                let workspace = Workspace::new(problem.n(), param.m);
                Ok(
                    LbfgsbState {
                        problem,
                        param,
                        task: Task::Start,
                        code: START as i64,
                        pending: None,
                        accepted: None,
                        workspace,
                    },
                )
            },
            Err(e) => Err(e),
        }
    }

    /// A session for the problem that starts at `x` with the bounds
    /// `bounds`, one pair for each variable.  It is refused for
    /// `BoundsLength` exactly when there are not as many pairs as
    /// variables, and else for the reason for which the problem is refused,
    /// if it is.
    pub fn create(x: Vec<u64>, bounds: &[BoundPair], param: LbfgsbParameter) -> (r: Result<
        LbfgsbState,
        InvalidInput,
    >)
        requires
            spec_storable(x@.len(), param.m as nat),
        ensures
            r is Ok <==> x@.len() == bounds@.len() && spec_setup(x@, bounds@).valid(),
            r matches Ok(state) ==> state@ == SessionModel::initial(spec_setup(x@, bounds@), param)
                && state.wf(),
            r == Err::<LbfgsbState, InvalidInput>(InvalidInput::BoundsLength) <==> x@.len()
                != bounds@.len(),
            r matches Err(e) ==> x@.len() == bounds@.len() ==> spec_setup(x@, bounds@).refused_for(
                e,
            ),
    {
        if x.len() != bounds.len() {
            return Err(InvalidInput::BoundsLength);
        }
        let mut problem = LbfgsbProblem::build(x);
        problem.set_bounds(bounds);
        LbfgsbState::new(problem, param)
    }

    /// What has to happen next.
    pub fn action(&self) -> (action: Action)
        ensures
            action == self@.action(),
    {
        if self.task.is_terminal() {
            Action::Finish
        } else if self.pending.is_some() {
            Action::Evaluate
        } else {
            Action::RunEngine
        }
    }

    /// The current task.
    pub fn task(&self) -> (task: Task)
        ensures
            task == self@.task,
    {
        self.task
    }

    /// The code with which the engine is entered next.
    pub fn task_code(&self) -> (code: i64)
        ensures
            code == self@.code,
    {
        self.code
    }

    /// The point whose evaluation is outstanding, if one is.
    pub fn pending_point(&self) -> (p: Option<&[u64]>)
        ensures
            p is Some <==> self@.pending is Some,
            p matches Some(point) ==> point@ == self@.pending->0,
    {
        match &self.pending {
            Some(point) => Some(point.as_slice()),
            None => None,
        }
    }

    /// The point of the latest accepted iterate, if there is one.
    pub fn accepted_point(&self) -> (p: Option<&[u64]>)
        ensures
            p is Some <==> self@.accepted is Some,
            p matches Some(point) ==> point@ == self@.accepted->0.x,
    {
        match &self.accepted {
            Some(a) => Some(a.x.as_slice()),
            None => None,
        }
    }

    /// The objective value of the latest accepted iterate, if there is one.
    pub fn accepted_value(&self) -> (f: Option<u64>)
        ensures
            f is Some <==> self@.accepted is Some,
            f matches Some(value) ==> value == self@.accepted->0.f,
    {
        match &self.accepted {
            Some(a) => Some(a.f),
            None => None,
        }
    }

    /// The gradient of the latest accepted iterate, if there is one.
    pub fn accepted_gradient(&self) -> (g: Option<&[u64]>)
        ensures
            g is Some <==> self@.accepted is Some,
            g matches Some(gradient) ==> gradient@ == self@.accepted->0.g,
    {
        match &self.accepted {
            Some(a) => Some(a.g.as_slice()),
            None => None,
        }
    }

    /// How the session ended: `Some` exactly when it is over.
    pub fn exit_reason(&self) -> (r: Option<ExitReason>)
        ensures
            r == self@.task.spec_exit_reason(),
            r is Some <==> self@.task.spec_is_terminal(),
    {
        self.task.exit_reason()
    }

    /// The problem, with the current iterate.
    pub fn problem(&self) -> (problem: &LbfgsbProblem)
        ensures
            problem@ == self@.problem,
    {
        &self.problem
    }

    /// The options.
    pub fn param(&self) -> (param: LbfgsbParameter)
        ensures
            param == self@.param,
    {
        self.param
    }

    /// The objective value of the latest valid evaluation; before the
    /// first one, what the problem was created with.
    pub fn fx(&self) -> (f: u64)
        ensures
            f == self@.problem.f,
    {
        self.problem.fx()
    }

    /// The gradient of the latest valid evaluation; before the first one,
    /// what the problem was created with.
    pub fn gx(&self) -> (g: &[u64])
        ensures
            g@ == self@.problem.g,
    {
        self.problem.gx()
    }

    /// The point of the latest valid evaluation; before the first one, the
    /// starting point, projected into the box once the session has started.
    pub fn x(&self) -> (x: &[u64])
        ensures
            x@ == self@.problem.x,
    {
        self.problem.x()
    }

    /// The largest component of the projected gradient at the current
    /// iterate, as a magnitude.
    pub fn projected_gradient_norm(&self) -> (r: u64)
        requires
            self.wf(),
        ensures
            r == self@.problem.projected_norm(),
            self@.problem.is_projected_norm(r),
    {
        self.problem.projected_gradient_norm()
    }

    /// Hands the scratch storage out, for the engine to work on.  The
    /// session holds none until it is put back; nothing else changes.  What
    /// a session in good order hands out has the lengths that its problem
    /// and its options call for.
    pub fn take_workspace(&mut self) -> (w: Option<Workspace>)
        ensures
            w is Some <==> old(self)@.workspace is Some,
            w matches Some(workspace) ==> workspace@ == old(self)@.workspace->0,
            final(self)@ == (SessionModel { workspace: None, ..old(self)@ }),
            old(self).wf() ==> final(self).wf(),
            old(self).wf() ==> (w matches Some(workspace) ==> workspace.spec_fits(
                old(self)@.problem.n(),
                old(self)@.param.m as nat,
            )),
    {
        self.workspace.take()
    }

    /// Takes the scratch storage back.  Its two working arrays must have
    /// the lengths that the problem and the options call for; nothing else
    /// changes.
    pub fn put_workspace(&mut self, w: Workspace)
        requires
            w.spec_fits(old(self)@.problem.n(), old(self)@.param.m as nat),
        ensures
            final(self)@ == (SessionModel { workspace: Some(w@), ..old(self)@ }),
            old(self).wf() ==> final(self).wf(),
    {
        self.workspace = Some(w);
    }

    /// The current iterate, copied.
    fn current(&self) -> (a: Iterate)
        ensures
            a@ == spec_iterate(self@.problem),
    {
        Iterate {
            x: duplicate(self.problem.x()),
            f: self.problem.fx(),
            g: duplicate(self.problem.gx()),
        }
    }

    /// Whether the current iterate may be accepted.
    fn admissible(&self) -> (r: bool)
        ensures
            r == self@.admissible(),
    {
        match &self.accepted {
            Some(a) => le(self.problem.fx(), a.f),
            None => false,
        }
    }

    fn enter(&mut self)
        requires
            old(self).wf(),
        ensures
            final(self)@ == old(self)@.entered(),
            final(self)@.problem.wf(),
            final(self)@.problem.valid(),
            final(self)@.problem.feasible(final(self)@.problem.x),
    {
        if self.task == Task::Start {
            self.problem.project();
            proof {
                lemma_valid_same_box(old(self)@.problem, self@.problem);
            }
        }
    }

    fn stop(&mut self, reason: StopReason)
        ensures
            final(self)@ == old(self)@.stopped(reason),
    {
        self.task = Task::Stopped(reason);
        self.pending = None;
    }

    fn engine_returned(&mut self, code: i64, x: Vec<u64>)
        requires
            old(self).wf(),
            old(self)@.pending is None,
            !old(self)@.task.spec_is_terminal(),
        ensures
            final(self)@ == old(self)@.after_engine(code, x@),
    {
        let before: Task = self.task;
        self.enter();
        self.code = code;
        match Task::from_code(code) {
            Task::RequestEvaluation => {
                if before == Task::Start {
                    let p = duplicate(self.problem.x());
                    self.task = Task::RequestEvaluation;
                    self.pending = Some(p);
                } else if x.len() == self.problem.n() && all_finite(&x) {
                    let p = self.problem.projected(x.as_slice());
                    self.task = Task::RequestEvaluation;
                    self.pending = Some(p);
                } else {
                    self.stop(StopReason::NumericalFailure);
                }
            },
            Task::NewIterate => {
                if before == Task::RequestEvaluation && self.admissible() {
                    self.accepted = Some(self.current());
                    let norm: u64 = self.problem.projected_gradient_norm();
                    if lt(ZERO, self.param.pgtol) && le(norm, self.param.pgtol) {
                        self.task = Task::Converged;
                    } else {
                        self.task = Task::NewIterate;
                    }
                } else {
                    self.stop(StopReason::NumericalFailure);
                }
            },
            Task::Converged => {
                if before != Task::Start && self.admissible() {
                    self.accepted = Some(self.current());
                    self.task = Task::Converged;
                } else {
                    self.stop(StopReason::NumericalFailure);
                }
            },
            Task::Start => {
                self.stop(StopReason::NumericalFailure);
            },
            Task::Stopped(reason) => {
                self.stop(reason);
            },
        }
    }

    fn evaluated(&mut self, f: u64, g: Vec<u64>)
        requires
            old(self).wf(),
            old(self)@.pending is Some,
        ensures
            final(self)@ == old(self)@.after_evaluation(f, g@),
    {
        if g.len() == self.problem.n() && is_finite(f) && all_finite(&g) {
            let p = self.pending.take().unwrap();
            self.problem.set_iterate(p, f, g);
            if self.accepted.is_none() {
                self.accepted = Some(self.current());
            }
        } else {
            self.stop(StopReason::NumericalFailure);
        }
    }

    /// Takes what a collaborator handed back, and says what has to happen
    /// next.  The session after the call is the one that
    /// `SessionModel::step` describes; its options, its box, the number of
    /// its variables and its scratch storage are as before.
    pub fn advance(&mut self, event: Event) -> (action: Action)
        requires
            old(self).wf(),
        ensures
            final(self)@ == old(self)@.step(event@),
            final(self).wf(),
            action == final(self)@.action(),
            final(self)@.param == old(self)@.param,
            final(self)@.problem.n() == old(self)@.problem.n(),
            final(self)@.problem.kinds == old(self)@.problem.kinds,
            final(self)@.problem.lo == old(self)@.problem.lo,
            final(self)@.problem.hi == old(self)@.problem.hi,
            final(self)@.workspace == old(self)@.workspace,
    {
        proof {
            lemma_step_wf(self@, event@);
        }
        if !self.task.is_terminal() {
            match event {
                Event::Engine { code, x } => {
                    if self.pending.is_none() {
                        self.engine_returned(code, x);
                    }
                },
                Event::Evaluated { f, g } => {
                    if self.pending.is_some() {
                        self.evaluated(f, g);
                    }
                },
                Event::EvaluationFailed => {
                    self.enter();
                    self.stop(StopReason::UserCancelled);
                },
            }
        }
        self.action()
    }
}

/// A session with the default options for the problem that starts at `x`
/// with a lower and an upper bound for each variable.  It is refused for
/// `BoundsLength` exactly when there are not as many pairs of bounds as
/// variables, and else for the reason for which the problem is refused, if
/// it is.
pub fn lbfgsb(x: Vec<u64>, bounds: &[(u64, u64)]) -> (r: Result<LbfgsbState, InvalidInput>)
    requires
        spec_storable(x@.len(), DEFAULT_M as nat),
    ensures
        r is Ok <==> x@.len() == bounds@.len() && spec_setup(
            x@,
            spec_two_sided(bounds@),
        ).valid(),
        r matches Ok(state) ==> state@ == SessionModel::initial(
            spec_setup(x@, spec_two_sided(bounds@)),
            spec_default(),
        ) && state.wf(),
        r == Err::<LbfgsbState, InvalidInput>(InvalidInput::BoundsLength) <==> x@.len()
            != bounds@.len(),
        r matches Err(e) ==> x@.len() == bounds@.len() ==> spec_setup(
            x@,
            spec_two_sided(bounds@),
        ).refused_for(e),
{
    let param = LbfgsbParameter::default();
    let mut pairs: Vec<BoundPair> = Vec::new();
    let mut i: usize = 0;
    while i < bounds.len()
        invariant
            i <= bounds@.len(),
            pairs@.len() == i,
            forall|j: int|
                0 <= j < i ==> #[trigger] pairs@[j] == (Some(bounds@[j].0), Some(bounds@[j].1)),
        decreases bounds@.len() - i,
    {
        let (lower, upper) = bounds[i];
        pairs.push((Some(lower), Some(upper)));
        i = i + 1;
    }
    assert(pairs@ =~= spec_two_sided(bounds@));
    LbfgsbState::create(x, pairs.as_slice(), param)
}

} // verus!
