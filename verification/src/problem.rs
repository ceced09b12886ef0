//! The problem of one session: the box and the current iterate.

use vstd::prelude::*;
use crate::bounds::{
    clamp, in_box, present, spec_admissible, spec_clamp, spec_in_box, spec_present, BoundKind,
};
use crate::ieee::{
    is_finite, le, lt, magnitude, spec_all_finite, spec_is_finite, spec_le, spec_lt,
    spec_magnitude, ZERO,
};

verus! {

/// One variable's bounds as a caller gives them: the lower and the upper
/// bound, each a double or absent.
pub type BoundPair = (Option<u64>, Option<u64>);

/// Why a problem cannot be minimised.
#[derive(Clone, Copy, PartialEq, Eq, Debug, Structural)]
pub enum InvalidInput {
    /// There is no variable.
    Empty,
    /// The number of bounds is not the number of variables.
    BoundsLength,
    /// The first variable, by index, whose lower bound exceeds its upper
    /// bound.
    InvertedBounds(usize),
}

/// What a problem is: the box, and the point, objective value and gradient
/// that are current.  Every double is a bit pattern.
pub struct ProblemModel {
    pub x: Seq<u64>,
    pub g: Seq<u64>,
    pub f: u64,
    pub lo: Seq<u64>,
    pub hi: Seq<u64>,
    pub kinds: Seq<BoundKind>,
}

impl ProblemModel {
    /// The number of variables.
    pub open spec fn n(self) -> nat {
        self.x.len()
    }

    /// Every part has one entry per variable, and every bound that a
    /// variable has is finite.
    pub open spec fn wf(self) -> bool {
        &&& self.g.len() == self.n()
        &&& self.lo.len() == self.n()
        &&& self.hi.len() == self.n()
        &&& self.kinds.len() == self.n()
        &&& forall|i: int|
            0 <= i < self.n() ==> (#[trigger] self.kinds[i]).spec_has_lower() ==> spec_is_finite(
                self.lo[i],
            )
        &&& forall|i: int|
            0 <= i < self.n() ==> (#[trigger] self.kinds[i]).spec_has_upper() ==> spec_is_finite(
                self.hi[i],
            )
    }

    /// Variable `i` has a lower bound above its upper bound.
    pub open spec fn inverted(self, i: int) -> bool {
        self.kinds[i] == BoundKind::Both && !spec_le(self.lo[i], self.hi[i])
    }

    /// There is a variable, and no variable's bounds are inverted.
    pub open spec fn valid(self) -> bool {
        &&& self.n() > 0
        &&& forall|i: int| 0 <= i < self.n() ==> !self.inverted(i)
    }

    /// `e` is the reason for which the problem is refused: that it has no
    /// variable, or else the first variable whose bounds are inverted.
    pub open spec fn refused_for(self, e: InvalidInput) -> bool {
        match e {
            InvalidInput::Empty => self.n() == 0,
            InvalidInput::BoundsLength => false,
            InvalidInput::InvertedBounds(i) => {
                &&& i < self.n()
                &&& self.inverted(i as int)
                &&& forall|j: int| 0 <= j < i ==> !self.inverted(j)
            },
        }
    }

    /// `lo_i <= p_i <= hi_i` for every variable, wherever a bound applies.
    pub open spec fn feasible(self, p: Seq<u64>) -> bool {
        &&& p.len() == self.n()
        &&& forall|i: int|
            0 <= i < self.n() ==> spec_in_box(self.kinds[i], self.lo[i], self.hi[i], #[trigger] p[i])
    }

    /// The point `p` with every coordinate clamped into its box.
    pub open spec fn projected(self, p: Seq<u64>) -> Seq<u64> {
        Seq::new(p.len(), |i: int| spec_clamp(self.kinds[i], self.lo[i], self.hi[i], p[i]))
    }

    /// No variable has a bound.
    pub open spec fn unconstrained(self) -> bool {
        forall|i: int| 0 <= i < self.n() ==> #[trigger] self.kinds[i] == BoundKind::Unbounded
    }

    /// Every variable has both bounds.
    pub open spec fn boxed(self) -> bool {
        forall|i: int| 0 <= i < self.n() ==> #[trigger] self.kinds[i] == BoundKind::Both
    }

    /// The problem with another iterate in place of the current one.
    pub open spec fn with_iterate(self, x: Seq<u64>, f: u64, g: Seq<u64>) -> ProblemModel {
        ProblemModel { x, f, g, ..self }
    }

    /// The component of the projected gradient of variable `i` at the
    /// current iterate, as a magnitude.
    pub open spec fn projected_component(self, i: int) -> u64 {
        spec_projected_component(self.kinds[i], self.lo[i], self.hi[i], self.x[i], self.g[i])
    }

    /// The largest of the first `k` projected components, or zero for
    /// `k == 0`.  The components are magnitudes, and magnitudes are ordered
    /// as their patterns are; one that is NaN counts as the largest.
    pub open spec fn projected_norm_of(self, k: nat) -> u64
        decreases k,
    {
        if k == 0 {
            ZERO
        } else {
            let rest = self.projected_norm_of((k - 1) as nat);
            let c = self.projected_component(k - 1);
            if c > rest {
                c
            } else {
                rest
            }
        }
    }

    /// The infinity norm of the projected gradient at the current iterate.
    pub open spec fn projected_norm(self) -> u64 {
        self.projected_norm_of(self.n())
    }

    /// `r` is the largest projected component, or zero where there is no
    /// variable.
    pub open spec fn is_projected_norm(self, r: u64) -> bool {
        &&& forall|i: int| 0 <= i < self.n() ==> #[trigger] self.projected_component(i) <= r
        &&& self.n() == 0 ==> r == 0
        &&& self.n() > 0 ==> exists|i: int|
            0 <= i < self.n() && #[trigger] self.projected_component(i) == r
    }

    /// The problem after bounds were given for its first `bounds.len()`
    /// variables: each of them gets the kind that its pair classifies as and
    /// the values of the bounds that are present; everything else stays.
    pub open spec fn with_bounds(self, bounds: Seq<BoundPair>) -> ProblemModel {
        ProblemModel {
            lo: Seq::new(
                self.lo.len(),
                |i: int|
                    if i < bounds.len() && spec_present(bounds[i].0) {
                        bounds[i].0->0
                    } else {
                        self.lo[i]
                    },
            ),
            hi: Seq::new(
                self.hi.len(),
                |i: int|
                    if i < bounds.len() && spec_present(bounds[i].1) {
                        bounds[i].1->0
                    } else {
                        self.hi[i]
                    },
            ),
            kinds: Seq::new(
                self.kinds.len(),
                |i: int|
                    if i < bounds.len() {
                        BoundKind::spec_classify(bounds[i].0, bounds[i].1)
                    } else {
                        self.kinds[i]
                    },
            ),
            ..self
        }
    }
}

/// One component of the projected gradient, as a magnitude: zero for a
/// variable that sits at a bound while the descent direction, the negative
/// gradient, points out of the box there; the magnitude of the gradient's
/// component for every other variable.
pub open spec fn spec_projected_component(
    kind: BoundKind,
    lo: u64,
    hi: u64,
    x: u64,
    g: u64,
) -> u64 {
    if kind.spec_has_lower() && spec_le(x, lo) && spec_lt(ZERO, g) {
        ZERO
    } else if kind.spec_has_upper() && spec_le(hi, x) && spec_lt(g, ZERO) {
        ZERO
    } else {
        spec_magnitude(g)
    }
}

#[verifier::when_used_as_spec(spec_projected_component)]
pub fn projected_component(kind: BoundKind, lo: u64, hi: u64, x: u64, g: u64) -> (r: u64)
    ensures
        r == spec_projected_component(kind, lo, hi, x, g),
{
    if kind.has_lower() && le(x, lo) && lt(ZERO, g) {
        ZERO
    } else if kind.has_upper() && le(hi, x) && lt(g, ZERO) {
        ZERO
    } else {
        magnitude(g)
    }
}

/// The problem that `build` makes of a starting point: no bounds, and zero
/// for the objective value and for every gradient component.
pub open spec fn spec_built(x: Seq<u64>) -> ProblemModel {
    ProblemModel {
        x,
        g: Seq::new(x.len(), |i: int| 0u64),
        f: 0,
        lo: Seq::new(x.len(), |i: int| 0u64),
        hi: Seq::new(x.len(), |i: int| 0u64),
        kinds: Seq::new(x.len(), |i: int| BoundKind::Unbounded),
    }
}

/// A minimisation problem: the box and the current iterate.
pub struct LbfgsbProblem {
    x: Vec<u64>,
    g: Vec<u64>,
    f: u64,
    l: Vec<u64>,
    u: Vec<u64>,
    kinds: Vec<BoundKind>,
}

impl View for LbfgsbProblem {
    type V = ProblemModel;

    closed spec fn view(&self) -> ProblemModel {
        ProblemModel {
            x: self.x@,
            g: self.g@,
            f: self.f,
            lo: self.l@,
            hi: self.u@,
            kinds: self.kinds@,
        }
    }
}

impl LbfgsbProblem {
    /// The invariant of every problem that this module hands out.
    pub open spec fn wf(&self) -> bool {
        self@.wf()
    }

    /// A problem without bounds that starts at `x`.
    pub fn build(x: Vec<u64>) -> (problem: Self)
        ensures
            problem@ == spec_built(x@),
            problem.wf(),
    {
        let n: usize = x.len();
        let problem = LbfgsbProblem {
            x,
            g: vec![0u64; n],
            f: 0,
            l: vec![0u64; n],
            u: vec![0u64; n],
            kinds: vec![BoundKind::Unbounded; n],
        };
        assert(problem@.g =~= spec_built(problem@.x).g);
        assert(problem@.lo =~= spec_built(problem@.x).lo);
        assert(problem@.hi =~= spec_built(problem@.x).hi);
        assert(problem@.kinds =~= spec_built(problem@.x).kinds);
        problem
    }

    /// The number of variables.
    pub fn n(&self) -> (n: usize)
        ensures
            n == self@.n(),
    {
        self.x.len()
    }

    /// Gives bounds to the first `bounds.len()` variables, in order.  A
    /// bound counts as present when it is given and finite; each variable
    /// gets its kind from which of its two bounds are present, and takes
    /// the values of those.  The iterate and the other variables stay.
    pub fn set_bounds(&mut self, bounds: &[BoundPair])
        requires
            old(self).wf(),
            bounds@.len() <= old(self)@.n(),
        ensures
            final(self)@ == old(self)@.with_bounds(bounds@),
            final(self).wf(),
    {
        let mut i: usize = 0;
        while i < bounds.len()
            invariant
                i <= bounds@.len() <= old(self)@.n(),
                old(self).wf(),
                self.wf(),
                self.x@ == old(self).x@,
                self.g@ == old(self).g@,
                self.f == old(self).f,
                forall|j: int|
                    0 <= j < self.l@.len() ==> #[trigger] self.l@[j] == (if j < i && spec_present(
                        bounds@[j].0,
                    ) {
                        bounds@[j].0->0
                    } else {
                        old(self).l@[j]
                    }),
                forall|j: int|
                    0 <= j < self.u@.len() ==> #[trigger] self.u@[j] == (if j < i && spec_present(
                        bounds@[j].1,
                    ) {
                        bounds@[j].1->0
                    } else {
                        old(self).u@[j]
                    }),
                forall|j: int|
                    0 <= j < self.kinds@.len() ==> #[trigger] self.kinds@[j] == (if j < i {
                        BoundKind::spec_classify(bounds@[j].0, bounds@[j].1)
                    } else {
                        old(self).kinds@[j]
                    }),
            decreases bounds@.len() - i,
        {
            let (lower, upper) = bounds[i];
            let kind = BoundKind::classify(lower, upper);
            match lower {
                Some(v) => {
                    if is_finite(v) {
                        self.l.set(i, v);
                    }
                },
                None => {},
            }
            match upper {
                Some(v) => {
                    if is_finite(v) {
                        self.u.set(i, v);
                    }
                },
                None => {},
            }
            self.kinds.set(i, kind);
            i = i + 1;
        }
        assert(self@.lo =~= old(self)@.with_bounds(bounds@).lo);
        assert(self@.hi =~= old(self)@.with_bounds(bounds@).hi);
        assert(self@.kinds =~= old(self)@.with_bounds(bounds@).kinds);
    }

    /// The current point.
    pub fn x(&self) -> (x: &[u64])
        ensures
            x@ == self@.x,
    {
        self.x.as_slice()
    }

    /// The objective value at the current point.
    pub fn fx(&self) -> (f: u64)
        ensures
            f == self@.f,
    {
        self.f
    }

    /// The gradient at the current point.
    pub fn gx(&self) -> (g: &[u64])
        ensures
            g@ == self@.g,
    {
        self.g.as_slice()
    }

    /// The lower bounds; an entry means something only where the
    /// variable's kind has a lower bound.
    pub fn lower(&self) -> (lo: &[u64])
        ensures
            lo@ == self@.lo,
    {
        self.l.as_slice()
    }

    /// The upper bounds; an entry means something only where the
    /// variable's kind has an upper bound.
    pub fn upper(&self) -> (hi: &[u64])
        ensures
            hi@ == self@.hi,
    {
        self.u.as_slice()
    }

    /// The kind of each variable's bounds.
    pub fn kinds(&self) -> (kinds: &[BoundKind])
        ensures
            kinds@ == self@.kinds,
    {
        self.kinds.as_slice()
    }

    /// The kinds as the codes by which the numeric engine knows them.
    pub fn nbd(&self) -> (codes: Vec<i64>)
        ensures
            codes@ == self@.kinds.map_values(|k: BoundKind| k.spec_code()),
    {
        let mut codes: Vec<i64> = Vec::new();
        let mut i: usize = 0;
        while i < self.kinds.len()
            invariant
                i <= self.kinds@.len(),
                codes@.len() == i,
                forall|j: int| 0 <= j < i ==> #[trigger] codes@[j] == self.kinds@[j].spec_code(),
            decreases self.kinds@.len() - i,
        {
            codes.push(self.kinds[i].code());
            i = i + 1;
        }
        assert(codes@ =~= self@.kinds.map_values(|k: BoundKind| k.spec_code()));
        codes
    }

    /// Replaces the current iterate.
    pub fn set_iterate(&mut self, x: Vec<u64>, f: u64, g: Vec<u64>)
        requires
            old(self).wf(),
            x@.len() == old(self)@.n(),
            g@.len() == old(self)@.n(),
        ensures
            final(self)@ == old(self)@.with_iterate(x@, f, g@),
            final(self).wf(),
    {
        self.x = x;
        self.f = f;
        self.g = g;
    }

    /// Replaces the current point by its projection into the box.
    pub fn project(&mut self)
        requires
            old(self).wf(),
        ensures
            final(self)@ == old(self)@.with_iterate(
                old(self)@.projected(old(self)@.x),
                old(self)@.f,
                old(self)@.g,
            ),
            final(self).wf(),
            old(self)@.valid() ==> final(self)@.feasible(final(self)@.x),
    {
        let p = self.projected(self.x.as_slice());
        self.x = p;
    }

    /// Whether the problem can be minimised: `Err(Empty)` when there is no
    /// variable, else `Err(InvertedBounds(i))` for the first variable whose
    /// lower bound exceeds its upper bound, else `Ok`.
    pub fn validate(&self) -> (r: Result<(), InvalidInput>)
        requires
            self.wf(),
        ensures
            r is Ok <==> self@.valid(),
            r matches Err(e) ==> self@.refused_for(e),
    {
        let n: usize = self.x.len();
        if n == 0 {
            return Err(InvalidInput::Empty);
        }
        let mut i: usize = 0;
        while i < n
            invariant
                i <= n,
                n == self@.n(),
                self.wf(),
                forall|j: int| 0 <= j < i ==> !self@.inverted(j),
            decreases n - i,
        {
            if self.kinds[i] == BoundKind::Both && !le(self.l[i], self.u[i]) {
                assert(self@.inverted(i as int));
                return Err(InvalidInput::InvertedBounds(i));
            }
            i = i + 1;
        }
        Ok(())
    }

    /// Whether no variable has a bound.
    pub fn is_unconstrained(&self) -> (r: bool)
        requires
            self.wf(),
        ensures
            r == self@.unconstrained(),
    {
        let mut i: usize = 0;
        while i < self.kinds.len()
            invariant
                i <= self.kinds@.len(),
                self.wf(),
                forall|j: int| 0 <= j < i ==> #[trigger] self.kinds@[j] == BoundKind::Unbounded,
            decreases self.kinds@.len() - i,
        {
            if self.kinds[i] != BoundKind::Unbounded {
                assert(self@.kinds[i as int] != BoundKind::Unbounded);
                return false;
            }
            i = i + 1;
        }
        true
    }

    /// Whether every variable has both bounds.
    pub fn is_boxed(&self) -> (r: bool)
        requires
            self.wf(),
        ensures
            r == self@.boxed(),
    {
        let mut i: usize = 0;
        while i < self.kinds.len()
            invariant
                i <= self.kinds@.len(),
                self.wf(),
                forall|j: int| 0 <= j < i ==> #[trigger] self.kinds@[j] == BoundKind::Both,
            decreases self.kinds@.len() - i,
        {
            if self.kinds[i] != BoundKind::Both {
                assert(self@.kinds[i as int] != BoundKind::Both);
                return false;
            }
            i = i + 1;
        }
        true
    }

    /// Whether `p` lies in the box.
    pub fn is_feasible(&self, p: &[u64]) -> (r: bool)
        requires
            self.wf(),
        ensures
            r == self@.feasible(p@),
    {
        let n: usize = self.x.len();
        if p.len() != n {
            return false;
        }
        let mut i: usize = 0;
        while i < n
            invariant
                i <= n,
                n == self@.n(),
                p@.len() == n,
                self.wf(),
                forall|j: int|
                    0 <= j < i ==> spec_in_box(
                        self@.kinds[j],
                        self@.lo[j],
                        self@.hi[j],
                        #[trigger] p@[j],
                    ),
            decreases n - i,
        {
            if !in_box(self.kinds[i], self.l[i], self.u[i], p[i]) {
                return false;
            }
            i = i + 1;
        }
        true
    }

    /// The point `p` with every coordinate clamped into its box.  Where
    /// the problem is valid the result lies in the box, whatever `p` was; a
    /// point of the box is returned as it is.
    pub fn projected(&self, p: &[u64]) -> (q: Vec<u64>)
        requires
            self.wf(),
            p@.len() == self@.n(),
        ensures
            q@ == self@.projected(p@),
            self@.valid() ==> self@.feasible(q@),
            self@.feasible(p@) ==> q@ == p@,
            self@.unconstrained() ==> q@ == p@,
    {
        let n: usize = self.x.len();
        let mut q: Vec<u64> = Vec::new();
        let mut i: usize = 0;
        while i < n
            invariant
                i <= n,
                n == self@.n(),
                p@.len() == n,
                self.wf(),
                q@.len() == i,
                forall|j: int|
                    0 <= j < i ==> #[trigger] q@[j] == spec_clamp(
                        self@.kinds[j],
                        self@.lo[j],
                        self@.hi[j],
                        p@[j],
                    ),
            decreases n - i,
        {
            q.push(clamp(self.kinds[i], self.l[i], self.u[i], p[i]));
            i = i + 1;
        }
        proof {
            assert(q@ =~= self@.projected(p@));
            lemma_projection(self@, p@);
        }
        q
    }

    /// The largest component of the projected gradient at the current
    /// iterate, as a magnitude; zero where there is no variable.
    pub fn projected_gradient_norm(&self) -> (r: u64)
        requires
            self.wf(),
        ensures
            r == self@.projected_norm(),
            self@.is_projected_norm(r),
    {
        let n: usize = self.x.len();
        let mut r: u64 = ZERO;
        let mut i: usize = 0;
        while i < n
            invariant
                i <= n,
                n == self@.n(),
                self.wf(),
                r == self@.projected_norm_of(i as nat),
            decreases n - i,
        {
            let c: u64 = projected_component(
                self.kinds[i],
                self.l[i],
                self.u[i],
                self.x[i],
                self.g[i],
            );
            assert(c == self@.projected_component(i as int));
            if c > r {
                r = c;
            }
            i = i + 1;
        }
        proof {
            lemma_norm_is_largest(self@, n as nat);
        }
        r
    }
}

/// The largest of the first `k` projected components is one of them, and
/// none of them exceeds it.
pub proof fn lemma_norm_is_largest(problem: ProblemModel, k: nat)
    ensures
        forall|i: int|
            0 <= i < k ==> #[trigger] problem.projected_component(i) <= problem.projected_norm_of(k),
        k == 0 ==> problem.projected_norm_of(k) == 0,
        k > 0 ==> exists|i: int|
            0 <= i < k && #[trigger] problem.projected_component(i) == problem.projected_norm_of(k),
        k == problem.n() ==> problem.is_projected_norm(problem.projected_norm()),
    decreases k,
{
    if k > 0 {
        lemma_norm_is_largest(problem, (k - 1) as nat);
        let rest = problem.projected_norm_of((k - 1) as nat);
        let c = problem.projected_component(k - 1);
        if c > rest || k == 1 {
            assert(problem.projected_component(k - 1) == problem.projected_norm_of(k));
        } else {
            let j = choose|j: int|
                0 <= j < k - 1 && #[trigger] problem.projected_component(j) == rest;
            assert(problem.projected_component(j) == problem.projected_norm_of(k));
        }
    }
}

/// Projection puts every point into the box of a valid problem, and moves
/// no point that is in the box already; without bounds it moves nothing.
pub proof fn lemma_projection(problem: ProblemModel, p: Seq<u64>)
    requires
        problem.wf(),
        p.len() == problem.n(),
    ensures
        problem.valid() ==> problem.feasible(problem.projected(p)),
        problem.feasible(p) ==> problem.projected(p) == p,
        problem.unconstrained() ==> problem.projected(p) == p,
        problem.valid() ==> problem.projected(problem.projected(p)) == problem.projected(p),
{
    let q = problem.projected(p);
    if problem.valid() {
        assert forall|i: int| 0 <= i < problem.n() implies spec_in_box(
            problem.kinds[i],
            problem.lo[i],
            problem.hi[i],
            #[trigger] q[i],
        ) by {
            assert(!problem.inverted(i));
            assert(spec_admissible(problem.kinds[i], problem.lo[i], problem.hi[i]));
        }
    }
    if problem.feasible(p) {
        assert(q =~= p);
    }
    if problem.unconstrained() {
        assert(q =~= p);
    }
    if problem.valid() {
        assert(problem.projected(q) =~= q);
    }
}

/// Without bounds every component of the projected gradient is the
/// magnitude of the gradient's component: the norm is that of the gradient
/// itself.
pub proof fn lemma_unconstrained_norm(problem: ProblemModel)
    requires
        problem.wf(),
        problem.unconstrained(),
    ensures
        forall|i: int|
            0 <= i < problem.n() ==> #[trigger] problem.projected_component(i) == spec_magnitude(
                problem.g[i],
            ),
{
    assert forall|i: int| 0 <= i < problem.n() implies #[trigger] problem.projected_component(i)
        == spec_magnitude(problem.g[i]) by {
        assert(problem.kinds[i] == BoundKind::Unbounded);
    }
}

/// Whether a problem is valid depends on its box alone.
pub proof fn lemma_valid_same_box(a: ProblemModel, b: ProblemModel)
    requires
        a.valid(),
        b.n() == a.n(),
        b.kinds == a.kinds,
        b.lo == a.lo,
        b.hi == a.hi,
    ensures
        b.valid(),
{
    assert forall|i: int| 0 <= i < b.n() implies !b.inverted(i) by {
        assert(!a.inverted(i));
    }
}

/// Where the gradient is finite, the norm of the projected gradient is a
/// finite double that is not negative, and no projected component exceeds
/// it.
pub proof fn lemma_projected_norm(problem: ProblemModel, r: u64)
    requires
        problem.wf(),
        spec_all_finite(problem.g),
        problem.is_projected_norm(r),
    ensures
        spec_is_finite(r),
        spec_le(ZERO, r),
        forall|i: int|
            0 <= i < problem.n() ==> spec_le(#[trigger] problem.projected_component(i), r),
{
    if problem.n() > 0 {
        let k = choose|k: int| 0 <= k < problem.n() && #[trigger] problem.projected_component(k) == r;
        assert(spec_is_finite(problem.g[k]));
    }
    assert forall|i: int| 0 <= i < problem.n() implies spec_le(
        #[trigger] problem.projected_component(i),
        r,
    ) by {
        assert(spec_is_finite(problem.g[i]));
    }
}

} // verus!
