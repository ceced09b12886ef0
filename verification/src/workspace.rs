//! The scratch storage of the numeric engine, sized from the number of
//! variables and the number of correction pairs.

use vstd::prelude::*;

verus! {

/// How many doubles the engine's working array holds for `n` variables and
/// `m` correction pairs.
pub open spec fn spec_wa_len(n: nat, m: nat) -> nat {
    2 * (m * n) + 5 * n + 11 * (m * m) + 8 * m
}

/// How many integers the engine's integer working array holds.
pub open spec fn spec_iwa_len(n: nat) -> nat {
    3 * n
}

/// The length of the working array of doubles, or `None` when it does not
/// fit the machine's word.
pub fn wa_len(n: usize, m: usize) -> (len: Option<usize>)
    ensures
        len matches Some(v) ==> v == spec_wa_len(n as nat, m as nat),
        len is None <==> spec_wa_len(n as nat, m as nat) > usize::MAX,
{
    proof {
        assert(0 <= m * n && 0 <= m * m) by (nonlinear_arith)
            requires
                0 <= m,
                0 <= n,
        ;
    }
    let mn: usize = match m.checked_mul(n) {
        Some(v) => v,
        None => return None,
    };
    let pairs: usize = match mn.checked_mul(2) {
        Some(v) => v,
        None => return None,
    };
    let vectors: usize = match n.checked_mul(5) {
        Some(v) => v,
        None => return None,
    };
    let mm: usize = match m.checked_mul(m) {
        Some(v) => v,
        None => return None,
    };
    let small: usize = match mm.checked_mul(11) {
        Some(v) => v,
        None => return None,
    };
    let rest: usize = match m.checked_mul(8) {
        Some(v) => v,
        None => return None,
    };
    let a: usize = match pairs.checked_add(vectors) {
        Some(v) => v,
        None => return None,
    };
    let b: usize = match a.checked_add(small) {
        Some(v) => v,
        None => return None,
    };
    b.checked_add(rest)
}

/// The length of the integer working array, or `None` when it does not fit
/// the machine's word.
pub fn iwa_len(n: usize) -> (len: Option<usize>)
    ensures
        len matches Some(v) ==> v == spec_iwa_len(n as nat),
        len is None <==> spec_iwa_len(n as nat) > usize::MAX,
{
    n.checked_mul(3)
}

/// What scratch storage holds.
pub struct WorkspaceModel {
    pub wa: Seq<u64>,
    pub iwa: Seq<i64>,
    pub csave: Seq<i64>,
    pub dsave: Seq<u64>,
    pub isave: Seq<i64>,
    pub lsave: Seq<i64>,
}

impl WorkspaceModel {
    /// The two working arrays have the lengths that `n` variables and `m`
    /// correction pairs call for.
    pub open spec fn fits(self, n: nat, m: nat) -> bool {
        &&& self.wa.len() == spec_wa_len(n, m)
        &&& self.iwa.len() == spec_iwa_len(n)
    }

    /// The scratch storage for `n` variables and `m` correction pairs in
    /// which every cell holds zero.
    pub open spec fn zeroed(n: nat, m: nat) -> WorkspaceModel {
        WorkspaceModel {
            wa: Seq::new(spec_wa_len(n, m), |i: int| 0u64),
            iwa: Seq::new(spec_iwa_len(n), |i: int| 0i64),
            csave: Seq::new(60, |i: int| 0i64),
            dsave: Seq::new(29, |i: int| 0u64),
            isave: Seq::new(44, |i: int| 0i64),
            lsave: Seq::new(4, |i: int| 0i64),
        }
    }
}

/// The scratch storage of one session.  It is allocated once, with the
/// lengths that the engine needs; the engine alone reads and writes it.
pub struct Workspace {
    /// Working array of doubles.
    pub wa: Vec<u64>,
    /// Working array of integers.
    pub iwa: Vec<i64>,
    /// The engine's saved characters.
    pub csave: [i64; 60],
    /// The engine's saved doubles.
    pub dsave: [u64; 29],
    /// The engine's saved integers.
    pub isave: [i64; 44],
    /// The engine's saved flags.
    pub lsave: [i64; 4],
}

impl View for Workspace {
    type V = WorkspaceModel;

    open spec fn view(&self) -> WorkspaceModel {
        WorkspaceModel {
            wa: self.wa@,
            iwa: self.iwa@,
            csave: self.csave@,
            dsave: self.dsave@,
            isave: self.isave@,
            lsave: self.lsave@,
        }
    }
}

impl Workspace {
    /// Every cell holds zero.
    pub open spec fn spec_is_zeroed(self) -> bool {
        &&& forall|i: int| 0 <= i < self.wa@.len() ==> #[trigger] self.wa@[i] == 0
        &&& forall|i: int| 0 <= i < self.iwa@.len() ==> #[trigger] self.iwa@[i] == 0
        &&& forall|i: int| 0 <= i < 60 ==> #[trigger] self.csave@[i] == 0
        &&& forall|i: int| 0 <= i < 29 ==> #[trigger] self.dsave@[i] == 0
        &&& forall|i: int| 0 <= i < 44 ==> #[trigger] self.isave@[i] == 0
        &&& forall|i: int| 0 <= i < 4 ==> #[trigger] self.lsave@[i] == 0
    }

    /// The arrays have the lengths that `n` variables and `m` correction
    /// pairs call for.
    pub open spec fn spec_fits(self, n: nat, m: nat) -> bool {
        &&& self.wa@.len() == spec_wa_len(n, m)
        &&& self.iwa@.len() == spec_iwa_len(n)
    }

    /// Zeroed scratch storage for `n` variables and `m` correction pairs,
    /// or `None` when a length does not fit the machine's word.
    pub fn new(n: usize, m: usize) -> (workspace: Option<Workspace>)
        ensures
            workspace is Some <==> spec_wa_len(n as nat, m as nat) <= usize::MAX && spec_iwa_len(
                n as nat,
            ) <= usize::MAX,
            workspace matches Some(w) ==> w.spec_fits(n as nat, m as nat) && w.spec_is_zeroed(),
            workspace matches Some(w) ==> w@ == WorkspaceModel::zeroed(n as nat, m as nat),
    {
        let wa_len: usize = match wa_len(n, m) {
            Some(v) => v,
            None => return None,
        };
        let iwa_len: usize = match iwa_len(n) {
            Some(v) => v,
            None => return None,
        };
        let w = Workspace {
            wa: vec![0u64; wa_len],
            iwa: vec![0i64; iwa_len],
            csave: [0i64; 60],
            dsave: [0u64; 29],
            isave: [0i64; 44],
            lsave: [0i64; 4],
        };
        proof {
            let z = WorkspaceModel::zeroed(n as nat, m as nat);
            assert(w@.wa =~= z.wa);
            assert(w@.iwa =~= z.iwa);
            assert(w@.csave =~= z.csave);
            assert(w@.dsave =~= z.dsave);
            assert(w@.isave =~= z.isave);
            assert(w@.lsave =~= z.lsave);
        }
        Some(w)
    }
}

} // verus!
