//! The options of the method.

use vstd::prelude::*;

verus! {

/// The default number of correction pairs.
pub const DEFAULT_M: usize = 5;

/// The double 1e7, the default of `factr`.
pub const DEFAULT_FACTR: u64 = 0x4163_12d0_0000_0000;

/// The double 1e-5, the default of `pgtol`.
pub const DEFAULT_PGTOL: u64 = 0x3ee4_f8b5_88e3_68f1;

/// The default of `iprint`: the engine prints nothing.
pub const DEFAULT_IPRINT: i64 = -1;

/// The options of the method.  Every value is accepted: a tolerance that
/// is zero or negative means that its criterion never ends the iteration.
#[derive(Clone, Copy, Debug)]
pub struct LbfgsbParameter {
    /// How many correction pairs the curvature model keeps at most.  With
    /// 0 the model is a scaled identity.
    pub m: usize,
    /// A double.  The iteration ends when the relative decrease of the
    /// objective is at most `factr` times the machine precision.
    pub factr: u64,
    /// A double.  The iteration ends when the largest component of the
    /// projected gradient is at most `pgtol`.
    pub pgtol: u64,
    /// How much the engine prints; negative for nothing.
    pub iprint: i64,
}

/// The options that are used where none are given: five correction pairs,
/// `factr` 1e7, `pgtol` 1e-5, and no printing.
pub open spec fn spec_default() -> LbfgsbParameter {
    LbfgsbParameter {
        m: DEFAULT_M,
        factr: DEFAULT_FACTR,
        pgtol: DEFAULT_PGTOL,
        iprint: DEFAULT_IPRINT,
    }
}

impl Default for LbfgsbParameter {
    fn default() -> (param: Self)
        ensures
            param == spec_default(),
    {
        LbfgsbParameter {
            m: DEFAULT_M,
            factr: DEFAULT_FACTR,
            pgtol: DEFAULT_PGTOL,
            iprint: DEFAULT_IPRINT,
        }
    }
}

} // verus!
