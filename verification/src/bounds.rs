//! The kinds of bounds on one variable, and the projection of one
//! coordinate into its box.

use vstd::prelude::*;
use crate::ieee::{is_finite, le, spec_is_finite, spec_le};

verus! {

/// Which of its two bounds a variable has.
#[derive(Clone, Copy, PartialEq, Eq, Debug, Structural)]
pub enum BoundKind {
    /// No bound at all.
    Unbounded,
    /// A lower bound and no upper bound.
    LowerOnly,
    /// A lower and an upper bound.
    Both,
    /// An upper bound and no lower bound.
    UpperOnly,
}

/// A bound is present when a value is given and that value is finite.
pub open spec fn spec_present(bound: Option<u64>) -> bool {
    bound matches Some(v) && spec_is_finite(v)
}

#[verifier::when_used_as_spec(spec_present)]
pub fn present(bound: Option<u64>) -> (r: bool)
    ensures
        r == spec_present(bound),
{
    match bound {
        Some(v) => is_finite(v),
        None => false,
    }
}

impl BoundKind {
    pub open spec fn spec_has_lower(self) -> bool {
        self == BoundKind::LowerOnly || self == BoundKind::Both
    }

    pub open spec fn spec_has_upper(self) -> bool {
        self == BoundKind::UpperOnly || self == BoundKind::Both
    }

    /// The kind that has exactly the given bounds.
    pub open spec fn spec_of(lower: bool, upper: bool) -> BoundKind {
        if lower && upper {
            BoundKind::Both
        } else if lower {
            BoundKind::LowerOnly
        } else if upper {
            BoundKind::UpperOnly
        } else {
            BoundKind::Unbounded
        }
    }

    pub open spec fn spec_classify(lower: Option<u64>, upper: Option<u64>) -> BoundKind {
        Self::spec_of(spec_present(lower), spec_present(upper))
    }

    /// The integer by which the numeric engine knows the kind.
    pub open spec fn spec_code(self) -> i64 {
        match self {
            BoundKind::Unbounded => 0,
            BoundKind::LowerOnly => 1,
            BoundKind::Both => 2,
            BoundKind::UpperOnly => 3,
        }
    }

    #[verifier::when_used_as_spec(spec_has_lower)]
    pub fn has_lower(self) -> (r: bool)
        ensures
            r == self.spec_has_lower(),
    {
        match self {
            BoundKind::LowerOnly | BoundKind::Both => true,
            _ => false,
        }
    }

    #[verifier::when_used_as_spec(spec_has_upper)]
    pub fn has_upper(self) -> (r: bool)
        ensures
            r == self.spec_has_upper(),
    {
        match self {
            BoundKind::UpperOnly | BoundKind::Both => true,
            _ => false,
        }
    }

    /// Classifies a variable from which of its bounds are present and
    /// finite; the values themselves play no part.
    #[verifier::when_used_as_spec(spec_classify)]
    pub fn classify(lower: Option<u64>, upper: Option<u64>) -> (kind: BoundKind)
        ensures
            kind == Self::spec_classify(lower, upper),
            kind.spec_has_lower() == spec_present(lower),
            kind.spec_has_upper() == spec_present(upper),
    {
        let has_lower = present(lower);
        let has_upper = present(upper);
        if has_lower && has_upper {
            BoundKind::Both
        } else if has_lower {
            BoundKind::LowerOnly
        } else if has_upper {
            BoundKind::UpperOnly
        } else {
            BoundKind::Unbounded
        }
    }

    #[verifier::when_used_as_spec(spec_code)]
    pub fn code(self) -> (c: i64)
        ensures
            c == self.spec_code(),
            0 <= c <= 3,
    {
        match self {
            BoundKind::Unbounded => 0,
            BoundKind::LowerOnly => 1,
            BoundKind::Both => 2,
            BoundKind::UpperOnly => 3,
        }
    }

    /// The kind with the given code, if there is one.
    pub fn from_code(code: i64) -> (kind: Option<BoundKind>)
        ensures
            0 <= code <= 3 <==> kind is Some,
            kind matches Some(k) ==> k.spec_code() == code,
    {
        if code == 0 {
            Some(BoundKind::Unbounded)
        } else if code == 1 {
            Some(BoundKind::LowerOnly)
        } else if code == 2 {
            Some(BoundKind::Both)
        } else if code == 3 {
            Some(BoundKind::UpperOnly)
        } else {
            None
        }
    }
}

/// The bounds of one variable are usable: each bound that the kind has is
/// finite, and a lower bound does not exceed the upper bound.
pub open spec fn spec_admissible(kind: BoundKind, lo: u64, hi: u64) -> bool {
    &&& kind.spec_has_lower() ==> spec_is_finite(lo)
    &&& kind.spec_has_upper() ==> spec_is_finite(hi)
    &&& kind == BoundKind::Both ==> spec_le(lo, hi)
}

/// `lo <= v <= hi`, as far as the kind has these bounds.  A NaN is in no
/// box but that of an unbounded variable.
pub open spec fn spec_in_box(kind: BoundKind, lo: u64, hi: u64, v: u64) -> bool {
    &&& kind.spec_has_lower() ==> spec_le(lo, v)
    &&& kind.spec_has_upper() ==> spec_le(v, hi)
}

/// The coordinate moved to the nearest point of its box: a value that is
/// not at or above the lower bound becomes that bound, one that is not at
/// or below the upper bound becomes that bound, any other stays.
pub open spec fn spec_clamp(kind: BoundKind, lo: u64, hi: u64, v: u64) -> u64 {
    if kind.spec_has_lower() && !spec_le(lo, v) {
        lo
    } else if kind.spec_has_upper() && !spec_le(v, hi) {
        hi
    } else {
        v
    }
}

#[verifier::when_used_as_spec(spec_in_box)]
pub fn in_box(kind: BoundKind, lo: u64, hi: u64, v: u64) -> (r: bool)
    ensures
        r == spec_in_box(kind, lo, hi, v),
{
    (!kind.has_lower() || le(lo, v)) && (!kind.has_upper() || le(v, hi))
}

#[verifier::when_used_as_spec(spec_clamp)]
pub fn clamp(kind: BoundKind, lo: u64, hi: u64, v: u64) -> (r: u64)
    ensures
        r == spec_clamp(kind, lo, hi, v),
        spec_admissible(kind, lo, hi) ==> spec_in_box(kind, lo, hi, r),
        spec_in_box(kind, lo, hi, v) ==> r == v,
        kind == BoundKind::Unbounded ==> r == v,
{
    if kind.has_lower() && !le(lo, v) {
        lo
    } else if kind.has_upper() && !le(v, hi) {
        hi
    } else {
        v
    }
}

} // verus!
