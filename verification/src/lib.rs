//! Verified driver for bound-constrained limited-memory quasi-Newton
//! minimisation (L-BFGS-B).
//!
//! The numeric engine and the objective are outside collaborators.  This
//! library owns what can be decided without arithmetic on doubles: the
//! kinds of bounds and the projection into the box, the sizes of the
//! scratch storage, the norm of the projected gradient, and the task
//! protocol that lets engine and evaluator take turns.
//!
//! Whatever the collaborators hand back, a session keeps its promises,
//! each proved in `session`: every point it holds once it has started lies
//! in the box; the objective values of the iterates it accepts never rise,
//! and a converged session holds the iterate it accepted last; a failed
//! evaluation leaves the iterate of the latest valid one in place; and no
//! step touches the options, the box or the scratch storage.
//!
//! A double is held as its IEEE-754 binary64 bit pattern in a `u64`; the
//! module `ieee` says what such a pattern means.

pub mod bounds;
pub mod ieee;
pub mod param;
pub mod problem;
pub mod session;
pub mod state;
pub mod task;
pub mod workspace;

pub use crate::param::LbfgsbParameter;
pub use crate::problem::LbfgsbProblem;
pub use crate::state::lbfgsb;
pub use crate::state::LbfgsbState;
pub use crate::task::is_fg;
