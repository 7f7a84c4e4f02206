use vstd::prelude::*;

verus! {

/// Configuration for the iterative solvers, constructed once by the caller
/// and passed by reference into a solver call, never mutated.
pub struct IterOptions<S> {
    /// The tolerance that the solution is enforced to be within. For
    /// conjugate gradient type problems a value proportional to the norm
    /// of the right-hand side is suggested.
    pub sol_tol: S,
    /// Hard cap on the iteration count. Conjugate gradient type solvers
    /// have an upper bound of solving the system within as many steps as
    /// the matrix has rows; in practice the cap is hardly ever reached.
    pub iter_limit: u32,
    /// Restart interval, reserved for restart-based methods such as GMRES
    /// and unused by the solvers here.
    pub restart_iter: u32,
}

} // verus!
