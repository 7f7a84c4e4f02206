//! Krylov-subspace iterative solvers for square linear systems `A * x = b`.
//!
//! The solvers are generic over the scalar field: a caller supplies a type
//! implementing [`scalar::Scalar`] (typically a thin wrapper over a machine
//! float) together with its arithmetic, and the solvers run the conjugate
//! gradient recurrences over it. Each solver's contract pins down, step by
//! step, the exact algebraic recurrence it performs and the exact dimension
//! checks it makes before touching the iterate.

pub mod scalar;
pub mod linalg;
pub mod options;
pub mod iter_solvers;
pub mod precond_iter_solvers;
