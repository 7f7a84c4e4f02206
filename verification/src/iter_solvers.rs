//! Conjugate gradient solvers for square systems `A * x = b`: the classical
//! method for symmetric `A`, and the two normal-equation variants (CGNR and
//! CGNE) that extend it to nonsymmetric `A`.
//!
//! Each solver validates the dimensions of its inputs, then iterates until
//! the residual norm drops below the tolerance or the iteration cap is
//! reached, returning the final residual norm as a diagnostic the caller
//! must check against its own tolerance. The contract of each solver states
//! the exact recurrence it runs, as a specification-level iteration over
//! the abstract scalar operations.

use vstd::prelude::*;

use crate::linalg::{
    axpy, dot, is_rectangular, mat_view, matvec, spec_axpy, spec_dot, spec_matvec, spec_ncols,
    spec_vec_sub, spec_vecmat, update_direction, vec_copy, vec_sub, vecmat,
};
use crate::options::IterOptions;
use crate::scalar::Scalar;

verus! {

/// A dimension mismatch found before any iteration, reporting the
/// offending dimensions. Such a mismatch is caller misuse: the solver
/// refuses the call without touching the iterate.
#[derive(Clone, Copy, Debug, PartialEq, Eq)]
pub enum SolverError {
    /// The solution vector and the right-hand side differ in length.
    MismatchedVectors { x_len: usize, b_len: usize },
    /// The matrix has differing row and column counts.
    NotSquare { rows: usize, cols: usize },
    /// The right-hand side's length differs from the matrix's row count.
    MismatchedRhs { b_len: usize, rows: usize },
    /// The preconditioner matrix has differing row and column counts.
    PrecondNotSquare { rows: usize, cols: usize },
    /// The preconditioner's shape differs from the system matrix's.
    PrecondMismatched { p_rows: usize, p_cols: usize, a_rows: usize, a_cols: usize },
}

/// The dimension checks every solver makes, in the order it makes them:
/// the first mismatch found is the error reported.
pub open spec fn spec_check_dims<S>(a: Seq<Seq<S>>, x: Seq<S>, b: Seq<S>) -> Result<
    (),
    SolverError,
> {
    if b.len() != x.len() {
        Err(SolverError::MismatchedVectors { x_len: x.len() as usize, b_len: b.len() as usize })
    } else if a.len() != spec_ncols(a) {
        Err(
            SolverError::NotSquare {
                rows: a.len() as usize,
                cols: spec_ncols(a) as usize,
            },
        )
    } else if b.len() != a.len() {
        Err(SolverError::MismatchedRhs { b_len: b.len() as usize, rows: a.len() as usize })
    } else {
        Ok(())
    }
}

/// One run of the conjugate gradient iteration from the state at a loop
/// head, carrying the iterate `x`, the residual `r`, the search direction
/// `p` and the residual inner product `rtr = r . r`. `fuel` is the number
/// of iterations the cap still allows; the result is the final iterate and
/// the reported residual norm.
pub open spec fn spec_cg_loop<S: Scalar>(
    a: Seq<Seq<S>>,
    tol: S,
    x: Seq<S>,
    r: Seq<S>,
    p: Seq<S>,
    rtr: S,
    fuel: nat,
) -> (Seq<S>, S)
    decreases fuel,
{
    if fuel == 0 {
        (x, rtr.sp_sqrt())
    } else {
        let w = spec_matvec(a, p);
        let denom = spec_dot(p, w);
        let mu = rtr.sp_div(denom);
        let x1 = spec_axpy(x, mu.sp_neg(), p);
        let r1 = spec_axpy(r, mu.sp_neg(), w);
        let rtr1 = spec_dot(r1, r1);
        let err = rtr1.sp_sqrt();
        if err.sp_abs().sp_lt(tol) {
            (x1, err)
        } else {
            let tau = rtr1.sp_div(rtr);
            let p1 = spec_axpy(r1, tau, p);
            spec_cg_loop(a, tol, x1, r1, p1, rtr1, (fuel - 1) as nat)
        }
    }
}

/// What `cg_solver` computes on dimensionally valid input: the final
/// iterate and residual norm of the conjugate gradient iteration started
/// from `x0` with residual `r0 = A * x0 - b` and direction `p0 = r0`.
pub open spec fn spec_cg_solve<S: Scalar>(
    a: Seq<Seq<S>>,
    x0: Seq<S>,
    b: Seq<S>,
    tol: S,
    fuel: nat,
) -> (Seq<S>, S) {
    let r0 = spec_vec_sub(spec_matvec(a, x0), b);
    spec_cg_loop(a, tol, x0, r0, r0, spec_dot(r0, r0), fuel)
}

/// One run of the CGNR iteration (conjugate gradient on the normal
/// equations, residual form) from a loop-head state, carrying the iterate
/// `x`, the original-space residual `r`, the search direction `p` and the
/// transformed-residual inner product `ztz = z . z` with `z = r^T A`. The
/// step length divides by `w . w` for `w = A * p`, while the convergence
/// test uses the original-space residual norm.
pub open spec fn spec_cgnr_loop<S: Scalar>(
    a: Seq<Seq<S>>,
    tol: S,
    x: Seq<S>,
    r: Seq<S>,
    p: Seq<S>,
    ztz: S,
    fuel: nat,
) -> (Seq<S>, S)
    decreases fuel,
{
    if fuel == 0 {
        (x, spec_dot(r, r).sp_sqrt())
    } else {
        let w = spec_matvec(a, p);
        let denom = spec_dot(w, w);
        let mu = ztz.sp_div(denom);
        let x1 = spec_axpy(x, mu.sp_neg(), p);
        let r1 = spec_axpy(r, mu.sp_neg(), w);
        let err = spec_dot(r1, r1).sp_sqrt();
        if err.sp_abs().sp_lt(tol) {
            (x1, err)
        } else {
            let z1 = spec_vecmat(r1, a);
            let ztz1 = spec_dot(z1, z1);
            let tau = ztz1.sp_div(ztz);
            let p1 = spec_axpy(z1, tau, p);
            spec_cgnr_loop(a, tol, x1, r1, p1, ztz1, (fuel - 1) as nat)
        }
    }
}

/// What `cgnr_solver` computes on dimensionally valid input: the CGNR
/// iteration started from `x0` with `r0 = A * x0 - b`, `z0 = r0^T A` and
/// `p0 = z0`.
pub open spec fn spec_cgnr_solve<S: Scalar>(
    a: Seq<Seq<S>>,
    x0: Seq<S>,
    b: Seq<S>,
    tol: S,
    fuel: nat,
) -> (Seq<S>, S) {
    let r0 = spec_vec_sub(spec_matvec(a, x0), b);
    let z0 = spec_vecmat(r0, a);
    spec_cgnr_loop(a, tol, x0, r0, z0, spec_dot(z0, z0), fuel)
}

/// One run of the CGNE iteration (conjugate gradient on the normal
/// equations, error form) from a loop-head state, carrying the iterate
/// `x`, the residual `r`, the search direction `p` and `rtr = r . r`. The
/// step length divides by `p . p`, which distinguishes CGNE from CGNR; the
/// direction coefficient is the ratio of successive residual inner
/// products.
pub open spec fn spec_cgne_loop<S: Scalar>(
    a: Seq<Seq<S>>,
    tol: S,
    x: Seq<S>,
    r: Seq<S>,
    p: Seq<S>,
    rtr: S,
    fuel: nat,
) -> (Seq<S>, S)
    decreases fuel,
{
    if fuel == 0 {
        (x, rtr.sp_sqrt())
    } else {
        let w = spec_matvec(a, p);
        let denom = spec_dot(p, p);
        let mu = rtr.sp_div(denom);
        let x1 = spec_axpy(x, mu.sp_neg(), p);
        let r1 = spec_axpy(r, mu.sp_neg(), w);
        let rtr1 = spec_dot(r1, r1);
        let err = rtr1.sp_sqrt();
        if err.sp_abs().sp_lt(tol) {
            (x1, err)
        } else {
            let z1 = spec_vecmat(r1, a);
            let tau = rtr1.sp_div(rtr);
            let p1 = spec_axpy(z1, tau, p);
            spec_cgne_loop(a, tol, x1, r1, p1, rtr1, (fuel - 1) as nat)
        }
    }
}

/// What `cgne_solver` computes on dimensionally valid input: the CGNE
/// iteration started from `x0` with `r0 = A * x0 - b`, `z0 = r0^T A` and
/// `p0 = z0`.
pub open spec fn spec_cgne_solve<S: Scalar>(
    a: Seq<Seq<S>>,
    x0: Seq<S>,
    b: Seq<S>,
    tol: S,
    fuel: nat,
) -> (Seq<S>, S) {
    let r0 = spec_vec_sub(spec_matvec(a, x0), b);
    let z0 = spec_vecmat(r0, a);
    spec_cgne_loop(a, tol, x0, r0, z0, spec_dot(r0, r0), fuel)
}

/// A conjugate gradient solver used to iteratively solve a symmetric
/// `A x = b` type problem.
///
/// `a_mat` must be a square matrix, and symmetric for the method to be
/// meaningful; `x_vec` carries the initial guess in and the approximate
/// solution out; `b_vec` is the right-hand side; `opt` carries the
/// tolerance and the iteration cap. The returned scalar is the final
/// residual norm: a diagnostic, which the caller should check against its
/// own tolerance. On a dimension mismatch the solver reports the offending
/// dimensions and leaves `x_vec` untouched.
pub fn cg_solver<S: Scalar>(
    a_mat: &Vec<Vec<S>>,
    x_vec: &mut Vec<S>,
    b_vec: &Vec<S>,
    opt: &IterOptions<S>,
) -> (res: Result<S, SolverError>)
    requires
        is_rectangular(mat_view(a_mat@)),
    ensures
        match spec_check_dims(mat_view(a_mat@), old(x_vec)@, b_vec@) {
            Ok(_) => ({
                let sol = spec_cg_solve(
                    mat_view(a_mat@),
                    old(x_vec)@,
                    b_vec@,
                    opt.sol_tol,
                    opt.iter_limit as nat,
                );
                res == Ok::<S, SolverError>(sol.1) && final(x_vec)@ == sol.0
            }),
            Err(e) => res == Err::<S, SolverError>(e) && final(x_vec)@ == old(x_vec)@,
        },
{
    let ndim_x: usize = x_vec.len();
    let ndim_b: usize = b_vec.len();
    let nrows_a: usize = a_mat.len();
    let ncols_a: usize = if a_mat.len() == 0 {
        0
    } else {
        a_mat[0].len()
    };
    let ghost m = mat_view(a_mat@);
    proof {
        if a_mat@.len() > 0 {
            assert(m[0] == a_mat@[0]@);
        }
        assert(ncols_a == spec_ncols(m));
    }

    if ndim_b != ndim_x {
        return Err(SolverError::MismatchedVectors { x_len: ndim_x, b_len: ndim_b });
    }
    if nrows_a != ncols_a {
        return Err(SolverError::NotSquare { rows: nrows_a, cols: ncols_a });
    }
    if ndim_b != nrows_a {
        return Err(SolverError::MismatchedRhs { b_len: ndim_b, rows: nrows_a });
    }

    let n = ndim_x;
    let tol = opt.sol_tol;

    proof {
        assert forall|i: int| 0 <= i < a_mat@.len() implies #[trigger] a_mat@[i]@.len()
            == x_vec@.len() by {
            assert(m[i] == a_mat@[i]@);
            assert(m[i].len() == spec_ncols(m));
        }
    }
    let ax = matvec(a_mat, x_vec);
    let mut ri = vec_sub(&ax, b_vec);
    let mut pki = vec_copy(&ri);
    let mut rtr: S = dot(&ri, &ri);
    let mut err: S = rtr.sqrt();

    let ghost target = spec_cg_solve(m, x_vec@, b_vec@, tol, opt.iter_limit as nat);
    proof {
        assert(ri@ == spec_vec_sub(spec_matvec(m, x_vec@), b_vec@));
        assert(spec_cg_loop(m, tol, x_vec@, ri@, pki@, rtr, opt.iter_limit as nat) == target);
    }

    let mut istep: u32 = 0;
    let mut done: bool = false;
    while istep < opt.iter_limit && !done
        invariant
            is_rectangular(m),
            m == mat_view(a_mat@),
            m.len() == n,
            spec_ncols(m) == n,
            x_vec@.len() == n,
            ri@.len() == n,
            pki@.len() == n,
            istep <= opt.iter_limit,
            !done ==> err == rtr.sp_sqrt(),
            !done ==> spec_cg_loop(m, tol, x_vec@, ri@, pki@, rtr, (opt.iter_limit - istep) as nat)
                == target,
            done ==> (x_vec@, err) == target,
        decreases opt.iter_limit - istep,
    {
        let ghost fuel = (opt.iter_limit - istep) as nat;
        let ghost x0 = x_vec@;
        let ghost r0 = ri@;
        let ghost p0 = pki@;
        let ghost rtr0 = rtr;
        istep = istep + 1;

        proof {
            assert forall|i: int| 0 <= i < a_mat@.len() implies #[trigger] a_mat@[i]@.len()
                == pki@.len() by {
                assert(m[i] == a_mat@[i]@);
                assert(m[i].len() == spec_ncols(m));
            }
        }
        let a_pk = matvec(a_mat, &pki);
        let pkt_a_pk = dot(&pki, &a_pk);
        let mu = rtr.div(pkt_a_pk);
        let neg_mu = mu.neg();
        axpy(x_vec, neg_mu, &pki);
        axpy(&mut ri, neg_mu, &a_pk);
        let rtr_new = dot(&ri, &ri);
        err = rtr_new.sqrt();

        proof {
            assert(a_pk@ == spec_matvec(m, p0));
            assert(x_vec@ == spec_axpy(x0, rtr0.sp_div(spec_dot(p0, a_pk@)).sp_neg(), p0));
            assert(ri@ == spec_axpy(r0, rtr0.sp_div(spec_dot(p0, a_pk@)).sp_neg(), a_pk@));
        }
        if err.abs().lt(tol) {
            done = true;
            proof {
                assert(spec_cg_loop(m, tol, x0, r0, p0, rtr0, fuel) == (x_vec@, err));
            }
        } else {
            let tau = rtr_new.div(rtr);
            update_direction(&mut pki, &ri, tau);
            rtr = rtr_new;
            proof {
                assert(spec_cg_loop(m, tol, x0, r0, p0, rtr0, fuel) == spec_cg_loop(
                    m,
                    tol,
                    x_vec@,
                    ri@,
                    pki@,
                    rtr,
                    (fuel - 1) as nat,
                ));
            }
        }
    }
    proof {
        if !done {
            assert(spec_cg_loop(m, tol, x_vec@, ri@, pki@, rtr, 0) == (x_vec@, rtr.sp_sqrt()));
        }
    }
    Ok(err)
}

/// A conjugate gradient normal-equation residual (CGNR) solver used to
/// iteratively solve a nonsymmetric `A x = b` type problem by running the
/// conjugate gradient recurrence on `A^T A x = A^T b`.
///
/// The step length and direction coefficient are computed in the
/// transformed space, but the convergence test uses the residual norm of
/// the original system, so an ill-conditioned normal-equation system does
/// not end the iteration early. On a dimension mismatch the solver reports
/// the offending dimensions and leaves `x_vec` untouched.
pub fn cgnr_solver<S: Scalar>(
    a_mat: &Vec<Vec<S>>,
    x_vec: &mut Vec<S>,
    b_vec: &Vec<S>,
    opt: &IterOptions<S>,
) -> (res: Result<S, SolverError>)
    requires
        is_rectangular(mat_view(a_mat@)),
    ensures
        match spec_check_dims(mat_view(a_mat@), old(x_vec)@, b_vec@) {
            Ok(_) => ({
                let sol = spec_cgnr_solve(
                    mat_view(a_mat@),
                    old(x_vec)@,
                    b_vec@,
                    opt.sol_tol,
                    opt.iter_limit as nat,
                );
                res == Ok::<S, SolverError>(sol.1) && final(x_vec)@ == sol.0
            }),
            Err(e) => res == Err::<S, SolverError>(e) && final(x_vec)@ == old(x_vec)@,
        },
{
    let ndim_x: usize = x_vec.len();
    let ndim_b: usize = b_vec.len();
    let nrows_a: usize = a_mat.len();
    let ncols_a: usize = if a_mat.len() == 0 {
        0
    } else {
        a_mat[0].len()
    };
    let ghost m = mat_view(a_mat@);
    proof {
        if a_mat@.len() > 0 {
            assert(m[0] == a_mat@[0]@);
        }
        assert(ncols_a == spec_ncols(m));
    }

    if ndim_b != ndim_x {
        return Err(SolverError::MismatchedVectors { x_len: ndim_x, b_len: ndim_b });
    }
    if nrows_a != ncols_a {
        return Err(SolverError::NotSquare { rows: nrows_a, cols: ncols_a });
    }
    if ndim_b != nrows_a {
        return Err(SolverError::MismatchedRhs { b_len: ndim_b, rows: nrows_a });
    }

    let n = ndim_x;
    let tol = opt.sol_tol;

    proof {
        assert forall|i: int| 0 <= i < a_mat@.len() implies #[trigger] a_mat@[i]@.len()
            == x_vec@.len() by {
            assert(m[i] == a_mat@[i]@);
            assert(m[i].len() == spec_ncols(m));
        }
    }
    let ax = matvec(a_mat, x_vec);
    let mut ri = vec_sub(&ax, b_vec);
    let zi = vecmat(&ri, a_mat);
    let mut pki = vec_copy(&zi);
    let mut ztz: S = dot(&zi, &zi);
    let rtr0: S = dot(&ri, &ri);
    let mut err: S = rtr0.sqrt();

    let ghost target = spec_cgnr_solve(m, x_vec@, b_vec@, tol, opt.iter_limit as nat);
    proof {
        assert(ri@ == spec_vec_sub(spec_matvec(m, x_vec@), b_vec@));
        assert(spec_cgnr_loop(m, tol, x_vec@, ri@, pki@, ztz, opt.iter_limit as nat) == target);
    }

    let mut istep: u32 = 0;
    let mut done: bool = false;
    while istep < opt.iter_limit && !done
        invariant
            is_rectangular(m),
            m == mat_view(a_mat@),
            m.len() == n,
            spec_ncols(m) == n,
            x_vec@.len() == n,
            ri@.len() == n,
            pki@.len() == n,
            istep <= opt.iter_limit,
            !done ==> err == spec_dot(ri@, ri@).sp_sqrt(),
            !done ==> spec_cgnr_loop(
                m,
                tol,
                x_vec@,
                ri@,
                pki@,
                ztz,
                (opt.iter_limit - istep) as nat,
            ) == target,
            done ==> (x_vec@, err) == target,
        decreases opt.iter_limit - istep,
    {
        let ghost fuel = (opt.iter_limit - istep) as nat;
        let ghost x0 = x_vec@;
        let ghost r0 = ri@;
        let ghost p0 = pki@;
        let ghost ztz0 = ztz;
        istep = istep + 1;

        proof {
            assert forall|i: int| 0 <= i < a_mat@.len() implies #[trigger] a_mat@[i]@.len()
                == pki@.len() by {
                assert(m[i] == a_mat@[i]@);
                assert(m[i].len() == spec_ncols(m));
            }
        }
        let a_pk = matvec(a_mat, &pki);
        let a_pk_t_a_pk = dot(&a_pk, &a_pk);
        let mu = ztz.div(a_pk_t_a_pk);
        let neg_mu = mu.neg();
        axpy(x_vec, neg_mu, &pki);
        axpy(&mut ri, neg_mu, &a_pk);
        let rtr_new = dot(&ri, &ri);
        err = rtr_new.sqrt();

        proof {
            assert(a_pk@ == spec_matvec(m, p0));
            assert(x_vec@ == spec_axpy(x0, ztz0.sp_div(spec_dot(a_pk@, a_pk@)).sp_neg(), p0));
            assert(ri@ == spec_axpy(r0, ztz0.sp_div(spec_dot(a_pk@, a_pk@)).sp_neg(), a_pk@));
        }
        if err.abs().lt(tol) {
            done = true;
            proof {
                assert(spec_cgnr_loop(m, tol, x0, r0, p0, ztz0, fuel) == (x_vec@, err));
            }
        } else {
            let z_new = vecmat(&ri, a_mat);
            let ztz_new = dot(&z_new, &z_new);
            let tau = ztz_new.div(ztz);
            update_direction(&mut pki, &z_new, tau);
            ztz = ztz_new;
            proof {
                assert(spec_cgnr_loop(m, tol, x0, r0, p0, ztz0, fuel) == spec_cgnr_loop(
                    m,
                    tol,
                    x_vec@,
                    ri@,
                    pki@,
                    ztz,
                    (fuel - 1) as nat,
                ));
            }
        }
    }
    proof {
        if !done {
            assert(spec_cgnr_loop(m, tol, x_vec@, ri@, pki@, ztz, 0) == (
                x_vec@,
                spec_dot(ri@, ri@).sp_sqrt(),
            ));
        }
    }
    Ok(err)
}

/// A conjugate gradient normal-equation error (CGNE) solver used to
/// iteratively solve a nonsymmetric `A x = b` type problem through
/// `A A^T y = b` with `x = A^T y`, implemented directly on `x`.
///
/// The step length divides the residual inner product by the search
/// direction's own inner product `p . p`, which distinguishes CGNE from
/// CGNR; this variant drives the error norm down at the cost of one more
/// transposed product per iteration. On a dimension mismatch the solver
/// reports the offending dimensions and leaves `x_vec` untouched.
pub fn cgne_solver<S: Scalar>(
    a_mat: &Vec<Vec<S>>,
    x_vec: &mut Vec<S>,
    b_vec: &Vec<S>,
    opt: &IterOptions<S>,
) -> (res: Result<S, SolverError>)
    requires
        is_rectangular(mat_view(a_mat@)),
    ensures
        match spec_check_dims(mat_view(a_mat@), old(x_vec)@, b_vec@) {
            Ok(_) => ({
                let sol = spec_cgne_solve(
                    mat_view(a_mat@),
                    old(x_vec)@,
                    b_vec@,
                    opt.sol_tol,
                    opt.iter_limit as nat,
                );
                res == Ok::<S, SolverError>(sol.1) && final(x_vec)@ == sol.0
            }),
            Err(e) => res == Err::<S, SolverError>(e) && final(x_vec)@ == old(x_vec)@,
        },
{
    let ndim_x: usize = x_vec.len();
    let ndim_b: usize = b_vec.len();
    let nrows_a: usize = a_mat.len();
    let ncols_a: usize = if a_mat.len() == 0 {
        0
    } else {
        a_mat[0].len()
    };
    let ghost m = mat_view(a_mat@);
    proof {
        if a_mat@.len() > 0 {
            assert(m[0] == a_mat@[0]@);
        }
        assert(ncols_a == spec_ncols(m));
    }

    if ndim_b != ndim_x {
        return Err(SolverError::MismatchedVectors { x_len: ndim_x, b_len: ndim_b });
    }
    if nrows_a != ncols_a {
        return Err(SolverError::NotSquare { rows: nrows_a, cols: ncols_a });
    }
    if ndim_b != nrows_a {
        return Err(SolverError::MismatchedRhs { b_len: ndim_b, rows: nrows_a });
    }

    let n = ndim_x;
    let tol = opt.sol_tol;

    proof {
        assert forall|i: int| 0 <= i < a_mat@.len() implies #[trigger] a_mat@[i]@.len()
            == x_vec@.len() by {
            assert(m[i] == a_mat@[i]@);
            assert(m[i].len() == spec_ncols(m));
        }
    }
    let ax = matvec(a_mat, x_vec);
    let mut ri = vec_sub(&ax, b_vec);
    let zi = vecmat(&ri, a_mat);
    let mut pki = vec_copy(&zi);
    let mut rtr: S = dot(&ri, &ri);
    let mut err: S = rtr.sqrt();

    let ghost target = spec_cgne_solve(m, x_vec@, b_vec@, tol, opt.iter_limit as nat);
    proof {
        assert(ri@ == spec_vec_sub(spec_matvec(m, x_vec@), b_vec@));
        assert(spec_cgne_loop(m, tol, x_vec@, ri@, pki@, rtr, opt.iter_limit as nat) == target);
    }

    let mut istep: u32 = 0;
    let mut done: bool = false;
    while istep < opt.iter_limit && !done
        invariant
            is_rectangular(m),
            m == mat_view(a_mat@),
            m.len() == n,
            spec_ncols(m) == n,
            x_vec@.len() == n,
            ri@.len() == n,
            pki@.len() == n,
            istep <= opt.iter_limit,
            !done ==> err == rtr.sp_sqrt(),
            !done ==> spec_cgne_loop(
                m,
                tol,
                x_vec@,
                ri@,
                pki@,
                rtr,
                (opt.iter_limit - istep) as nat,
            ) == target,
            done ==> (x_vec@, err) == target,
        decreases opt.iter_limit - istep,
    {
        let ghost fuel = (opt.iter_limit - istep) as nat;
        let ghost x0 = x_vec@;
        let ghost r0 = ri@;
        let ghost p0 = pki@;
        let ghost rtr0 = rtr;
        istep = istep + 1;

        proof {
            assert forall|i: int| 0 <= i < a_mat@.len() implies #[trigger] a_mat@[i]@.len()
                == pki@.len() by {
                assert(m[i] == a_mat@[i]@);
                assert(m[i].len() == spec_ncols(m));
            }
        }
        let a_pk = matvec(a_mat, &pki);
        let pki_t_pki = dot(&pki, &pki);
        let mu = rtr.div(pki_t_pki);
        let neg_mu = mu.neg();
        axpy(x_vec, neg_mu, &pki);
        axpy(&mut ri, neg_mu, &a_pk);
        let rtr_new = dot(&ri, &ri);
        err = rtr_new.sqrt();

        proof {
            assert(a_pk@ == spec_matvec(m, p0));
            assert(x_vec@ == spec_axpy(x0, rtr0.sp_div(spec_dot(p0, p0)).sp_neg(), p0));
            assert(ri@ == spec_axpy(r0, rtr0.sp_div(spec_dot(p0, p0)).sp_neg(), a_pk@));
        }
        if err.abs().lt(tol) {
            done = true;
            proof {
                assert(spec_cgne_loop(m, tol, x0, r0, p0, rtr0, fuel) == (x_vec@, err));
            }
        } else {
            let z_new = vecmat(&ri, a_mat);
            let tau = rtr_new.div(rtr);
            update_direction(&mut pki, &z_new, tau);
            rtr = rtr_new;
            proof {
                assert(spec_cgne_loop(m, tol, x0, r0, p0, rtr0, fuel) == spec_cgne_loop(
                    m,
                    tol,
                    x_vec@,
                    ri@,
                    pki@,
                    rtr,
                    (fuel - 1) as nat,
                ));
            }
        }
    }
    proof {
        if !done {
            assert(spec_cgne_loop(m, tol, x_vec@, ri@, pki@, rtr, 0) == (x_vec@, rtr.sp_sqrt()));
        }
    }
    Ok(err)
}

/// With an iteration cap of zero every solver leaves the iterate exactly
/// where it started and reports the norm of the initial residual
/// `r0 = A * x0 - b`.
pub proof fn lemma_zero_cap_returns_initial_residual<S: Scalar>(
    a: Seq<Seq<S>>,
    x0: Seq<S>,
    b: Seq<S>,
    tol: S,
)
    ensures
        spec_cg_solve(a, x0, b, tol, 0) == (
            x0,
            spec_dot(
                spec_vec_sub(spec_matvec(a, x0), b),
                spec_vec_sub(spec_matvec(a, x0), b),
            ).sp_sqrt(),
        ),
        spec_cgnr_solve(a, x0, b, tol, 0) == (
            x0,
            spec_dot(
                spec_vec_sub(spec_matvec(a, x0), b),
                spec_vec_sub(spec_matvec(a, x0), b),
            ).sp_sqrt(),
        ),
        spec_cgne_solve(a, x0, b, tol, 0) == (
            x0,
            spec_dot(
                spec_vec_sub(spec_matvec(a, x0), b),
                spec_vec_sub(spec_matvec(a, x0), b),
            ).sp_sqrt(),
        ),
{
}

} // verus!

