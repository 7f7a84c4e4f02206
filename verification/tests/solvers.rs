use krylov::iter_solvers::{cg_solver, cgne_solver, cgnr_solver, SolverError};
use krylov::linalg::{dot, matvec, vecmat};
use krylov::options::IterOptions;
use krylov::precond_iter_solvers::pcg_solver;
use krylov::scalar::Scalar;

#[derive(Clone, Copy, Debug, PartialEq)]
struct F64(f64);

impl Scalar for F64 {
    fn sp_zero() -> F64 {
        F64(0.0)
    }
    fn sp_one() -> F64 {
        F64(1.0)
    }
    fn sp_add(self, other: F64) -> F64 {
        F64(self.0 + other.0)
    }
    fn sp_sub(self, other: F64) -> F64 {
        F64(self.0 - other.0)
    }
    fn sp_mul(self, other: F64) -> F64 {
        F64(self.0 * other.0)
    }
    fn sp_div(self, other: F64) -> F64 {
        F64(self.0 / other.0)
    }
    fn sp_neg(self) -> F64 {
        F64(-self.0)
    }
    fn sp_sqrt(self) -> F64 {
        F64(self.0.sqrt())
    }
    fn sp_abs(self) -> F64 {
        F64(self.0.abs())
    }
    fn sp_lt(self, other: F64) -> bool {
        self.0 < other.0
    }
    fn zero() -> F64 {
        F64(0.0)
    }
    fn one() -> F64 {
        F64(1.0)
    }
    fn add(self, other: F64) -> F64 {
        F64(self.0 + other.0)
    }
    fn sub(self, other: F64) -> F64 {
        F64(self.0 - other.0)
    }
    fn mul(self, other: F64) -> F64 {
        F64(self.0 * other.0)
    }
    fn div(self, other: F64) -> F64 {
        F64(self.0 / other.0)
    }
    fn neg(self) -> F64 {
        F64(-self.0)
    }
    fn sqrt(self) -> F64 {
        F64(self.0.sqrt())
    }
    fn abs(self) -> F64 {
        F64(self.0.abs())
    }
    fn lt(self, other: F64) -> bool {
        self.0 < other.0
    }
}

fn mat(rows: &[&[f64]]) -> Vec<Vec<F64>> {
    let mut m: Vec<Vec<F64>> = Vec::new();
    for row in rows {
        let mut r: Vec<F64> = Vec::new();
        for &v in *row {
            r.push(F64(v));
        }
        m.push(r);
    }
    m
}

fn vector(entries: &[f64]) -> Vec<F64> {
    let mut v: Vec<F64> = Vec::new();
    for &e in entries {
        v.push(F64(e));
    }
    v
}

fn opts(tol: f64, cap: u32) -> IterOptions<F64> {
    IterOptions { sol_tol: F64(tol), iter_limit: cap, restart_iter: 25 }
}

fn residual_norm(a: &Vec<Vec<F64>>, x: &Vec<F64>, b: &Vec<F64>) -> f64 {
    let ax = matvec(a, x);
    let mut s = 0.0;
    for i in 0..b.len() {
        let d = ax[i].0 - b[i].0;
        s += d * d;
    }
    s.sqrt()
}

#[test]
fn cg_two_by_two_converges_to_exact_solution() {
    let a = mat(&[&[4.0, 1.0], &[1.0, 3.0]]);
    let b = vector(&[1.0, 2.0]);
    let mut x = vector(&[2.0, 1.0]);
    let err = cg_solver(&a, &mut x, &b, &opts(1e-10, 10)).unwrap();
    assert!(err.0 < 1e-10);
    assert!((x[0].0 - 1.0 / 11.0).abs() < 1e-8);
    assert!((x[1].0 - 7.0 / 11.0).abs() < 1e-8);
    assert!(residual_norm(&a, &x, &b) < 1e-10);
}

#[test]
fn cg_one_by_one_converges_in_one_iteration() {
    let a = mat(&[&[5.0]]);
    let b = vector(&[10.0]);
    let mut x = vector(&[0.0]);
    // a cap of one is enough: the first step lands on the solution exactly
    let err = cg_solver(&a, &mut x, &b, &opts(1e-10, 1)).unwrap();
    assert_eq!(x[0].0, 2.0);
    assert_eq!(err.0, 0.0);
}

#[test]
fn cg_spd_system_converges_within_dimension_iterations() {
    let a = mat(&[&[4.0, 1.0, 0.0], &[1.0, 3.0, 1.0], &[0.0, 1.0, 5.0]]);
    let b = vector(&[1.0, 2.0, 3.0]);
    let mut x = vector(&[0.0, 0.0, 0.0]);
    let err = cg_solver(&a, &mut x, &b, &opts(1e-9, 3)).unwrap();
    assert!(err.0 < 1e-9);
    assert!(residual_norm(&a, &x, &b) < 1e-8);
}

#[test]
fn cg_zero_iteration_cap_returns_initial_residual_norm() {
    let a = mat(&[&[4.0, 1.0], &[1.0, 3.0]]);
    let b = vector(&[1.0, 2.0]);
    let mut x = vector(&[2.0, 1.0]);
    let err = cg_solver(&a, &mut x, &b, &opts(1e-10, 0)).unwrap();
    // r0 = A x0 - b = [8, 3], so the reported norm is sqrt(73), and x is untouched
    assert_eq!(err.0, 73.0_f64.sqrt());
    assert_eq!(x, vector(&[2.0, 1.0]));
}

#[test]
fn cg_converged_call_is_idempotent_within_tolerance() {
    let a = mat(&[&[4.0, 1.0], &[1.0, 3.0]]);
    let b = vector(&[1.0, 2.0]);
    let mut x = vector(&[2.0, 1.0]);
    let tol = 1e-10;
    let err1 = cg_solver(&a, &mut x, &b, &opts(tol, 10)).unwrap();
    assert!(err1.0 < tol);
    let err2 = cg_solver(&a, &mut x, &b, &opts(tol, 10)).unwrap();
    assert!(err2.0 < tol);
}

#[test]
fn cgnr_and_cgne_agree_on_a_nonsymmetric_system() {
    let a = mat(&[&[3.0, 1.0], &[2.0, 4.0]]);
    let b = vector(&[5.0, 6.0]);
    let mut x_nr = vector(&[0.0, 0.0]);
    let mut x_ne = vector(&[0.0, 0.0]);
    let err_nr = cgnr_solver(&a, &mut x_nr, &b, &opts(1e-12, 100)).unwrap();
    let err_ne = cgne_solver(&a, &mut x_ne, &b, &opts(1e-12, 100)).unwrap();
    assert!(err_nr.0 < 1e-12);
    assert!(err_ne.0 < 1e-12);
    // both routes solve the same original system: x = [1.4, 0.8]
    assert!((x_nr[0].0 - 1.4).abs() < 1e-9);
    assert!((x_nr[1].0 - 0.8).abs() < 1e-9);
    assert!((x_ne[0].0 - x_nr[0].0).abs() < 1e-9);
    assert!((x_ne[1].0 - x_nr[1].0).abs() < 1e-9);
}

#[test]
fn cgnr_zero_iteration_cap_returns_initial_residual_norm() {
    let a = mat(&[&[3.0, 1.0], &[2.0, 4.0]]);
    let b = vector(&[5.0, 6.0]);
    let mut x = vector(&[1.0, 1.0]);
    let err = cgnr_solver(&a, &mut x, &b, &opts(1e-10, 0)).unwrap();
    // r0 = A x0 - b = [-1, 0]
    assert_eq!(err.0, 1.0);
    assert_eq!(x, vector(&[1.0, 1.0]));
}

#[test]
fn cgne_zero_iteration_cap_returns_initial_residual_norm() {
    let a = mat(&[&[3.0, 1.0], &[2.0, 4.0]]);
    let b = vector(&[5.0, 6.0]);
    let mut x = vector(&[1.0, 1.0]);
    let err = cgne_solver(&a, &mut x, &b, &opts(1e-10, 0)).unwrap();
    assert_eq!(err.0, 1.0);
    assert_eq!(x, vector(&[1.0, 1.0]));
}

#[test]
fn dot_and_matvec_compute_exact_values() {
    let a = vector(&[1.0, 2.0, 3.0]);
    let b = vector(&[4.0, 5.0, 6.0]);
    assert_eq!(dot(&a, &b).0, 32.0);
    let m = mat(&[&[1.0, 0.0, 2.0], &[0.0, 1.0, 0.0]]);
    let w = matvec(&m, &a);
    assert_eq!(w, vector(&[7.0, 2.0]));
    // row vector times matrix uses the columns
    let r = vector(&[1.0, 2.0]);
    let z = vecmat(&r, &m);
    assert_eq!(z, vector(&[1.0, 2.0, 2.0]));
}

#[test]
fn pcg_validates_and_returns_identity_diagnostic() {
    let a = mat(&[&[4.0, 1.0], &[1.0, 3.0]]);
    let p = mat(&[&[4.0, 0.0], &[0.0, 3.0]]);
    let x = vector(&[0.0, 0.0]);
    let b = vector(&[1.0, 2.0]);
    let res = pcg_solver(&a, &p, &x, &b, &opts(1e-10, 10));
    assert_eq!(res, Ok(F64(1.0)));
}

#[test]
fn pcg_rejects_non_square_preconditioner() {
    let a = mat(&[&[4.0, 1.0], &[1.0, 3.0]]);
    let p = mat(&[&[4.0, 0.0]]);
    let x = vector(&[0.0, 0.0]);
    let b = vector(&[1.0, 2.0]);
    let res = pcg_solver(&a, &p, &x, &b, &opts(1e-10, 10));
    assert_eq!(res, Err(SolverError::PrecondNotSquare { rows: 1, cols: 2 }));
}

#[test]
fn pcg_rejects_preconditioner_shaped_unlike_the_system() {
    let a = mat(&[&[4.0, 1.0], &[1.0, 3.0]]);
    let p = mat(&[&[1.0]]);
    let x = vector(&[0.0, 0.0]);
    let b = vector(&[1.0, 2.0]);
    let res = pcg_solver(&a, &p, &x, &b, &opts(1e-10, 10));
    assert_eq!(
        res,
        Err(SolverError::PrecondMismatched { p_rows: 1, p_cols: 1, a_rows: 2, a_cols: 2 })
    );
}
