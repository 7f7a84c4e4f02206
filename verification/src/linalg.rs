//! Dense linear-algebra primitives the solvers are built from: inner
//! product, matrix-vector product, row-vector-times-matrix product, and
//! axpy-style scaled updates, each with a contract giving its result
//! elementwise over the abstract scalar operations.

use vstd::prelude::*;

use crate::scalar::Scalar;

verus! {

/// The rows of a dense matrix, seen as mathematical sequences.
pub open spec fn mat_view<S>(a: Seq<Vec<S>>) -> Seq<Seq<S>> {
    Seq::new(a.len(), |i: int| a[i]@)
}

/// Column count of a dense matrix; a matrix with no rows has none.
pub open spec fn spec_ncols<S>(m: Seq<Seq<S>>) -> int {
    if m.len() == 0 {
        0
    } else {
        m[0].len() as int
    }
}

/// Every row has the column count: the matrix is a dense rectangular array.
pub open spec fn is_rectangular<S>(m: Seq<Seq<S>>) -> bool {
    forall|i: int| 0 <= i < m.len() ==> #[trigger] m[i].len() == spec_ncols(m)
}

/// Inner product `a[0]*b[0] + a[1]*b[1] + ...`, summed from the additive
/// identity in ascending index order.
pub open spec fn spec_dot<S: Scalar>(a: Seq<S>, b: Seq<S>) -> S
    decreases a.len(),
{
    if a.len() == 0 {
        S::sp_zero()
    } else {
        spec_dot(a.drop_last(), b.drop_last()).sp_add(a.last().sp_mul(b.last()))
    }
}

/// Matrix-vector product: entry `i` is the inner product of row `i` with `x`.
pub open spec fn spec_matvec<S: Scalar>(m: Seq<Seq<S>>, x: Seq<S>) -> Seq<S> {
    Seq::new(m.len(), |i: int| spec_dot(m[i], x))
}

/// Column `j` of a matrix.
pub open spec fn spec_col<S>(m: Seq<Seq<S>>, j: int) -> Seq<S> {
    Seq::new(m.len(), |i: int| m[i][j])
}

/// Row vector times matrix: entry `j` is `r[0]*m[0][j] + r[1]*m[1][j] + ...`,
/// the inner product of `r` with column `j`.
pub open spec fn spec_vecmat<S: Scalar>(r: Seq<S>, m: Seq<Seq<S>>) -> Seq<S> {
    Seq::new(spec_ncols(m) as nat, |j: int| spec_dot(r, spec_col(m, j)))
}

/// Elementwise `y + alpha * p`.
pub open spec fn spec_axpy<S: Scalar>(y: Seq<S>, alpha: S, p: Seq<S>) -> Seq<S> {
    Seq::new(y.len(), |i: int| y[i].sp_add(alpha.sp_mul(p[i])))
}

/// Elementwise `a - b`.
pub open spec fn spec_vec_sub<S: Scalar>(a: Seq<S>, b: Seq<S>) -> Seq<S> {
    Seq::new(a.len(), |i: int| a[i].sp_sub(b[i]))
}

/// Extending an inner product by one pair of entries appends one term to
/// the sum.
proof fn lemma_dot_take_step<S: Scalar>(a: Seq<S>, b: Seq<S>, i: int)
    requires
        a.len() == b.len(),
        0 <= i < a.len(),
    ensures
        spec_dot(a.take(i + 1), b.take(i + 1)) == spec_dot(a.take(i), b.take(i)).sp_add(
            a[i].sp_mul(b[i]),
        ),
{
    assert(a.take(i + 1).drop_last() =~= a.take(i));
    assert(b.take(i + 1).drop_last() =~= b.take(i));
    assert(a.take(i + 1).last() == a[i]);
    assert(b.take(i + 1).last() == b[i]);
}

/// Inner product of two equally long vectors.
pub fn dot<S: Scalar>(a: &Vec<S>, b: &Vec<S>) -> (r: S)
    requires
        a@.len() == b@.len(),
    ensures
        r == spec_dot(a@, b@),
{
    let mut acc: S = S::zero();
    let mut i: usize = 0;
    while i < a.len()
        invariant
            a@.len() == b@.len(),
            i <= a@.len(),
            acc == spec_dot(a@.take(i as int), b@.take(i as int)),
        decreases a@.len() - i,
    {
        proof {
            lemma_dot_take_step(a@, b@, i as int);
        }
        acc = acc.add(a[i].mul(b[i]));
        i = i + 1;
    }
    proof {
        assert(a@.take(a@.len() as int) =~= a@);
        assert(b@.take(b@.len() as int) =~= b@);
    }
    acc
}

/// Matrix-vector product `m * x` for a matrix whose rows all have the
/// length of `x`.
pub fn matvec<S: Scalar>(a: &Vec<Vec<S>>, x: &Vec<S>) -> (w: Vec<S>)
    requires
        forall|i: int| 0 <= i < a@.len() ==> #[trigger] a@[i]@.len() == x@.len(),
    ensures
        w@ == spec_matvec(mat_view(a@), x@),
{
    let mut w: Vec<S> = Vec::new();
    let mut i: usize = 0;
    while i < a.len()
        invariant
            forall|k: int| 0 <= k < a@.len() ==> #[trigger] a@[k]@.len() == x@.len(),
            i <= a@.len(),
            w@.len() == i,
            forall|k: int| 0 <= k < i ==> #[trigger] w@[k] == spec_dot(a@[k]@, x@),
        decreases a@.len() - i,
    {
        let wi = dot(&a[i], x);
        w.push(wi);
        i = i + 1;
    }
    proof {
        assert forall|k: int| 0 <= k < w@.len() implies w@[k] == spec_matvec(mat_view(a@), x@)[k] by {
            assert(mat_view(a@)[k] == a@[k]@);
        }
        assert(w@ =~= spec_matvec(mat_view(a@), x@));
    }
    w
}

/// Row vector times matrix, `r^T * a`, for a rectangular matrix with as
/// many rows as `r` has entries.
pub fn vecmat<S: Scalar>(r: &Vec<S>, a: &Vec<Vec<S>>) -> (z: Vec<S>)
    requires
        r@.len() == a@.len(),
        is_rectangular(mat_view(a@)),
    ensures
        z@ == spec_vecmat(r@, mat_view(a@)),
{
    let ghost m = mat_view(a@);
    let ncols: usize = if a.len() == 0 {
        0
    } else {
        a[0].len()
    };
    proof {
        if a@.len() > 0 {
            assert(m[0] == a@[0]@);
        }
        assert(ncols == spec_ncols(m));
    }
    let mut z: Vec<S> = Vec::new();
    let mut j: usize = 0;
    while j < ncols
        invariant
            r@.len() == a@.len(),
            is_rectangular(m),
            m == mat_view(a@),
            ncols == spec_ncols(m),
            j <= ncols,
            z@.len() == j,
            forall|q: int| 0 <= q < j ==> #[trigger] z@[q] == spec_dot(r@, spec_col(m, q)),
        decreases ncols - j,
    {
        let mut acc: S = S::zero();
        let mut i: usize = 0;
        while i < r.len()
            invariant
                r@.len() == a@.len(),
                is_rectangular(m),
                m == mat_view(a@),
                ncols == spec_ncols(m),
                j < ncols,
                i <= r@.len(),
                acc == spec_dot(r@.take(i as int), spec_col(m, j as int).take(i as int)),
            decreases r@.len() - i,
        {
            proof {
                assert(m[i as int] == a@[i as int]@);
                assert(m[i as int].len() == spec_ncols(m));
                lemma_dot_take_step(r@, spec_col(m, j as int), i as int);
                assert(spec_col(m, j as int)[i as int] == a@[i as int]@[j as int]);
            }
            acc = acc.add(r[i].mul(a[i][j]));
            i = i + 1;
        }
        proof {
            assert(r@.take(r@.len() as int) =~= r@);
            assert(spec_col(m, j as int).take(r@.len() as int) =~= spec_col(m, j as int));
        }
        z.push(acc);
        j = j + 1;
    }
    proof {
        assert forall|q: int| 0 <= q < z@.len() implies z@[q] == spec_vecmat(r@, m)[q] by {}
        assert(z@ =~= spec_vecmat(r@, m));
    }
    z
}

/// In-place scaled update `y <- y + alpha * p`.
pub fn axpy<S: Scalar>(y: &mut Vec<S>, alpha: S, p: &Vec<S>)
    requires
        old(y)@.len() == p@.len(),
    ensures
        final(y)@ == spec_axpy(old(y)@, alpha, p@),
{
    let n = y.len();
    let mut i: usize = 0;
    while i < n
        invariant
            n == old(y)@.len(),
            y@.len() == n,
            p@.len() == n,
            i <= n,
            forall|k: int| 0 <= k < i ==> #[trigger] y@[k] == old(y)@[k].sp_add(alpha.sp_mul(p@[k])),
            forall|k: int| i <= k < n ==> #[trigger] y@[k] == old(y)@[k],
        decreases n - i,
    {
        let yi = y[i];
        y[i] = yi.add(alpha.mul(p[i]));
        i = i + 1;
    }
    proof {
        assert(y@ =~= spec_axpy(old(y)@, alpha, p@));
    }
}

/// In-place search-direction update `p <- z + tau * p`.
pub fn update_direction<S: Scalar>(p: &mut Vec<S>, z: &Vec<S>, tau: S)
    requires
        old(p)@.len() == z@.len(),
    ensures
        final(p)@ == spec_axpy(z@, tau, old(p)@),
{
    let n = p.len();
    let mut i: usize = 0;
    while i < n
        invariant
            n == old(p)@.len(),
            p@.len() == n,
            z@.len() == n,
            i <= n,
            forall|k: int| 0 <= k < i ==> #[trigger] p@[k] == z@[k].sp_add(tau.sp_mul(old(p)@[k])),
            forall|k: int| i <= k < n ==> #[trigger] p@[k] == old(p)@[k],
        decreases n - i,
    {
        let pi = p[i];
        p[i] = z[i].add(tau.mul(pi));
        i = i + 1;
    }
    proof {
        assert(p@ =~= spec_axpy(z@, tau, old(p)@));
    }
}

/// Elementwise difference of two equally long vectors.
pub fn vec_sub<S: Scalar>(a: &Vec<S>, b: &Vec<S>) -> (r: Vec<S>)
    requires
        a@.len() == b@.len(),
    ensures
        r@ == spec_vec_sub(a@, b@),
{
    let mut r: Vec<S> = Vec::new();
    let mut i: usize = 0;
    while i < a.len()
        invariant
            a@.len() == b@.len(),
            i <= a@.len(),
            r@.len() == i,
            forall|k: int| 0 <= k < i ==> #[trigger] r@[k] == a@[k].sp_sub(b@[k]),
        decreases a@.len() - i,
    {
        r.push(a[i].sub(b[i]));
        i = i + 1;
    }
    proof {
        assert(r@ =~= spec_vec_sub(a@, b@));
    }
    r
}

/// A copy of a vector, entry by entry.
pub fn vec_copy<S: Scalar>(a: &Vec<S>) -> (r: Vec<S>)
    ensures
        r@ == a@,
{
    let mut r: Vec<S> = Vec::new();
    let mut i: usize = 0;
    while i < a.len()
        invariant
            i <= a@.len(),
            r@ == a@.take(i as int),
        decreases a@.len() - i,
    {
        r.push(a[i]);
        proof {
            assert(r@ =~= a@.take(i + 1));
        }
        i = i + 1;
    }
    proof {
        assert(a@.take(a@.len() as int) =~= a@);
    }
    r
}

} // verus!
