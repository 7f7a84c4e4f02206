use vstd::prelude::*;

verus! {

/// The scalar field the solvers iterate over.
///
/// The solver core treats the scalar operations as black boxes supplied by
/// the caller: a type (typically a thin wrapper over a machine float)
/// implements this trait, and the solvers consume its arithmetic without
/// assuming anything about a number format. Each executable operation is
/// pinned to an uninterpreted per-implementation spec function, so a
/// solver's contract can state the exact recurrence it computes — which
/// products are formed, in which order they are summed, which quotient
/// becomes a step length — while the numeric behaviour of one `add` or
/// `sqrt` stays the implementation's own.
pub trait Scalar: Sized + Copy {
    /// The additive identity, at the specification level.
    spec fn sp_zero() -> Self;

    /// The multiplicative identity, at the specification level.
    spec fn sp_one() -> Self;

    /// What `add` returns.
    spec fn sp_add(self, other: Self) -> Self;

    /// What `sub` returns.
    spec fn sp_sub(self, other: Self) -> Self;

    /// What `mul` returns.
    spec fn sp_mul(self, other: Self) -> Self;

    /// What `div` returns.
    spec fn sp_div(self, other: Self) -> Self;

    /// What `neg` returns.
    spec fn sp_neg(self) -> Self;

    /// What `sqrt` returns.
    spec fn sp_sqrt(self) -> Self;

    /// What `abs` returns.
    spec fn sp_abs(self) -> Self;

    /// What `lt` returns.
    spec fn sp_lt(self, other: Self) -> bool;

    /// The additive identity, used to seed inner-product sums.
    fn zero() -> (r: Self)
        ensures
            r == Self::sp_zero(),
    ;

    /// The multiplicative identity.
    fn one() -> (r: Self)
        ensures
            r == Self::sp_one(),
    ;

    /// Sum of two scalars.
    fn add(self, other: Self) -> (r: Self)
        ensures
            r == self.sp_add(other),
    ;

    /// Difference of two scalars.
    fn sub(self, other: Self) -> (r: Self)
        ensures
            r == self.sp_sub(other),
    ;

    /// Product of two scalars.
    fn mul(self, other: Self) -> (r: Self)
        ensures
            r == self.sp_mul(other),
    ;

    /// Quotient of two scalars.
    fn div(self, other: Self) -> (r: Self)
        ensures
            r == self.sp_div(other),
    ;

    /// Additive inverse.
    fn neg(self) -> (r: Self)
        ensures
            r == self.sp_neg(),
    ;

    /// Square root, used for the residual norm.
    fn sqrt(self) -> (r: Self)
        ensures
            r == self.sp_sqrt(),
    ;

    /// Absolute value, used in the convergence test.
    fn abs(self) -> (r: Self)
        ensures
            r == self.sp_abs(),
    ;

    /// Strict order, used to compare the residual norm against the tolerance.
    fn lt(self, other: Self) -> (r: bool)
        ensures
            r == self.sp_lt(other),
    ;
}

} // verus!
