use crate::grid::product_by_rows;
use crate::matrix::Matrix;
use crate::scalar::Scalar;
use crate::strategy::Parallel;
use rayon::iter::{IndexedParallelIterator, IntoParallelIterator, ParallelIterator};
use vstd::prelude::*;

verus! {

/// Relies on rayon's `(0..total).into_par_iter().map(f).collect_into_vec(v)`
/// (`IndexedParallelIterator::collect_into_vec` on a mapped range): `f` runs
/// once for each index of the range, on the threads of rayon's pool, and `v`
/// is cleared and then receives the results in index order. Here `f` is the
/// verified `Matrix::cell`, whose result at `pos` is element `pos` of the
/// product, so each task writes its own slot and no reordering is needed.
#[verifier::external_body]
pub(crate) fn collect_cells<T: Scalar>(
    lhs: &Matrix<T, Parallel>,
    rhs_t: &Matrix<T, Parallel>,
    total: usize,
) -> (r: Vec<T>)
    requires
        lhs@.cols == rhs_t@.cols,
        total == lhs@.rows * rhs_t@.rows,
    ensures
        r@ == product_by_rows(lhs@, rhs_t@).elems,
{
    let mut out: Vec<T> = Vec::new();
    (0..total).into_par_iter().map(|pos| lhs.cell(rhs_t, pos)).collect_into_vec(&mut out);
    out
}

} // verus!
