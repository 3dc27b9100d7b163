use crate::grid::{
    dot_rows, lemma_join_index, lemma_split_index, law_strategies_agree, mul_entry, product,
    product_by_rows, transpose,
};
use crate::matrix::{Matrix, MatrixError};
use crate::parallel::collect_cells;
use crate::scalar::Scalar;
use vstd::prelude::*;

verus! {

/// Multiplies with the direct triple loop: for each output row and column,
/// the products along the shared dimension are added into the output cell.
#[derive(Debug)]
pub struct Naive;

/// Multiplies by first transposing the right operand, so that each output
/// element is the dot product of two contiguous rows.
#[derive(Debug)]
pub struct Transposed;

/// Multiplies by computing every output element as an independent task on a
/// pool of threads, against the transposed right operand.
#[derive(Debug)]
pub struct Parallel;

/// A matrix multiplied with the direct triple loop.
pub type SimpleMatrix<T> = Matrix<T, Naive>;

/// A matrix multiplied by rows of the transposed right operand.
pub type SimpleMatrix2<T> = Matrix<T, Transposed>;

/// A matrix multiplied in parallel, one task for each output element.
pub type RayonMatrix<T> = Matrix<T, Parallel>;

impl<T: Scalar> Matrix<T, Naive> {
    /// The product `self * rhs`, with each product along the shared dimension
    /// added into the output cell in increasing order; `DimensionMismatch`
    /// exactly when `self.cols != rhs.rows`.
    pub fn mul(&self, rhs: &Self) -> (r: Result<Self, MatrixError>)
        requires
            self@.rows * rhs@.cols <= usize::MAX,
        ensures
            self@.cols == rhs@.rows <==> r is Ok,
            r is Ok ==> r->Ok_0@ == product(self@, rhs@),
            r is Ok ==> r->Ok_0@.rows == self@.rows && r->Ok_0@.cols == rhs@.cols,
            r is Err ==> r->Err_0 == MatrixError::DimensionMismatch,
    {
        let n = self.rows();
        let m = self.cols();
        let kk = rhs.cols();
        if m != rhs.rows() {
            return Err(MatrixError::DimensionMismatch);
        }
        let ghost a = self@;
        let ghost b = rhs@;
        let ghost prod = product(a, b);
        let mut result = Self::new(n, kk);
        let mut i: usize = 0;
        while i < n
            invariant
                a == self@,
                b == rhs@,
                prod == product(a, b),
                a.wf(),
                b.wf(),
                n == a.rows,
                m == a.cols,
                m == b.rows,
                kk == b.cols,
                i <= n,
                result@.rows == n,
                result@.cols == kk,
                result@.elems.len() == n * kk,
                forall|q: int| 0 <= q < i * kk ==> #[trigger] result@.elems[q] == prod.elems[q],
                forall|q: int|
                    i * kk <= q < n * kk ==> #[trigger] result@.elems[q] == T::zero_spec(),
            decreases n - i,
        {
            let mut k: usize = 0;
            while k < kk
                invariant
                    a == self@,
                    b == rhs@,
                    prod == product(a, b),
                    a.wf(),
                    b.wf(),
                    n == a.rows,
                    m == a.cols,
                    m == b.rows,
                    kk == b.cols,
                    i < n,
                    k <= kk,
                    result@.rows == n,
                    result@.cols == kk,
                    result@.elems.len() == n * kk,
                    forall|q: int|
                        0 <= q < i * kk + k ==> #[trigger] result@.elems[q] == prod.elems[q],
                    forall|q: int|
                        i * kk + k <= q < n * kk ==> #[trigger] result@.elems[q] == T::zero_spec(),
                decreases kk - k,
            {
                let ghost cell = i * kk + k;
                proof {
                    lemma_join_index(i as int, k as int, n as int, kk as int);
                }
                let mut j: usize = 0;
                while j < m
                    invariant
                        a == self@,
                        b == rhs@,
                        prod == product(a, b),
                        a.wf(),
                        b.wf(),
                        n == a.rows,
                        m == a.cols,
                        m == b.rows,
                        kk == b.cols,
                        i < n,
                        k < kk,
                        j <= m,
                        cell == i * kk + k,
                        0 <= cell < n * kk,
                        result@.rows == n,
                        result@.cols == kk,
                        result@.elems.len() == n * kk,
                        result@.elems[cell] == mul_entry(a, b, i as int, k as int, j as nat),
                        forall|q: int| 0 <= q < cell ==> #[trigger] result@.elems[q] == prod.elems[q],
                        forall|q: int|
                            cell < q < n * kk ==> #[trigger] result@.elems[q] == T::zero_spec(),
                    decreases m - j,
                {
                    let acc = result.get_unchecked(i, k);
                    let term = self.get_unchecked(i, j).times(rhs.get_unchecked(j, k));
                    result.put_unchecked(i, k, acc.plus(term));
                    j = j + 1;
                }
                proof {
                    assert(prod.elems[cell] == mul_entry(a, b, i as int, k as int, m as nat));
                }
                k = k + 1;
            }
            proof {
                assert(i * kk + kk == (i + 1) * kk) by (nonlinear_arith);
            }
            i = i + 1;
        }
        proof {
            assert(result@.elems =~= prod.elems);
        }
        Ok(result)
    }
}

} // verus!

verus! {

/// The dot product of row `i` of `a` and row `k` of `bt`, accumulated from
/// zero in increasing order.
fn dot_row_pair<T: Scalar, S>(a: &Matrix<T, S>, bt: &Matrix<T, S>, i: usize, k: usize) -> (r: T)
    requires
        i < a@.rows,
        k < bt@.rows,
        a@.cols == bt@.cols,
    ensures
        r == dot_rows(a@, bt@, i as int, k as int, a@.cols),
{
    let line = a.row_unchecked(i);
    let column = bt.row_unchecked(k);
    let m = a.cols();
    let mut acc = T::zero();
    let mut j: usize = 0;
    while j < m
        invariant
            m == a@.cols,
            m == bt@.cols,
            j <= m,
            line@.len() == m,
            column@.len() == m,
            forall|q: int| 0 <= q < m ==> #[trigger] line@[q] == a@.at(i as int, q),
            forall|q: int| 0 <= q < m ==> #[trigger] column@[q] == bt@.at(k as int, q),
            acc == dot_rows(a@, bt@, i as int, k as int, j as nat),
        decreases m - j,
    {
        acc = acc.plus(line[j].times(column[j]));
        j = j + 1;
    }
    acc
}

impl<T: Scalar> Matrix<T, Transposed> {
    /// The product `self * rhs`: the right operand is transposed once, then
    /// each output element is the dot product of a row of `self` and a row
    /// of that transpose, accumulated in increasing order; `DimensionMismatch`
    /// exactly when `self.cols != rhs.rows`.
    pub fn mul(&self, rhs: &Self) -> (r: Result<Self, MatrixError>)
        requires
            self@.rows * rhs@.cols <= usize::MAX,
        ensures
            self@.cols == rhs@.rows <==> r is Ok,
            r is Ok ==> r->Ok_0@ == product_by_rows(self@, transpose(rhs@)),
            r is Ok ==> r->Ok_0@ == product(self@, rhs@),
            r is Ok ==> r->Ok_0@.rows == self@.rows && r->Ok_0@.cols == rhs@.cols,
            r is Err ==> r->Err_0 == MatrixError::DimensionMismatch,
    {
        let n = self.rows();
        let m = self.cols();
        let kk = rhs.cols();
        if m != rhs.rows() {
            return Err(MatrixError::DimensionMismatch);
        }
        let rhs_t = rhs.transposed();
        let ghost a = self@;
        let ghost bt = rhs_t@;
        let ghost target = product_by_rows(a, bt);
        let mut out: Vec<T> = Vec::new();
        let mut i: usize = 0;
        while i < n
            invariant
                a == self@,
                bt == rhs_t@,
                target == product_by_rows(a, bt),
                n == a.rows,
                m == a.cols,
                m == bt.cols,
                kk == bt.rows,
                n * kk <= usize::MAX,
                i <= n,
                out@.len() == i * kk,
                forall|q: int| 0 <= q < out@.len() ==> #[trigger] out@[q] == target.elems[q],
            decreases n - i,
        {
            let mut k: usize = 0;
            while k < kk
                invariant
                    a == self@,
                    bt == rhs_t@,
                    target == product_by_rows(a, bt),
                    n == a.rows,
                    m == a.cols,
                    m == bt.cols,
                    kk == bt.rows,
                    n * kk <= usize::MAX,
                    i < n,
                    k <= kk,
                    out@.len() == i * kk + k,
                    forall|q: int| 0 <= q < out@.len() ==> #[trigger] out@[q] == target.elems[q],
                decreases kk - k,
            {
                proof {
                    lemma_join_index(i as int, k as int, n as int, kk as int);
                }
                let cell = dot_row_pair(self, &rhs_t, i, k);
                out.push(cell);
                k = k + 1;
            }
            proof {
                assert(i * kk + kk == (i + 1) * kk) by (nonlinear_arith);
            }
            i = i + 1;
        }
        proof {
            assert(out@ =~= target.elems);
            law_strategies_agree(self@, rhs@);
        }
        Ok(Self::from_parts(n, kk, out))
    }
}

impl<T: Scalar> Matrix<T, Parallel> {
    /// The output element at flat position `pos` of the product of `self`
    /// with the matrix whose transpose is `rhs_t`.
    pub(crate) fn cell(&self, rhs_t: &Self, pos: usize) -> (r: T)
        requires
            self@.cols == rhs_t@.cols,
            pos < self@.rows * rhs_t@.rows,
        ensures
            r == product_by_rows(self@, rhs_t@).elems[pos as int],
    {
        let n = self.rows();
        let kk = rhs_t.rows();
        proof {
            lemma_split_index(pos as int, n as int, kk as int);
        }
        dot_row_pair(self, rhs_t, pos / kk, pos % kk)
    }

    /// The product `self * rhs`: the right operand is transposed once, then
    /// every output element is computed as an independent task on a pool of
    /// threads, each the dot product of a row of `self` and a row of that
    /// transpose accumulated in increasing order, and stored at its own
    /// position; `DimensionMismatch` exactly when `self.cols != rhs.rows`.
    pub fn mul(&self, rhs: &Self) -> (r: Result<Self, MatrixError>)
        requires
            self@.rows * rhs@.cols <= usize::MAX,
        ensures
            self@.cols == rhs@.rows <==> r is Ok,
            r is Ok ==> r->Ok_0@ == product_by_rows(self@, transpose(rhs@)),
            r is Ok ==> r->Ok_0@ == product(self@, rhs@),
            r is Ok ==> r->Ok_0@.rows == self@.rows && r->Ok_0@.cols == rhs@.cols,
            r is Err ==> r->Err_0 == MatrixError::DimensionMismatch,
    {
        let n = self.rows();
        let m = self.cols();
        let kk = rhs.cols();
        if m != rhs.rows() {
            return Err(MatrixError::DimensionMismatch);
        }
        let rhs_t = rhs.transposed();
        let out = collect_cells(self, &rhs_t, n * kk);
        proof {
            law_strategies_agree(self@, rhs@);
        }
        Ok(Self::from_parts(n, kk, out))
    }
}

} // verus!
