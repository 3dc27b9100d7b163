use crate::grid::{identity, lemma_join_index, row_of, transpose, Grid};
use crate::scalar::Scalar;
use std::marker::PhantomData;
use vstd::prelude::*;

verus! {

/// Why an operation on matrices was refused.
#[derive(Clone, Copy, Debug, PartialEq, Eq)]
pub enum MatrixError {
    /// The element buffer does not hold `rows * cols` elements.
    ShapeMismatch,
    /// The left operand's column count differs from the right operand's row count.
    DimensionMismatch,
    /// A row or column index at or beyond the matrix's shape.
    OutOfRange,
}

/// A dense matrix of `rows * cols` elements in row-major order. The strategy
/// `S` selects how `mul` computes a product; it carries no data.
///
/// Empty shapes (no rows, or no columns) are valid matrices with no elements.
#[derive(Debug)]
pub struct Matrix<T, S> {
    rows: usize,
    cols: usize,
    data: Vec<T>,
    strategy: PhantomData<S>,
}

impl<T, S> View for Matrix<T, S> {
    type V = Grid<T>;

    closed spec fn view(&self) -> Grid<T> {
        Grid { rows: self.rows as nat, cols: self.cols as nat, elems: self.data@ }
    }
}

impl<T, S> Matrix<T, S> {
    #[verifier::type_invariant]
    spec fn shape_holds(&self) -> bool {
        &&& self.data@.len() == self.rows * self.cols
        &&& self.rows * self.cols <= usize::MAX
    }
}

impl<T: Scalar, S> Matrix<T, S> {
    /// The number of rows.
    pub fn rows(&self) -> (r: usize)
        ensures
            r == self@.rows,
            self@.wf(),
    {
        proof {
            use_type_invariant(self);
        }
        self.rows
    }

    /// The number of columns.
    pub fn cols(&self) -> (r: usize)
        ensures
            r == self@.cols,
            self@.wf(),
    {
        proof {
            use_type_invariant(self);
        }
        self.cols
    }

    /// The elements in row-major order.
    pub fn data(&self) -> (r: &[T])
        ensures
            r@ == self@.elems,
    {
        self.data.as_slice()
    }

    /// A `rows` by `cols` matrix of zeros.
    pub fn new(rows: usize, cols: usize) -> (r: Self)
        requires
            rows * cols <= usize::MAX,
        ensures
            r@.rows == rows,
            r@.cols == cols,
            r@.elems == Seq::new((rows * cols) as nat, |p: int| T::zero_spec()),
    {
        let total: usize = rows * cols;
        let zero = T::zero();
        let mut data: Vec<T> = Vec::new();
        let mut p: usize = 0;
        while p < total
            invariant
                p <= total,
                zero == T::zero_spec(),
                data@.len() == p,
                forall|q: int| 0 <= q < p ==> #[trigger] data@[q] == T::zero_spec(),
            decreases total - p,
        {
            data.push(zero);
            p = p + 1;
        }
        let r = Matrix { rows, cols, data, strategy: PhantomData };
        assert(r@.elems =~= Seq::new((rows * cols) as nat, |p: int| T::zero_spec()));
        r
    }

    /// The matrix of the given shape over `data`, taken in row-major order;
    /// `ShapeMismatch` exactly when `data` does not hold `rows * cols` elements.
    pub fn from(rows: usize, cols: usize, data: Vec<T>) -> (r: Result<Self, MatrixError>)
        ensures
            data@.len() == rows * cols <==> r is Ok,
            r is Ok ==> r->Ok_0@ == (Grid { rows: rows as nat, cols: cols as nat, elems: data@ }),
            r is Err ==> r->Err_0 == MatrixError::ShapeMismatch,
    {
        let len = data.len();
        match rows.checked_mul(cols) {
            Some(total) => {
                if len == total {
                    Ok(Matrix { rows, cols, data, strategy: PhantomData })
                } else {
                    Err(MatrixError::ShapeMismatch)
                }
            },
            None => Err(MatrixError::ShapeMismatch),
        }
    }

    /// The `n` by `n` identity matrix: ones on the diagonal, zeros elsewhere.
    pub fn identity(n: usize) -> (r: Self)
        requires
            n * n <= usize::MAX,
        ensures
            r@ == identity::<T>(n as nat),
    {
        let zero = T::zero();
        let one = T::one();
        let mut data: Vec<T> = Vec::new();
        let mut i: usize = 0;
        while i < n
            invariant
                i <= n,
                zero == T::zero_spec(),
                one == T::one_spec(),
                n * n <= usize::MAX,
                data@.len() == i * n,
                forall|q: int|
                    0 <= q < data@.len() ==> #[trigger] data@[q] == identity::<T>(n as nat).elems[q],
            decreases n - i,
        {
            let mut j: usize = 0;
            while j < n
                invariant
                    i < n,
                    j <= n,
                    zero == T::zero_spec(),
                    one == T::one_spec(),
                    n * n <= usize::MAX,
                    data@.len() == i * n + j,
                    forall|q: int|
                        0 <= q < data@.len() ==> #[trigger] data@[q] == identity::<T>(
                            n as nat,
                        ).elems[q],
                decreases n - j,
            {
                proof {
                    lemma_join_index(i as int, j as int, n as int, n as int);
                }
                if i == j {
                    data.push(one);
                } else {
                    data.push(zero);
                }
                j = j + 1;
            }
            proof {
                assert(i * n + n == (i + 1) * n) by (nonlinear_arith);
            }
            i = i + 1;
        }
        let r = Matrix { rows: n, cols: n, data, strategy: PhantomData };
        assert(r@.elems =~= identity::<T>(n as nat).elems);
        r
    }

    /// The transpose of the matrix, as a new matrix.
    pub fn transposed(&self) -> (r: Self)
        ensures
            r@ == transpose(self@),
    {
        proof {
            use_type_invariant(self);
        }
        let rows = self.rows;
        let cols = self.cols;
        let ghost g = self@;
        let mut out: Vec<T> = Vec::new();
        let mut j: usize = 0;
        while j < cols
            invariant
                g == self@,
                g.wf(),
                rows * cols <= usize::MAX,
                rows == g.rows,
                cols == g.cols,
                self.data@ == g.elems,
                j <= cols,
                out@.len() == j * rows,
                forall|q: int|
                    0 <= q < out@.len() ==> #[trigger] out@[q] == transpose(g).elems[q],
            decreases cols - j,
        {
            let mut i: usize = 0;
            while i < rows
                invariant
                    g == self@,
                    g.wf(),
                    rows * cols <= usize::MAX,
                    rows == g.rows,
                    cols == g.cols,
                    self.data@ == g.elems,
                    j < cols,
                    i <= rows,
                    out@.len() == j * rows + i,
                    forall|q: int|
                        0 <= q < out@.len() ==> #[trigger] out@[q] == transpose(g).elems[q],
                decreases rows - i,
            {
                proof {
                    lemma_join_index(i as int, j as int, rows as int, cols as int);
                    lemma_join_index(j as int, i as int, cols as int, rows as int);
                    vstd::arithmetic::mul::lemma_mul_is_commutative(rows as int, cols as int);
                }
                out.push(self.data[i * cols + j]);
                i = i + 1;
            }
            proof {
                assert(j * rows + rows == (j + 1) * rows) by (nonlinear_arith);
            }
            j = j + 1;
        }
        proof {
            vstd::arithmetic::mul::lemma_mul_is_commutative(rows as int, cols as int);
        }
        let r = Matrix { rows: cols, cols: rows, data: out, strategy: PhantomData };
        assert(r@.elems =~= transpose(g).elems);
        r
    }

    /// Row `i`, its `cols` elements in order; `OutOfRange` exactly when `i`
    /// is not below `rows`.
    pub fn row(&self, i: usize) -> (r: Result<&[T], MatrixError>)
        ensures
            i < self@.rows <==> r is Ok,
            r is Ok ==> r->Ok_0@ == row_of(self@, i as int),
            r is Ok ==> r->Ok_0@.len() == self@.cols,
            r is Err ==> r->Err_0 == MatrixError::OutOfRange,
    {
        proof {
            use_type_invariant(self);
        }
        if i < self.rows {
            Ok(self.row_unchecked(i))
        } else {
            Err(MatrixError::OutOfRange)
        }
    }

    /// Row `i` without a bound check of its own: the caller has shown that
    /// `i` is below `rows`.
    pub(crate) fn row_unchecked(&self, i: usize) -> (r: &[T])
        requires
            i < self@.rows,
        ensures
            r@ == row_of(self@, i as int),
            r@.len() == self@.cols,
            forall|j: int| 0 <= j < self@.cols ==> #[trigger] r@[j] == self@.at(i as int, j),
    {
        proof {
            use_type_invariant(self);
            assert((i + 1) * self.cols <= self.rows * self.cols) by (nonlinear_arith)
                requires
                    i < self.rows,
            ;
            assert((i + 1) * self.cols == i * self.cols + self.cols) by (nonlinear_arith);
        }
        vstd::slice::slice_subrange(self.data.as_slice(), i * self.cols, (i + 1) * self.cols)
    }

    /// The element in row `i` and column `j`, without a bound check of its
    /// own: the caller has shown that both indices are in range.
    pub(crate) fn get_unchecked(&self, i: usize, j: usize) -> (r: T)
        requires
            i < self@.rows,
            j < self@.cols,
        ensures
            r == self@.at(i as int, j as int),
    {
        proof {
            use_type_invariant(self);
            lemma_join_index(i as int, j as int, self.rows as int, self.cols as int);
        }
        self.data[i * self.cols + j]
    }

    /// Writes `value` in row `i` and column `j`, without a bound check of its
    /// own: the caller has shown that both indices are in range.
    pub(crate) fn put_unchecked(&mut self, i: usize, j: usize, value: T)
        requires
            i < old(self)@.rows,
            j < old(self)@.cols,
        ensures
            final(self)@ == (Grid {
                elems: old(self)@.elems.update(i * old(self)@.cols + j, value),
                ..old(self)@
            }),
    {
        proof {
            use_type_invariant(&*self);
            lemma_join_index(i as int, j as int, self.rows as int, self.cols as int);
        }
        let idx = i * self.cols + j;
        self.data[idx] = value;
    }

    /// The matrix of the given shape over `data`, whose length the caller has
    /// shown to be `rows * cols`.
    pub(crate) fn from_parts(rows: usize, cols: usize, data: Vec<T>) -> (r: Self)
        requires
            data@.len() == rows * cols,
            rows * cols <= usize::MAX,
        ensures
            r@ == (Grid { rows: rows as nat, cols: cols as nat, elems: data@ }),
    {
        Matrix { rows, cols, data, strategy: PhantomData }
    }

    /// The element in row `i` and column `j`; `OutOfRange` exactly when
    /// either index is beyond the shape.
    pub fn get(&self, i: usize, j: usize) -> (r: Result<T, MatrixError>)
        ensures
            (i < self@.rows && j < self@.cols) <==> r is Ok,
            r is Ok ==> r->Ok_0 == self@.at(i as int, j as int),
            r is Err ==> r->Err_0 == MatrixError::OutOfRange,
    {
        proof {
            use_type_invariant(self);
        }
        if i < self.rows && j < self.cols {
            proof {
                lemma_join_index(i as int, j as int, self.rows as int, self.cols as int);
            }
            Ok(self.data[i * self.cols + j])
        } else {
            Err(MatrixError::OutOfRange)
        }
    }

    /// Writes `value` in row `i` and column `j`, leaving every other element
    /// as it was; `OutOfRange`, and no change, exactly when either index is
    /// beyond the shape.
    pub fn set(&mut self, i: usize, j: usize, value: T) -> (r: Result<(), MatrixError>)
        ensures
            (i < old(self)@.rows && j < old(self)@.cols) <==> r is Ok,
            r is Ok ==> final(self)@ == (Grid {
                elems: old(self)@.elems.update(i * old(self)@.cols + j, value),
                ..old(self)@
            }),
            r is Err ==> r->Err_0 == MatrixError::OutOfRange && final(self)@ == old(self)@,
    {
        proof {
            use_type_invariant(&*self);
        }
        if i < self.rows && j < self.cols {
            proof {
                lemma_join_index(i as int, j as int, self.rows as int, self.cols as int);
            }
            let idx = i * self.cols + j;
            self.data[idx] = value;
            Ok(())
        } else {
            Err(MatrixError::OutOfRange)
        }
    }
}

} // verus!
