use crate::scalar::Scalar;
use vstd::prelude::*;

verus! {

/// The mathematical model of a matrix: its shape and its elements in
/// row-major order (the element in row `i` and column `j` stands at
/// `i * cols + j`).
pub struct Grid<T> {
    pub rows: nat,
    pub cols: nat,
    pub elems: Seq<T>,
}

impl<T> Grid<T> {
    /// Exactly `rows * cols` elements.
    pub open spec fn wf(self) -> bool {
        self.elems.len() == self.rows * self.cols
    }

    pub open spec fn at(self, i: int, j: int) -> T {
        self.elems[i * self.cols + j]
    }
}

/// Row `i` of `g`: its `cols` elements in order.
pub open spec fn row_of<T>(g: Grid<T>, i: int) -> Seq<T> {
    g.elems.subrange(i * g.cols, (i + 1) * g.cols)
}

/// The `n` by `n` identity: one on the diagonal, zero elsewhere.
pub open spec fn identity<T: Scalar>(n: nat) -> Grid<T> {
    Grid {
        rows: n,
        cols: n,
        elems: Seq::new(
            n * n,
            |p: int|
                if p / (n as int) == p % (n as int) {
                    T::one_spec()
                } else {
                    T::zero_spec()
                },
        ),
    }
}

/// The transpose: `cols` rows of `rows` columns, with the element in row `i`
/// and column `j` of `g` moved to row `j` and column `i`.
pub open spec fn transpose<T>(g: Grid<T>) -> Grid<T> {
    Grid {
        rows: g.cols,
        cols: g.rows,
        elems: Seq::new(g.rows * g.cols, |p: int| g.at(p % (g.rows as int), p / (g.rows as int))),
    }
}

/// A flat index below `r * c` splits into a row below `r` and a column below `c`.
pub proof fn lemma_split_index(p: int, r: int, c: int)
    requires
        0 <= p < r * c,
        0 <= r,
    ensures
        c > 0,
        0 <= p / c < r,
        0 <= p % c < c,
        p == (p / c) * c + p % c,
{
    if c <= 0 {
        assert(r * c <= 0) by (nonlinear_arith)
            requires
                c <= 0,
                r >= 0,
                p >= 0,
                p < r * c,
        ;
    }
    vstd::arithmetic::div_mod::lemma_fundamental_div_mod(p, c);
    vstd::arithmetic::div_mod::lemma_mod_bound(p, c);
    vstd::arithmetic::div_mod::lemma_div_pos_is_pos(p, c);
    assert(p / c < r) by (nonlinear_arith)
        requires
            c > 0,
            p < r * c,
            p == c * (p / c) + p % c,
            p % c >= 0,
    ;
    vstd::arithmetic::mul::lemma_mul_is_commutative(c, p / c);
}

/// A row below `r` and a column below `c` make a flat index below `r * c`
/// from which they are recovered.
pub proof fn lemma_join_index(i: int, j: int, r: int, c: int)
    requires
        0 <= i < r,
        0 <= j < c,
    ensures
        0 <= i * c + j < r * c,
        (i * c + j) / c == i,
        (i * c + j) % c == j,
{
    assert(0 <= i * c + j < r * c) by (nonlinear_arith)
        requires
            0 <= i < r,
            0 <= j < c,
    ;
    vstd::arithmetic::div_mod::lemma_fundamental_div_mod_converse(i * c + j, c, i, j);
}

/// Transposing twice gives back the matrix.
pub proof fn law_transpose_round_trip<T>(g: Grid<T>)
    requires
        g.wf(),
    ensures
        transpose(transpose(g)) == g,
{
    let t = transpose(g);
    let tt = transpose(t);
    let r = g.rows as int;
    let c = g.cols as int;
    assert(t.elems.len() == r * c);
    assert(tt.elems.len() == c * r) by (nonlinear_arith)
        requires
            tt.elems.len() == t.rows * t.cols,
            t.rows == c,
            t.cols == r,
    ;
    vstd::arithmetic::mul::lemma_mul_is_commutative(r, c);
    assert forall|p: int| 0 <= p < r * c implies #[trigger] tt.elems[p] == g.elems[p] by {
        lemma_split_index(p, r, c);
        let i = p / c;
        let j = p % c;
        lemma_join_index(j, i, c, r);
        assert(tt.elems[p] == t.at(j, i));
        assert(t.at(j, i) == t.elems[j * r + i]);
        assert(t.elems[j * r + i] == g.at(i, j));
    }
    assert(tt.elems =~= g.elems);
}

} // verus!

verus! {

/// The sum over `j < n` of `a[i][j] * b[j][k]`, accumulated from zero in
/// increasing order of `j`.
pub open spec fn mul_entry<T: Scalar>(a: Grid<T>, b: Grid<T>, i: int, k: int, n: nat) -> T
    decreases n,
{
    if n == 0 {
        T::zero_spec()
    } else {
        T::plus_spec(
            mul_entry(a, b, i, k, (n - 1) as nat),
            T::times_spec(a.at(i, n - 1), b.at(n - 1, k)),
        )
    }
}

/// The product `a * b`: `a.rows` rows of `b.cols` columns, each element the
/// sum over the shared dimension in increasing order.
pub open spec fn product<T: Scalar>(a: Grid<T>, b: Grid<T>) -> Grid<T> {
    Grid {
        rows: a.rows,
        cols: b.cols,
        elems: Seq::new(
            a.rows * b.cols,
            |p: int| mul_entry(a, b, p / (b.cols as int), p % (b.cols as int), a.cols),
        ),
    }
}

/// The dot product of the first `n` elements of row `i` of `a` and row `k`
/// of `bt`, accumulated from zero in increasing order.
pub open spec fn dot_rows<T: Scalar>(a: Grid<T>, bt: Grid<T>, i: int, k: int, n: nat) -> T
    decreases n,
{
    if n == 0 {
        T::zero_spec()
    } else {
        T::plus_spec(
            dot_rows(a, bt, i, k, (n - 1) as nat),
            T::times_spec(a.at(i, n - 1), bt.at(k, n - 1)),
        )
    }
}

/// The product of `a` with the matrix whose transpose is `bt`, each element
/// the dot product of a row of `a` and a row of `bt`.
pub open spec fn product_by_rows<T: Scalar>(a: Grid<T>, bt: Grid<T>) -> Grid<T> {
    Grid {
        rows: a.rows,
        cols: bt.rows,
        elems: Seq::new(
            a.rows * bt.rows,
            |p: int| dot_rows(a, bt, p / (bt.rows as int), p % (bt.rows as int), a.cols),
        ),
    }
}

/// Row `k` of the transpose is column `k` of the matrix.
pub proof fn lemma_transpose_at<T>(g: Grid<T>, j: int, k: int)
    requires
        g.wf(),
        0 <= j < g.rows,
        0 <= k < g.cols,
    ensures
        transpose(g).at(k, j) == g.at(j, k),
{
    lemma_join_index(k, j, g.cols as int, g.rows as int);
    vstd::arithmetic::mul::lemma_mul_is_commutative(g.rows as int, g.cols as int);
}

proof fn lemma_dot_rows_transposed<T: Scalar>(a: Grid<T>, b: Grid<T>, i: int, k: int, n: nat)
    requires
        b.wf(),
        n <= b.rows,
        0 <= k < b.cols,
    ensures
        dot_rows(a, transpose(b), i, k, n) == mul_entry(a, b, i, k, n),
    decreases n,
{
    if n > 0 {
        lemma_dot_rows_transposed(a, b, i, k, (n - 1) as nat);
        lemma_transpose_at(b, n - 1, k);
    }
}

/// The strategies agree: taking each element of the product as the dot
/// product of a row of `a` and a row of the transpose of `b` gives exactly
/// the product `a * b`, in the same summation order.
pub proof fn law_strategies_agree<T: Scalar>(a: Grid<T>, b: Grid<T>)
    requires
        a.wf(),
        b.wf(),
        a.cols == b.rows,
    ensures
        product_by_rows(a, transpose(b)) == product(a, b),
{
    let l = product_by_rows(a, transpose(b));
    let r = product(a, b);
    assert forall|p: int| 0 <= p < a.rows * b.cols implies #[trigger] l.elems[p] == r.elems[p] by {
        lemma_split_index(p, a.rows as int, b.cols as int);
        lemma_dot_rows_transposed(a, b, p / (b.cols as int), p % (b.cols as int), a.cols);
    }
    assert(l.elems =~= r.elems);
}

/// The product has the left operand's rows and the right operand's columns,
/// with one element for each.
pub proof fn law_product_shape<T: Scalar>(a: Grid<T>, b: Grid<T>)
    ensures
        product(a, b).rows == a.rows,
        product(a, b).cols == b.cols,
        product(a, b).wf(),
{
}

/// Neutral elements that hold for the element type: adding zero and
/// multiplying by one, on either side, change nothing, and multiplying by
/// zero gives zero.
pub open spec fn unit_laws<T: Scalar>() -> bool {
    forall|x: T|
        {
            &&& #[trigger] T::plus_spec(T::zero_spec(), x) == x
            &&& T::plus_spec(x, T::zero_spec()) == x
            &&& T::times_spec(x, T::one_spec()) == x
            &&& T::times_spec(x, T::zero_spec()) == T::zero_spec()
            &&& T::times_spec(T::one_spec(), x) == x
            &&& T::times_spec(T::zero_spec(), x) == T::zero_spec()
        }
}

proof fn lemma_entry_by_identity<T: Scalar>(a: Grid<T>, i: int, k: int, n: nat)
    requires
        unit_laws::<T>(),
        0 <= k < a.cols,
        n <= a.cols,
    ensures
        mul_entry(a, identity::<T>(a.cols), i, k, n) == if n <= k {
            T::zero_spec()
        } else {
            a.at(i, k)
        },
    decreases n,
{
    if n > 0 {
        let id = identity::<T>(a.cols);
        let j = n - 1;
        lemma_entry_by_identity(a, i, k, (n - 1) as nat);
        lemma_join_index(j, k, a.cols as int, a.cols as int);
        let x = a.at(i, j);
        assert(T::plus_spec(T::zero_spec(), x) == x);
        let z = T::zero_spec();
        assert(T::plus_spec(T::zero_spec(), z) == z);
        let y = a.at(i, k);
        assert(T::plus_spec(T::zero_spec(), y) == y);
    }
}

proof fn lemma_identity_by_entry<T: Scalar>(a: Grid<T>, i: int, k: int, n: nat)
    requires
        unit_laws::<T>(),
        0 <= i < a.rows,
        n <= a.rows,
    ensures
        mul_entry(identity::<T>(a.rows), a, i, k, n) == if n <= i {
            T::zero_spec()
        } else {
            a.at(i, k)
        },
    decreases n,
{
    if n > 0 {
        let j = n - 1;
        lemma_identity_by_entry(a, i, k, (n - 1) as nat);
        lemma_join_index(i, j, a.rows as int, a.rows as int);
        let x = a.at(j, k);
        assert(T::plus_spec(T::zero_spec(), x) == x);
        let z = T::zero_spec();
        assert(T::plus_spec(T::zero_spec(), z) == z);
        let y = a.at(i, k);
        assert(T::plus_spec(T::zero_spec(), y) == y);
    }
}

/// Multiplying by the identity of matching size, on either side, gives back
/// the matrix, for every element type whose zero and one are neutral.
pub proof fn law_identity_product<T: Scalar>(a: Grid<T>)
    requires
        a.wf(),
        unit_laws::<T>(),
    ensures
        product(a, identity::<T>(a.cols)) == a,
        product(identity::<T>(a.rows), a) == a,
{
    let r = product(a, identity::<T>(a.cols));
    let l = product(identity::<T>(a.rows), a);
    assert forall|p: int| 0 <= p < a.rows * a.cols implies #[trigger] r.elems[p] == a.elems[p] by {
        lemma_split_index(p, a.rows as int, a.cols as int);
        lemma_entry_by_identity(a, p / (a.cols as int), p % (a.cols as int), a.cols);
    }
    assert forall|p: int| 0 <= p < a.rows * a.cols implies #[trigger] l.elems[p] == a.elems[p] by {
        lemma_split_index(p, a.rows as int, a.cols as int);
        lemma_identity_by_entry(a, p / (a.cols as int), p % (a.cols as int), a.rows);
    }
    assert(r.elems =~= a.elems);
    assert(l.elems =~= a.elems);
}

/// Wrapping 64-bit integers have a neutral zero and one.
pub proof fn law_unit_laws_i64()
    ensures
        unit_laws::<i64>(),
{
    assert forall|x: i64|
        {
            &&& #[trigger] i64::plus_spec(i64::zero_spec(), x) == x
            &&& i64::plus_spec(x, i64::zero_spec()) == x
            &&& i64::times_spec(x, i64::one_spec()) == x
            &&& i64::times_spec(x, i64::zero_spec()) == i64::zero_spec()
            &&& i64::times_spec(i64::one_spec(), x) == x
            &&& i64::times_spec(i64::zero_spec(), x) == i64::zero_spec()
        } by {
        assert(1 * x == x);
        assert(0 * x == 0);
        assert(x * 1 == x);
        assert(x * 0 == 0);
    }
}

} // verus!
