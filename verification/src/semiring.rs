//! Matrices over a semiring: the operations of a `Scalar` are defined for every
//! pair of operands and keep the laws, and so do the operations on matrices
//! that are made of them.

use vstd::prelude::*;
use crate::scalar::Scalar;
use crate::grid::is_grid;

verus! {

/// The sum of the first `n` terms of row `i` of `a` times column `j` of `b`,
/// in the semiring of `T`.
pub open spec fn lawful_dot<T: Scalar>(a: Seq<Seq<T>>, b: Seq<Seq<T>>, i: int, j: int, n: nat) -> T
    decreases n,
{
    if n == 0 {
        T::zero()
    } else {
        lawful_dot(a, b, i, j, (n - 1) as nat).sum(a[i][n - 1].product(b[n - 1][j]))
    }
}

/// The product of `a` with `b`, a grid whose rows have `cols` cells, in the
/// semiring of `T`.
pub open spec fn lawful_product<T: Scalar>(a: Seq<Seq<T>>, b: Seq<Seq<T>>, cols: nat) -> Seq<
    Seq<T>,
> {
    Seq::new(a.len(), |i: int| Seq::new(cols, |j: int| lawful_dot(a, b, i, j, b.len())))
}

/// `m` multiplied by itself until it occurs `e` times, in the semiring of `T`;
/// `m` itself for `e` below 2.
pub open spec fn lawful_power<T: Scalar>(m: Seq<Seq<T>>, e: nat) -> Seq<Seq<T>>
    decreases e,
{
    if e <= 1 {
        m
    } else {
        lawful_product(lawful_power(m, (e - 1) as nat), m, m.len())
    }
}

/// The sum over `t` below `m` of `f(s, t)`, added up in the order of `t`.
pub open spec fn row_total<T: Scalar>(f: spec_fn(int, int) -> T, s: int, m: nat) -> T
    decreases m,
{
    if m == 0 {
        T::zero()
    } else {
        row_total(f, s, (m - 1) as nat).sum(f(s, m - 1))
    }
}

/// The sum over `s` below `n` of `f(s, t)`, added up in the order of `s`.
pub open spec fn column_total<T: Scalar>(f: spec_fn(int, int) -> T, t: int, n: nat) -> T
    decreases n,
{
    if n == 0 {
        T::zero()
    } else {
        column_total(f, t, (n - 1) as nat).sum(f(n - 1, t))
    }
}

/// The sum of the first `n` row totals.
pub open spec fn total_by_rows<T: Scalar>(f: spec_fn(int, int) -> T, n: nat, m: nat) -> T
    decreases n,
{
    if n == 0 {
        T::zero()
    } else {
        total_by_rows(f, (n - 1) as nat, m).sum(row_total(f, n - 1, m))
    }
}

/// The sum of the first `m` column totals.
pub open spec fn total_by_columns<T: Scalar>(f: spec_fn(int, int) -> T, n: nat, m: nat) -> T
    decreases m,
{
    if m == 0 {
        T::zero()
    } else {
        total_by_columns(f, n, (m - 1) as nat).sum(column_total(f, m - 1, n))
    }
}

/// `(a + b) + (c + d) == (a + c) + (b + d)`.
proof fn lemma_sum_interchange<T: Scalar>(a: T, b: T, c: T, d: T)
    ensures
        a.sum(b).sum(c.sum(d)) == a.sum(c).sum(b.sum(d)),
{
    T::sum_associative(a, b, c.sum(d));
    T::sum_associative(b, c, d);
    T::sum_commutative(b, c);
    T::sum_associative(c, b, d);
    T::sum_associative(a, c, b.sum(d));
}

/// One more row adds its total to the sum of the column totals.
proof fn lemma_columns_with_one_more_row<T: Scalar>(f: spec_fn(int, int) -> T, n: nat, m: nat)
    requires
        n > 0,
    ensures
        total_by_columns(f, n, m) == total_by_columns(f, (n - 1) as nat, m).sum(
            row_total(f, n - 1, m),
        ),
    decreases m,
{
    if m == 0 {
        T::zero_neutral(T::zero());
    } else {
        lemma_columns_with_one_more_row(f, n, (m - 1) as nat);
        lemma_sum_interchange(
            total_by_columns(f, (n - 1) as nat, (m - 1) as nat),
            row_total(f, n - 1, (m - 1) as nat),
            column_total(f, m - 1, (n - 1) as nat),
            f(n - 1, m - 1),
        );
    }
}

/// A finite double sum does not depend on whether its rows or its columns are
/// added up first.
pub proof fn lemma_total_exchange<T: Scalar>(f: spec_fn(int, int) -> T, n: nat, m: nat)
    ensures
        total_by_rows(f, n, m) == total_by_columns(f, n, m),
    decreases n,
{
    if n == 0 {
        lemma_zero_columns(f, m);
    } else {
        lemma_total_exchange(f, (n - 1) as nat, m);
        lemma_columns_with_one_more_row(f, n, m);
    }
}

/// The column totals of no rows add up to the zero.
proof fn lemma_zero_columns<T: Scalar>(f: spec_fn(int, int) -> T, m: nat)
    ensures
        total_by_columns(f, 0, m) == T::zero(),
    decreases m,
{
    if m > 0 {
        lemma_zero_columns(f, (m - 1) as nat);
        T::zero_neutral(T::zero());
    }
}

/// The term of the triple product of `a`, `b` and `c` for the cell `(i, j)`
/// that goes through column `s` of `a` and row `t` of `c`.
pub open spec fn triple_term<T: Scalar>(
    a: Seq<Seq<T>>,
    b: Seq<Seq<T>>,
    c: Seq<Seq<T>>,
    i: int,
    j: int,
) -> spec_fn(int, int) -> T {
    |s: int, t: int| a[i][s].product(b[s][t]).product(c[t][j])
}

/// A cell of `a * b`, times a cell of `c`, is a column total of the triple
/// terms.
proof fn lemma_scaled_right<T: Scalar>(
    a: Seq<Seq<T>>,
    b: Seq<Seq<T>>,
    c: Seq<Seq<T>>,
    i: int,
    j: int,
    t: int,
    n: nat,
)
    ensures
        lawful_dot(a, b, i, t, n).product(c[t][j]) == column_total(triple_term(a, b, c, i, j), t, n),
    decreases n,
{
    if n == 0 {
        T::zero_annihilates(c[t][j]);
    } else {
        lemma_scaled_right(a, b, c, i, j, t, (n - 1) as nat);
        T::product_distributes(
            c[t][j],
            lawful_dot(a, b, i, t, (n - 1) as nat),
            a[i][n - 1].product(b[n - 1][t]),
        );
    }
}

/// A cell of `a`, times a cell of `b * c`, is a row total of the triple terms.
proof fn lemma_scaled_left<T: Scalar>(
    a: Seq<Seq<T>>,
    b: Seq<Seq<T>>,
    c: Seq<Seq<T>>,
    i: int,
    j: int,
    s: int,
    m: nat,
)
    ensures
        a[i][s].product(lawful_dot(b, c, s, j, m)) == row_total(triple_term(a, b, c, i, j), s, m),
    decreases m,
{
    if m == 0 {
        T::zero_annihilates(a[i][s]);
    } else {
        lemma_scaled_left(a, b, c, i, j, s, (m - 1) as nat);
        T::product_distributes(
            a[i][s],
            lawful_dot(b, c, s, j, (m - 1) as nat),
            b[s][m - 1].product(c[m - 1][j]),
        );
        T::product_associative(a[i][s], b[s][m - 1], c[m - 1][j]);
    }
}

/// A cell of `(a * b) * c` is the sum of the triple terms by columns.
proof fn lemma_left_product_cell<T: Scalar>(
    a: Seq<Seq<T>>,
    b: Seq<Seq<T>>,
    c: Seq<Seq<T>>,
    i: int,
    j: int,
    inner: nat,
    m: nat,
    k: nat,
)
    requires
        0 <= i < a.len(),
        b.len() == inner,
        m <= k,
    ensures
        lawful_dot(lawful_product(a, b, k), c, i, j, m) == total_by_columns(
            triple_term(a, b, c, i, j),
            inner,
            m,
        ),
    decreases m,
{
    if m > 0 {
        lemma_left_product_cell(a, b, c, i, j, inner, (m - 1) as nat, k);
        lemma_scaled_right(a, b, c, i, j, m - 1, inner);
        assert(lawful_product(a, b, k)[i][m - 1] == lawful_dot(a, b, i, m - 1, inner));
    }
}

/// A cell of `a * (b * c)` is the sum of the triple terms by rows.
proof fn lemma_right_product_cell<T: Scalar>(
    a: Seq<Seq<T>>,
    b: Seq<Seq<T>>,
    c: Seq<Seq<T>>,
    i: int,
    j: int,
    n: nat,
    k: nat,
    cols: nat,
)
    requires
        n <= b.len(),
        c.len() == k,
        0 <= j < cols,
    ensures
        lawful_dot(a, lawful_product(b, c, cols), i, j, n) == total_by_rows(
            triple_term(a, b, c, i, j),
            n,
            k,
        ),
    decreases n,
{
    if n > 0 {
        lemma_right_product_cell(a, b, c, i, j, (n - 1) as nat, k, cols);
        lemma_scaled_left(a, b, c, i, j, n - 1, k);
        assert(lawful_product(b, c, cols)[n - 1][j] == lawful_dot(b, c, n - 1, j, k));
    }
}

/// Matrix multiplication is associative: for `a` of `rows` by `n`, `b` of `n`
/// by `k` and `c` of `k` by `cols`, `(a * b) * c` is `a * (b * c)`.
pub proof fn lemma_lawful_product_associative<T: Scalar>(
    a: Seq<Seq<T>>,
    b: Seq<Seq<T>>,
    c: Seq<Seq<T>>,
    rows: nat,
    n: nat,
    k: nat,
    cols: nat,
)
    requires
        is_grid(a, rows, n),
        is_grid(b, n, k),
        is_grid(c, k, cols),
    ensures
        lawful_product(lawful_product(a, b, k), c, cols) == lawful_product(a, lawful_product(b, c, cols), cols),
{
    let left = lawful_product(lawful_product(a, b, k), c, cols);
    let right = lawful_product(a, lawful_product(b, c, cols), cols);
    assert forall|i: int, j: int| 0 <= i < rows && 0 <= j < cols implies left[i][j]
        == right[i][j] by {
        lemma_left_product_cell(a, b, c, i, j, n, k, k);
        lemma_right_product_cell(a, b, c, i, j, n, k, cols);
        lemma_total_exchange(triple_term(a, b, c, i, j), n, k);
    }
    assert(left =~~= right);
}

/// A power of a square matrix is a square matrix of the same size.
pub proof fn lemma_lawful_power_shape<T: Scalar>(m: Seq<Seq<T>>, n: nat, e: nat)
    requires
        is_grid(m, n, n),
    ensures
        is_grid(lawful_power(m, e), n, n),
    decreases e,
{
    if e > 1 {
        lemma_lawful_power_shape(m, n, (e - 1) as nat);
    }
}

/// Powers of one square matrix multiply by adding their exponents.
pub proof fn lemma_lawful_power_add<T: Scalar>(m: Seq<Seq<T>>, n: nat, x: nat, y: nat)
    requires
        is_grid(m, n, n),
        x >= 1,
        y >= 1,
    ensures
        lawful_power(m, x + y) == lawful_product(lawful_power(m, x), lawful_power(m, y), n),
    decreases y,
{
    if y > 1 {
        lemma_lawful_power_add(m, n, x, (y - 1) as nat);
        lemma_lawful_power_shape(m, n, x);
        lemma_lawful_power_shape(m, n, (y - 1) as nat);
        lemma_lawful_product_associative(lawful_power(m, x), lawful_power(m, (y - 1) as nat), m, n, n, n, n);
    }
}

/// What exponentiation by squaring computes is the power: the square of the
/// power to half an even exponent, and the matrix times the square of the
/// power to half of one less than an odd exponent above 1.
pub proof fn lemma_lawful_power_by_squaring<T: Scalar>(m: Seq<Seq<T>>, n: nat, e: nat)
    requires
        is_grid(m, n, n),
        e > 1,
    ensures
        e % 2 == 0 ==> lawful_power(m, e) == lawful_product(lawful_power(m, e / 2), lawful_power(m, e / 2), n),
        e % 2 == 1 ==> lawful_power(m, e) == lawful_product(
            m,
            lawful_product(lawful_power(m, e / 2), lawful_power(m, e / 2), n),
            n,
        ),
{
    let half = e / 2;
    lemma_lawful_power_add(m, n, half, half);
    if e % 2 == 1 {
        lemma_lawful_power_add(m, n, 1, half + half);
    }
}

} // verus!
