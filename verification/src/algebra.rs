//! The laws of matrix arithmetic over a `Scalar`, stated of what `+` and `*`
//! compute and proved in the semiring of the element type.

use vstd::prelude::*;
use vstd::std_specs::ops::AddSpec;
use vstd::std_specs::ops::MulSpec;
use crate::scalar::Scalar;
use crate::grid::is_grid;
use crate::grid::is_clone_of;
use crate::grid::clones_exactly;
use crate::grid::addition_obeys;
use crate::grid::arithmetic_obeys;
use crate::grid::default_of;
use crate::grid::is_default;
use crate::grid::filled;
use crate::grid::transposed;
use crate::grid::sum_of;
use crate::grid::sum_defined;
use crate::grid::dot;
use crate::grid::dot_defined;
use crate::grid::product_of;
use crate::grid::product_defined;
use crate::grid::repeated_product;
use crate::grid::repeated_product_defined;
use crate::grid::power_of;
use crate::grid::power_defined;
use crate::semiring::lawful_dot;
use crate::semiring::lawful_product;
use crate::semiring::lawful_power;
use crate::semiring::lemma_lawful_product_associative;
use crate::semiring::lemma_lawful_power_by_squaring;

verus! {

/// Where `T::clone` returns what it was given, a clone of a grid is that grid.
pub proof fn lemma_exact_clone_is_equal<T: Clone>(g: Seq<Seq<T>>, source: Seq<Seq<T>>)
    requires
        is_clone_of(g, source),
        clones_exactly::<T>(),
    ensures
        g == source,
{
    assert forall|i: int| 0 <= i < g.len() implies g[i] == source[i] by {
        assert forall|j: int| 0 <= j < g[i].len() implies g[i][j] == source[i][j] by {
            assert(cloned(source[i][j], g[i][j]));
        }
        assert(g[i] =~= source[i]);
    }
    assert(g =~= source);
}

/// A scalar keeps to what is specified of `+`, `*`, `clone` and `default`,
/// and what its `default` returns is its zero.
pub proof fn lemma_scalar_obeys<T: Scalar>()
    ensures
        addition_obeys::<T>(),
        arithmetic_obeys::<T>(),
        forall|z: T| #[trigger] is_default(z) ==> z == T::zero(),
{
    T::zero_is_accepted(T::zero());
    T::add_computes_sum(T::zero(), T::zero());
    T::mul_computes_product(T::zero(), T::zero());
    assert forall|a: T, b: T| cloned(a, b) implies a == b by {
        T::clone_is_exact(a, b);
    }
    assert forall|z: T| #[trigger] is_default(z) implies z == default_of::<T>() && z
        == T::zero() by {
        T::default_is_zero(z);
        T::default_is_zero(default_of::<T>());
    }
}

/// Once `T::default` has returned a value, the default of a scalar is its
/// zero.
pub proof fn lemma_default_is_zero<T: Scalar>(z: T)
    requires
        is_default(z),
    ensures
        z == T::zero(),
        default_of::<T>() == T::zero(),
{
    T::default_is_zero(z);
    T::default_is_zero(default_of::<T>());
}

/// A matrix filled with the zero is the matrix that `default` makes: a grid
/// whose cells are clones of the zero equals a grid of the same shape whose
/// cells are clones of a value that `T::default` returned.
pub proof fn lemma_zero_fill_is_default<T: Scalar>(
    a: Seq<Seq<T>>,
    b: Seq<Seq<T>>,
    z: T,
    rows: nat,
    cols: nat,
)
    requires
        is_clone_of(a, filled(T::zero(), rows, cols)),
        is_default(z),
        is_clone_of(b, filled(z, rows, cols)),
    ensures
        a == b,
        a == filled(T::zero(), rows, cols),
{
    lemma_scalar_obeys::<T>();
    lemma_default_is_zero(z);
    lemma_exact_clone_is_equal(a, filled(T::zero(), rows, cols));
    lemma_exact_clone_is_equal(b, filled(z, rows, cols));
}

/// Adding the zero matrix, on either side, can be computed and changes
/// nothing.
pub proof fn lemma_sum_with_zero<T: Scalar>(a: Seq<Seq<T>>, rows: nat, cols: nat)
    requires
        is_grid(a, rows, cols),
    ensures
        sum_defined(a, filled(T::zero(), rows, cols)),
        sum_defined(filled(T::zero(), rows, cols), a),
        sum_of(a, filled(T::zero(), rows, cols)) == a,
        sum_of(filled(T::zero(), rows, cols), a) == a,
{
    let zero = filled(T::zero(), rows, cols);
    assert forall|i: int, j: int| 0 <= i < rows && 0 <= j < cols implies {
        &&& (#[trigger] a[i][j]).add_req(zero[i][j])
        &&& zero[i][j].add_req(a[i][j])
        &&& a[i][j].add_spec(zero[i][j]) == a[i][j]
        &&& zero[i][j].add_spec(a[i][j]) == a[i][j]
    } by {
        T::zero_is_accepted(a[i][j]);
        T::add_computes_sum(a[i][j], T::zero());
        T::add_computes_sum(T::zero(), a[i][j]);
        T::zero_neutral(a[i][j]);
        T::sum_commutative(a[i][j], T::zero());
    }
    assert(sum_of(a, zero) =~~= a);
    assert(sum_of(zero, a) =~~= a);
}

/// Transposing twice gives the matrix back.
pub proof fn lemma_transpose_involution<T>(a: Seq<Seq<T>>, rows: nat, cols: nat)
    requires
        is_grid(a, rows, cols),
    ensures
        is_grid(transposed(a, cols), cols, rows),
        transposed(transposed(a, cols), rows) == a,
{
    assert(transposed(transposed(a, cols), rows) =~~= a);
}

/// A dot product whose every left factor is the zero can be computed and is
/// the zero.
proof fn lemma_dot_zero_left<T: Scalar>(a: Seq<Seq<T>>, b: Seq<Seq<T>>, i: int, j: int, n: nat)
    requires
        forall|t: int| 0 <= t < n ==> a[i][t] == T::zero(),
    ensures
        dot_defined(a, b, i, j, n, T::zero()),
        dot(a, b, i, j, n, T::zero()) == T::zero(),
    decreases n,
{
    if n > 0 {
        lemma_dot_zero_left(a, b, i, j, (n - 1) as nat);
        T::zero_is_accepted(b[n - 1][j]);
        T::mul_computes_product(T::zero(), b[n - 1][j]);
        T::zero_annihilates(b[n - 1][j]);
        T::zero_is_accepted(T::zero());
        T::add_computes_sum(T::zero(), T::zero());
        T::zero_neutral(T::zero());
    }
}

/// A dot product whose every right factor is the zero can be computed and is
/// the zero.
proof fn lemma_dot_zero_right<T: Scalar>(a: Seq<Seq<T>>, b: Seq<Seq<T>>, i: int, j: int, n: nat)
    requires
        forall|t: int| 0 <= t < n ==> b[t][j] == T::zero(),
    ensures
        dot_defined(a, b, i, j, n, T::zero()),
        dot(a, b, i, j, n, T::zero()) == T::zero(),
    decreases n,
{
    if n > 0 {
        lemma_dot_zero_right(a, b, i, j, (n - 1) as nat);
        T::zero_is_accepted(a[i][n - 1]);
        T::mul_computes_product(a[i][n - 1], T::zero());
        T::zero_annihilates(a[i][n - 1]);
        T::zero_is_accepted(T::zero());
        T::add_computes_sum(T::zero(), T::zero());
        T::zero_neutral(T::zero());
    }
}

/// The zero matrix times any matrix that it can be multiplied with can be
/// computed and is the zero matrix.
pub proof fn lemma_zero_times<T: Scalar>(a: Seq<Seq<T>>, rows: nat, inner: nat, cols: nat)
    requires
        is_grid(a, inner, cols),
    ensures
        product_defined(filled(T::zero(), rows, inner), a, cols, T::zero()),
        product_of(filled(T::zero(), rows, inner), a, cols, T::zero()) == filled(
            T::zero(),
            rows,
            cols,
        ),
{
    let zero = filled(T::zero(), rows, inner);
    assert forall|i: int, j: int| 0 <= i < rows && 0 <= j < cols implies dot_defined(
        zero,
        a,
        i,
        j,
        inner,
        T::zero(),
    ) && dot(zero, a, i, j, inner, T::zero()) == T::zero() by {
        lemma_dot_zero_left(zero, a, i, j, inner);
    }
    assert(product_of(zero, a, cols, T::zero()) =~~= filled(T::zero(), rows, cols));
}

/// Any matrix times the zero matrix that it can be multiplied with can be
/// computed and is the zero matrix.
pub proof fn lemma_times_zero<T: Scalar>(a: Seq<Seq<T>>, rows: nat, inner: nat, cols: nat)
    requires
        is_grid(a, rows, inner),
    ensures
        product_defined(a, filled(T::zero(), inner, cols), cols, T::zero()),
        product_of(a, filled(T::zero(), inner, cols), cols, T::zero()) == filled(
            T::zero(),
            rows,
            cols,
        ),
{
    let zero = filled(T::zero(), inner, cols);
    assert forall|i: int, j: int| 0 <= i < rows && 0 <= j < cols implies dot_defined(
        a,
        zero,
        i,
        j,
        inner,
        T::zero(),
    ) && dot(a, zero, i, j, inner, T::zero()) == T::zero() by {
        lemma_dot_zero_right(a, zero, i, j, inner);
    }
    assert(product_of(a, zero, cols, T::zero()) =~~= filled(T::zero(), rows, cols));
}

/// A dot product that can be computed is the dot product in the semiring.
pub proof fn lemma_dot_is_lawful<T: Scalar>(
    a: Seq<Seq<T>>,
    b: Seq<Seq<T>>,
    i: int,
    j: int,
    n: nat,
)
    requires
        dot_defined(a, b, i, j, n, T::zero()),
    ensures
        dot(a, b, i, j, n, T::zero()) == lawful_dot(a, b, i, j, n),
    decreases n,
{
    if n > 0 {
        lemma_dot_is_lawful(a, b, i, j, (n - 1) as nat);
        T::mul_computes_product(a[i][n - 1], b[n - 1][j]);
        T::add_computes_sum(
            dot(a, b, i, j, (n - 1) as nat, T::zero()),
            a[i][n - 1].product(b[n - 1][j]),
        );
    }
}

/// A matrix product that can be computed is the product in the semiring.
pub proof fn lemma_product_is_lawful<T: Scalar>(a: Seq<Seq<T>>, b: Seq<Seq<T>>, cols: nat)
    requires
        product_defined(a, b, cols, T::zero()),
    ensures
        product_of(a, b, cols, T::zero()) == lawful_product(a, b, cols),
{
    assert forall|i: int, j: int| 0 <= i < a.len() && 0 <= j < cols implies dot(
        a,
        b,
        i,
        j,
        b.len(),
        T::zero(),
    ) == lawful_dot(a, b, i, j, b.len()) by {
        lemma_dot_is_lawful(a, b, i, j, b.len());
    }
    assert(product_of(a, b, cols, T::zero()) =~~= lawful_product(a, b, cols));
}

/// Matrix multiplication is associative: for `a` of `rows` by `n`, `b` of `n`
/// by `k` and `c` of `k` by `cols`, `(a * b) * c` is `a * (b * c)` wherever
/// the four products can be computed.
pub proof fn lemma_product_associative<T: Scalar>(
    a: Seq<Seq<T>>,
    b: Seq<Seq<T>>,
    c: Seq<Seq<T>>,
    rows: nat,
    n: nat,
    k: nat,
    cols: nat,
)
    requires
        is_grid(a, rows, n),
        is_grid(b, n, k),
        is_grid(c, k, cols),
        product_defined(a, b, k, T::zero()),
        product_defined(product_of(a, b, k, T::zero()), c, cols, T::zero()),
        product_defined(b, c, cols, T::zero()),
        product_defined(a, product_of(b, c, cols, T::zero()), cols, T::zero()),
    ensures
        product_of(product_of(a, b, k, T::zero()), c, cols, T::zero()) == product_of(
            a,
            product_of(b, c, cols, T::zero()),
            cols,
            T::zero(),
        ),
{
    lemma_product_is_lawful(a, b, k);
    lemma_product_is_lawful(product_of(a, b, k, T::zero()), c, cols);
    lemma_product_is_lawful(b, c, cols);
    lemma_product_is_lawful(a, product_of(b, c, cols, T::zero()), cols);
    lemma_lawful_product_associative(a, b, c, rows, n, k, cols);
}

/// A repeated product that can be computed is the power in the semiring.
pub proof fn lemma_repeated_product_is_lawful<T: Scalar>(m: Seq<Seq<T>>, e: nat)
    requires
        repeated_product_defined(m, e, T::zero()),
    ensures
        repeated_product(m, e, T::zero()) == lawful_power(m, e),
    decreases e,
{
    if e > 1 {
        lemma_repeated_product_is_lawful(m, (e - 1) as nat);
        lemma_product_is_lawful(repeated_product(m, (e - 1) as nat, T::zero()), m, m.len());
    }
}

/// A power by squaring that can be computed is the power in the semiring.
pub proof fn lemma_power_is_lawful<T: Scalar>(m: Seq<Seq<T>>, n: nat, e: nat)
    requires
        is_grid(m, n, n),
        power_defined(m, e, T::zero()),
    ensures
        power_of(m, e, T::zero()) == lawful_power(m, e),
    decreases e,
{
    if e > 1 {
        let half = power_of(m, e / 2, T::zero());
        lemma_power_is_lawful(m, n, e / 2);
        lemma_product_is_lawful(half, half, n);
        if e % 2 == 1 {
            lemma_product_is_lawful(m, product_of(half, half, n, T::zero()), n);
        }
        lemma_lawful_power_by_squaring(m, n, e);
    }
}

/// Exponentiation by squaring computes the repeated product: for a square
/// matrix `m` and an exponent `e`, the power by squaring is `m` multiplied by
/// itself until it occurs `e` times, wherever both can be computed.
pub proof fn lemma_power_is_repeated_product<T: Scalar>(m: Seq<Seq<T>>, n: nat, e: nat)
    requires
        is_grid(m, n, n),
        power_defined(m, e, T::zero()),
        repeated_product_defined(m, e, T::zero()),
    ensures
        power_of(m, e, T::zero()) == repeated_product(m, e, T::zero()),
{
    lemma_power_is_lawful(m, n, e);
    lemma_repeated_product_is_lawful(m, e);
}

/// The power to an even exponent above 0 is the square of the power to half
/// of it.
pub proof fn lemma_power_of_even<T: core::ops::Add<Output = T> + core::ops::Mul<Output = T>>(
    m: Seq<Seq<T>>,
    e: nat,
    zero: T,
)
    requires
        e >= 2,
        e % 2 == 0,
    ensures
        power_of(m, e, zero) == product_of(
            power_of(m, e / 2, zero),
            power_of(m, e / 2, zero),
            m.len(),
            zero,
        ),
{
}

/// Where `+` and `*` on `T` accept every pair of operands, each step of each
/// dot product can be computed.
proof fn lemma_dot_defined_everywhere<T: core::ops::Add<Output = T> + core::ops::Mul<Output = T>>(
    a: Seq<Seq<T>>,
    b: Seq<Seq<T>>,
    i: int,
    j: int,
    n: nat,
    zero: T,
)
    requires
        forall|x: T, y: T| #[trigger] x.add_req(y),
        forall|x: T, y: T| #[trigger] x.mul_req(y),
    ensures
        dot_defined(a, b, i, j, n, zero),
    decreases n,
{
    if n > 0 {
        lemma_dot_defined_everywhere(a, b, i, j, (n - 1) as nat, zero);
    }
}

/// Where `+` and `*` on `T` accept every pair of operands, every sum and
/// product of matrices over `T` can be computed, and so can every power.
pub proof fn lemma_defined_everywhere<T: core::ops::Add<Output = T> + core::ops::Mul<Output = T>>(
    a: Seq<Seq<T>>,
    b: Seq<Seq<T>>,
    cols: nat,
    e: nat,
    zero: T,
)
    requires
        forall|x: T, y: T| #[trigger] x.add_req(y),
        forall|x: T, y: T| #[trigger] x.mul_req(y),
    ensures
        sum_defined(a, b),
        product_defined(a, b, cols, zero),
        power_defined(a, e, zero),
        repeated_product_defined(a, e, zero),
    decreases e,
{
    assert forall|i: int, j: int| 0 <= i < a.len() && 0 <= j < cols implies dot_defined(
        a,
        b,
        i,
        j,
        b.len(),
        zero,
    ) by {
        lemma_dot_defined_everywhere(a, b, i, j, b.len(), zero);
    }
    if e > 1 {
        let half = power_of(a, e / 2, zero);
        lemma_defined_everywhere(a, b, cols, e / 2, zero);
        lemma_defined_everywhere(half, half, a.len(), 0, zero);
        lemma_defined_everywhere(a, product_of(half, half, a.len(), zero), a.len(), 0, zero);
        lemma_defined_everywhere(a, b, cols, (e - 1) as nat, zero);
        lemma_defined_everywhere(repeated_product(a, (e - 1) as nat, zero), a, a.len(), 0, zero);
    }
}

} // verus!
