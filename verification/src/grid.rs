//! Matrices as mathematical values: a matrix is the sequence of its rows, and
//! the operations on matrices are functions on such sequences, written with
//! what `+` and `*` on the element type are specified to return.

use vstd::prelude::*;
use vstd::std_specs::ops::AddSpec;
use vstd::std_specs::ops::MulSpec;

verus! {

/// `g` has `rows` rows of `cols` cells each.
pub open spec fn is_grid<T>(g: Seq<Seq<T>>, rows: nat, cols: nat) -> bool {
    &&& g.len() == rows
    &&& forall|i: int| 0 <= i < rows ==> (#[trigger] g[i]).len() == cols
}

/// The grid of `rows` by `cols` cells that all hold `value`.
pub open spec fn filled<T>(value: T, rows: nat, cols: nat) -> Seq<Seq<T>> {
    Seq::new(rows, |i: int| Seq::new(cols, |j: int| value))
}

/// `g` has the shape of `source`, and each of its cells is a clone of the cell
/// of `source` in the same place.
pub open spec fn is_clone_of<T: Clone>(g: Seq<Seq<T>>, source: Seq<Seq<T>>) -> bool {
    &&& g.len() == source.len()
    &&& forall|i: int| 0 <= i < g.len() ==> (#[trigger] g[i]).len() == source[i].len()
    &&& forall|i: int, j: int|
        0 <= i < g.len() && 0 <= j < g[i].len() ==> cloned(source[i][j], #[trigger] g[i][j])
}

/// `T::default` may return `z`.
pub open spec fn is_default<T: Default>(z: T) -> bool {
    call_ensures(T::default, (), z)
}

/// A value that `T::default` may return.
pub open spec fn default_of<T: Default>() -> T {
    choose|z: T| is_default(z)
}

/// `T::clone` returns a value equal to the one it was given.
pub open spec fn clones_exactly<T: Clone>() -> bool {
    forall|a: T, b: T| cloned(a, b) ==> a == b
}

/// `T::default` returns one value only.
pub open spec fn defaults_to_one_value<T: Default>() -> bool {
    forall|z: T| is_default(z) ==> z == default_of::<T>()
}

/// `+` on `T` returns what it is specified to return, and so does `T::clone`.
pub open spec fn addition_obeys<T: core::ops::Add<Output = T> + Clone>() -> bool {
    &&& T::obeys_add_spec()
    &&& clones_exactly::<T>()
}

/// `+` and `*` on `T` return what they are specified to return, and so do
/// `T::clone` and `T::default`.
pub open spec fn arithmetic_obeys<
    T: core::ops::Add<Output = T> + core::ops::Mul<Output = T> + Default + Clone,
>() -> bool {
    &&& T::obeys_add_spec()
    &&& T::obeys_mul_spec()
    &&& clones_exactly::<T>()
    &&& defaults_to_one_value::<T>()
}

/// The square of `size` by `size` cells that holds the cells of `g` in its
/// first `cols` columns and `pad` in the others.
pub open spec fn padded_square<T>(g: Seq<Seq<T>>, size: nat, cols: nat, pad: T) -> Seq<Seq<T>> {
    Seq::new(size, |i: int| Seq::new(size, |j: int| if j < cols { g[i][j] } else { pad }))
}

/// The transpose of a grid whose rows have `cols` cells.
pub open spec fn transposed<T>(g: Seq<Seq<T>>, cols: nat) -> Seq<Seq<T>> {
    Seq::new(cols, |j: int| Seq::new(g.len(), |i: int| g[i][j]))
}

/// The cell-by-cell sum of two grids of one shape.
pub open spec fn sum_of<T: core::ops::Add<Output = T>>(a: Seq<Seq<T>>, b: Seq<Seq<T>>) -> Seq<
    Seq<T>,
> {
    Seq::new(a.len(), |i: int| Seq::new(a[i].len(), |j: int| a[i][j].add_spec(b[i][j])))
}

/// `+` accepts every pair of cells that `sum_of` adds.
pub open spec fn sum_defined<T: core::ops::Add<Output = T>>(a: Seq<Seq<T>>, b: Seq<Seq<T>>) -> bool {
    forall|i: int, j: int|
        0 <= i < a.len() && 0 <= j < a[i].len() ==> (#[trigger] a[i][j]).add_req(b[i][j])
}

/// The sum of the first `n` terms of row `i` of `a` times column `j` of `b`,
/// added up from `zero` in the order of the terms.
pub open spec fn dot<T: core::ops::Add<Output = T> + core::ops::Mul<Output = T>>(
    a: Seq<Seq<T>>,
    b: Seq<Seq<T>>,
    i: int,
    j: int,
    n: nat,
    zero: T,
) -> T
    decreases n,
{
    if n == 0 {
        zero
    } else {
        dot(a, b, i, j, (n - 1) as nat, zero).add_spec(a[i][n - 1].mul_spec(b[n - 1][j]))
    }
}

/// `*` and `+` accept their operands at each of the `n` steps of `dot`.
pub open spec fn dot_defined<T: core::ops::Add<Output = T> + core::ops::Mul<Output = T>>(
    a: Seq<Seq<T>>,
    b: Seq<Seq<T>>,
    i: int,
    j: int,
    n: nat,
    zero: T,
) -> bool
    decreases n,
{
    n > 0 ==> {
        &&& dot_defined(a, b, i, j, (n - 1) as nat, zero)
        &&& a[i][n - 1].mul_req(b[n - 1][j])
        &&& dot(a, b, i, j, (n - 1) as nat, zero).add_req(a[i][n - 1].mul_spec(b[n - 1][j]))
    }
}

/// Where the first `n` steps of a dot product can be computed, so can the
/// first `k` of them, for `k` up to `n`.
pub proof fn lemma_dot_defined_prefix<T: core::ops::Add<Output = T> + core::ops::Mul<Output = T>>(
    a: Seq<Seq<T>>,
    b: Seq<Seq<T>>,
    i: int,
    j: int,
    n: nat,
    k: nat,
    zero: T,
)
    requires
        dot_defined(a, b, i, j, n, zero),
        k <= n,
    ensures
        dot_defined(a, b, i, j, k, zero),
    decreases n,
{
    if k < n {
        lemma_dot_defined_prefix(a, b, i, j, (n - 1) as nat, k, zero);
    }
}

/// The product of `a` with `b`, a grid whose rows have `cols` cells: the cell
/// in row `i` and column `j` is the dot product of row `i` of `a` and column
/// `j` of `b`, added up from `zero`.
pub open spec fn product_of<T: core::ops::Add<Output = T> + core::ops::Mul<Output = T>>(
    a: Seq<Seq<T>>,
    b: Seq<Seq<T>>,
    cols: nat,
    zero: T,
) -> Seq<Seq<T>> {
    Seq::new(a.len(), |i: int| Seq::new(cols, |j: int| dot(a, b, i, j, b.len(), zero)))
}

/// Every cell of `product_of` can be computed with `*` and `+`.
pub open spec fn product_defined<T: core::ops::Add<Output = T> + core::ops::Mul<Output = T>>(
    a: Seq<Seq<T>>,
    b: Seq<Seq<T>>,
    cols: nat,
    zero: T,
) -> bool {
    forall|i: int, j: int|
        0 <= i < a.len() && 0 <= j < cols ==> dot_defined(a, b, i, j, b.len(), zero)
}

/// `m` multiplied by itself until it occurs `e` times; `m` itself for `e`
/// below 2.
pub open spec fn repeated_product<T: core::ops::Add<Output = T> + core::ops::Mul<Output = T>>(
    m: Seq<Seq<T>>,
    e: nat,
    zero: T,
) -> Seq<Seq<T>>
    decreases e,
{
    if e <= 1 {
        m
    } else {
        product_of(repeated_product(m, (e - 1) as nat, zero), m, m.len(), zero)
    }
}

/// Every product that `repeated_product` forms can be computed.
pub open spec fn repeated_product_defined<
    T: core::ops::Add<Output = T> + core::ops::Mul<Output = T>,
>(m: Seq<Seq<T>>, e: nat, zero: T) -> bool
    decreases e,
{
    e > 1 ==> {
        &&& repeated_product_defined(m, (e - 1) as nat, zero)
        &&& product_defined(repeated_product(m, (e - 1) as nat, zero), m, m.len(), zero)
    }
}

/// The power of `m` to `e` by squaring: for an even `e` the square of the
/// power to `e / 2`, for an odd `e` above 1 `m` times that square; `m` itself
/// for `e` below 2.
pub open spec fn power_of<T: core::ops::Add<Output = T> + core::ops::Mul<Output = T>>(
    m: Seq<Seq<T>>,
    e: nat,
    zero: T,
) -> Seq<Seq<T>>
    decreases e,
{
    if e <= 1 {
        m
    } else {
        let half = power_of(m, e / 2, zero);
        let square = product_of(half, half, m.len(), zero);
        if e % 2 == 0 {
            square
        } else {
            product_of(m, square, m.len(), zero)
        }
    }
}

/// Every product that `power_of` forms can be computed.
pub open spec fn power_defined<T: core::ops::Add<Output = T> + core::ops::Mul<Output = T>>(
    m: Seq<Seq<T>>,
    e: nat,
    zero: T,
) -> bool
    decreases e,
{
    e > 1 ==> {
        let half = power_of(m, e / 2, zero);
        &&& power_defined(m, e / 2, zero)
        &&& product_defined(half, half, m.len(), zero)
        &&& e % 2 == 1 ==> product_defined(m, product_of(half, half, m.len(), zero), m.len(), zero)
    }
}

} // verus!
