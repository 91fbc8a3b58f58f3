//! A dense matrix whose dimensions are part of its type.

use vstd::prelude::*;
use vstd::std_specs::ops::AddSpec;
use vstd::std_specs::ops::AddSpecImpl;
use vstd::std_specs::ops::MulSpec;
use vstd::std_specs::ops::MulSpecImpl;
use vstd::std_specs::convert::FromSpecImpl;
use vstd::std_specs::cmp::PartialEqSpec;
use vstd::std_specs::cmp::PartialEqSpecImpl;
use crate::grid::is_clone_of;
use crate::grid::filled;
use crate::grid::transposed;
use crate::grid::sum_of;
use crate::grid::sum_defined;
use crate::grid::addition_obeys;
use crate::grid::arithmetic_obeys;
use crate::grid::default_of;
use crate::grid::is_default;
use crate::grid::dot;
use crate::grid::dot_defined;
use crate::grid::lemma_dot_defined_prefix;
use crate::grid::product_of;
use crate::grid::product_defined;

verus! {

/// `core::array::from_fn` makes an array by calling `f` once on each index, from
/// 0 up to `N - 1`. This contract is taken on trust: `f` has to accept each of
/// these indices, and cell `i` of the array is what `f` returned for `i`. It
/// reads `f` as every closure is read here, as a function that its calls do not
/// change.
pub assume_specification<T, const N: usize, F: FnMut(usize) -> T>[ core::array::from_fn::<T, N, F> ](
    f: F,
) -> (r: [T; N])
    requires
        forall|i: usize| 0 <= i < N ==> call_requires(f, (i,)),
    ensures
        forall|i: usize| 0 <= i < N ==> call_ensures(f, (i,), #[trigger] r@[i as int]),
;

/// The rows of a nested array, each as the sequence of its cells.
pub open spec fn grid_of<T, const M: usize, const N: usize>(a: [[T; N]; M]) -> Seq<Seq<T>> {
    Seq::new(M as nat, |i: int| a[i]@)
}

/// A matrix of `M` rows and `N` columns, stored row by row. Two matrices are
/// equal where their cells are equal pairwise. The matrix dereferences to its
/// rows, so that `matrix[row][col]` reads and writes a cell, and panics where
/// there is none; `get` and `set` do the same without a panic.
#[derive(Debug, Eq)]
pub struct Matrix<T, const M: usize, const N: usize> {
    matrix: [[T; N]; M],
}

impl<T, const M: usize, const N: usize> View for Matrix<T, M, N> {
    type V = Seq<Seq<T>>;

    /// The `M` rows of the matrix, each a sequence of `N` cells.
    closed spec fn view(&self) -> Seq<Seq<T>> {
        grid_of(self.matrix)
    }
}

impl<T, const M: usize, const N: usize> Matrix<T, M, N> {
    /// The matrix whose rows are `g`, where there is one.
    pub closed spec fn of_grid(g: Seq<Seq<T>>) -> Self {
        choose|m: Self| m@ == g
    }

    /// A matrix has `M` rows of `N` cells.
    pub proof fn lemma_shape(self)
        ensures
            crate::grid::is_grid(self@, M as nat, N as nat),
    {
    }

    /// Two matrices with the same rows are the same matrix.
    pub proof fn lemma_equal_by_view(self, other: Self)
        requires
            self@ == other@,
        ensures
            self == other,
    {
        assert forall|i: int| 0 <= i < M implies self.matrix[i] == other.matrix[i] by {
            assert(self@[i] == other@[i]);
            assert(self.matrix[i] =~= other.matrix[i]);
        }
        assert(self.matrix =~= other.matrix);
    }

    /// `of_grid` gives back the matrix that a view was taken of.
    pub proof fn lemma_of_grid(self)
        ensures
            Self::of_grid(self@) == self,
    {
        self.lemma_equal_by_view(Self::of_grid(self@));
    }

    /// The matrix made from a nested array holds, row by row and cell by cell,
    /// what the array holds.
    pub proof fn lemma_from_array(value: [[T; N]; M])
        ensures
            Self::of_grid(grid_of(value))@ == grid_of(value),
            forall|row: int, col: int|
                0 <= row < M && 0 <= col < N ==> (#[trigger] Self::of_grid(
                    grid_of(value),
                )@[row][col]) == value[row][col],
    {
        let made = Matrix { matrix: value };
        assert(made@ == grid_of(value));
    }

    /// The cell in row `row` and column `col`, or `None` where the matrix has
    /// no such cell.
    pub fn get(&self, row: usize, col: usize) -> (r: Option<&T>)
        ensures
            r == if row < M && col < N {
                Some(&self@[row as int][col as int])
            } else {
                None
            },
    {
        if row < M && col < N {
            Some(&self.matrix[row][col])
        } else {
            None
        }
    }

    /// Puts `value` in row `row` and column `col` and returns `None`; where the
    /// matrix has no such cell, it stays as it is and `value` comes back.
    pub fn set(&mut self, row: usize, col: usize, value: T) -> (r: Option<T>)
        ensures
            row < M && col < N ==> r.is_none() && final(self)@ == old(self)@.update(
                row as int,
                old(self)@[row as int].update(col as int, value),
            ),
            !(row < M && col < N) ==> r == Some(value) && *final(self) == *old(self),
    {
        if row < M && col < N {
            self.matrix[row][col] = value;
            assert(self@ =~~= old(self)@.update(
                row as int,
                old(self)@[row as int].update(col as int, value),
            ));
            None
        } else {
            Some(value)
        }
    }
}

impl<T, const M: usize, const N: usize> Matrix<T, M, N> where T: Clone {
    /// The matrix whose every cell is a clone of `initial_value`.
    pub fn new(initial_value: T) -> (r: Self)
        ensures
            is_clone_of(r@, filled(initial_value, M as nat, N as nat)),
    {
        let matrix: [[T; N]; M] = core::array::from_fn(|_m: usize| -> (row: [T; N])
            ensures
                forall|n: int| 0 <= n < N ==> cloned(initial_value, #[trigger] row@[n]),
            {
                core::array::from_fn(|_n: usize| -> (cell: T)
                    ensures
                        cloned(initial_value, cell),
                    { initial_value.clone() })
            });
        Matrix { matrix }
    }

    /// The matrix whose cell in row `n` and column `m` is a clone of the cell
    /// of `self` in row `m` and column `n`.
    pub fn transpose(&self) -> (r: Matrix<T, N, M>)
        ensures
            is_clone_of(r@, transposed(self@, N as nat)),
    {
        let matrix: [[T; M]; N] = core::array::from_fn(|n: usize| -> (row: [T; M])
            requires
                n < N,
            ensures
                forall|m: int| 0 <= m < M ==> cloned(self@[m][n as int], #[trigger] row@[m]),
            {
                core::array::from_fn(|m: usize| -> (cell: T)
                    requires
                        m < M,
                    ensures
                        cloned(self@[m as int][n as int], cell),
                    { self.matrix[m][n].clone() })
            });
        Matrix { matrix }
    }
}

impl<T, const M: usize, const N: usize> Default for Matrix<T, M, N> where T: Default + Clone {
    /// The matrix whose every cell is a clone of one value that `T::default`
    /// returned.
    fn default() -> (r: Self)
        ensures
            exists|z: T| is_default(z) && is_clone_of(r@, #[trigger] filled(z, M as nat, N as nat)),
    {
        Self::new(T::default())
    }
}

impl<T, const M: usize, const N: usize> Clone for Matrix<T, M, N> where T: Clone {
    fn clone(&self) -> (r: Self)
        ensures
            is_clone_of(r@, self@),
    {
        let matrix = self.matrix.clone();
        Matrix { matrix }
    }
}

impl<T, const M: usize, const N: usize> Copy for Matrix<T, M, N> where T: Copy + Clone {

}

impl<T, const M: usize, const N: usize> PartialEqSpecImpl for Matrix<T, M, N> where T: PartialEq {
    open spec fn obeys_eq_spec() -> bool {
        T::obeys_eq_spec()
    }

    /// Two matrices are equal where `==` on `T` holds of each pair of cells
    /// in the same place.
    open spec fn eq_spec(&self, other: &Self) -> bool {
        forall|i: int, j: int|
            0 <= i < M && 0 <= j < N ==> (#[trigger] self@[i][j]).eq_spec(&other@[i][j])
    }
}

impl<T, const M: usize, const N: usize> PartialEq for Matrix<T, M, N> where T: PartialEq {
    fn eq(&self, other: &Self) -> (r: bool) {
        for i in 0..M
            invariant
                T::obeys_eq_spec() ==> forall|x: int, y: int|
                    0 <= x < i && 0 <= y < N ==> (#[trigger] self@[x][y]).eq_spec(&other@[x][y]),
        {
            for j in 0..N
                invariant
                    i < M,
                    T::obeys_eq_spec() ==> forall|x: int, y: int|
                        0 <= x < i && 0 <= y < N ==> (#[trigger] self@[x][y]).eq_spec(
                            &other@[x][y],
                        ),
                    T::obeys_eq_spec() ==> forall|y: int|
                        0 <= y < j ==> (#[trigger] self@[i as int][y]).eq_spec(&other@[i as int][y]),
            {
                if !(self.matrix[i][j] == other.matrix[i][j]) {
                    assert(T::obeys_eq_spec() ==> !self@[i as int][j as int].eq_spec(
                        &other@[i as int][j as int],
                    ));
                    return false;
                }
            }
        }
        true
    }
}

impl<T, const M: usize, const N: usize> FromSpecImpl<[[T; N]; M]> for Matrix<T, M, N> {
    open spec fn obeys_from_spec() -> bool {
        true
    }

    open spec fn from_spec(value: [[T; N]; M]) -> Self {
        Self::of_grid(grid_of(value))
    }
}

impl<T, const M: usize, const N: usize> From<[[T; N]; M]> for Matrix<T, M, N> {
    /// The matrix whose rows are those of `value`.
    fn from(value: [[T; N]; M]) -> (r: Self)
        ensures
            r@ == grid_of(value),
    {
        let r = Matrix { matrix: value };
        proof {
            r.lemma_of_grid();
        }
        r
    }
}

impl<T, const M: usize, const N: usize> core::ops::Deref for Matrix<T, M, N> {
    type Target = [[T; N]; M];

    fn deref(&self) -> (r: &Self::Target)
        ensures
            grid_of(*r) == self@,
    {
        &self.matrix
    }
}

impl<T, const M: usize, const N: usize> core::ops::DerefMut for Matrix<T, M, N> {
    fn deref_mut(&mut self) -> (r: &mut Self::Target)
        ensures
            grid_of(*r) == old(self)@,
            final(self)@ == grid_of(*final(r)),
    {
        &mut self.matrix
    }
}

impl<T, const M: usize, const N: usize> AddSpecImpl for Matrix<T, M, N> where
    T: core::ops::Add<Output = T> + Clone,
 {
    open spec fn obeys_add_spec() -> bool {
        true
    }

    /// `+` on `T` accepts each pair of cells in the same place, and `T` keeps
    /// to what is specified of `+` and `clone`.
    open spec fn add_req(self, rhs: Self) -> bool {
        addition_obeys::<T>() && sum_defined(self@, rhs@)
    }

    open spec fn add_spec(self, rhs: Self) -> Self {
        Self::of_grid(sum_of(self@, rhs@))
    }
}

impl<T, const M: usize, const N: usize> core::ops::Add for Matrix<T, M, N> where
    T: core::ops::Add<Output = T> + Clone,
 {
    type Output = Matrix<T, M, N>;

    /// The matrix of the sums of the cells of `self` and `rhs` in the same
    /// place.
    fn add(self, rhs: Self) -> (r: Self::Output)
        ensures
            r@ == sum_of(self@, rhs@),
    {
        let ghost a = self@;
        let ghost b = rhs@;
        let mut matrix = self;
        for i in 0..M
            invariant
                addition_obeys::<T>(),
                sum_defined(a, b),
                a == self@,
                b == rhs@,
                forall|x: int, y: int|
                    0 <= x < i && 0 <= y < N ==> matrix@[x][y] == a[x][y].add_spec(b[x][y]),
                forall|x: int, y: int| i <= x < M && 0 <= y < N ==> matrix@[x][y] == a[x][y],
        {
            for j in 0..N
                invariant
                    i < M,
                    addition_obeys::<T>(),
                    sum_defined(a, b),
                    a == self@,
                    b == rhs@,
                    forall|x: int, y: int|
                        0 <= x < i && 0 <= y < N ==> matrix@[x][y] == a[x][y].add_spec(b[x][y]),
                    forall|y: int|
                        0 <= y < j ==> matrix@[i as int][y] == a[i as int][y].add_spec(
                            b[i as int][y],
                        ),
                    forall|y: int| j <= y < N ==> matrix@[i as int][y] == a[i as int][y],
                    forall|x: int, y: int| i < x < M && 0 <= y < N ==> matrix@[x][y] == a[x][y],
            {
                let left = matrix.matrix[i][j].clone();
                let right = rhs.matrix[i][j].clone();
                assert(cloned(a[i as int][j as int], left));
                assert(cloned(b[i as int][j as int], right));
                assert(a[i as int][j as int].add_req(b[i as int][j as int]));
                let ghost before = matrix@;
                matrix.matrix[i][j] = left + right;
                assert(matrix@ =~~= before.update(
                    i as int,
                    before[i as int].update(
                        j as int,
                        a[i as int][j as int].add_spec(b[i as int][j as int]),
                    ),
                ));
            }
        }
        proof {
            assert(matrix@ =~~= sum_of(a, b));
            matrix.lemma_of_grid();
        }
        matrix
    }
}

impl<T, const M: usize, const N: usize, const K: usize> MulSpecImpl<Matrix<T, N, K>> for Matrix<
    T,
    M,
    N,
> where T: core::ops::Mul<Output = T> + core::ops::Add<Output = T> + Default + Clone {
    open spec fn obeys_mul_spec() -> bool {
        true
    }

    /// `*` and `+` on `T` accept their operands at every step of every cell
    /// of the product, added up from what `T::default` returns, and `T`
    /// keeps to what is specified of `*`, `+`, `clone` and `default`.
    open spec fn mul_req(self, rhs: Matrix<T, N, K>) -> bool {
        &&& arithmetic_obeys::<T>()
        &&& forall|z: T| #[trigger] is_default(z) ==> product_defined(self@, rhs@, K as nat, z)
    }

    open spec fn mul_spec(self, rhs: Matrix<T, N, K>) -> Matrix<T, M, K> {
        Matrix::<T, M, K>::of_grid(product_of(self@, rhs@, K as nat, default_of::<T>()))
    }
}

impl<T, const M: usize, const N: usize, const K: usize> core::ops::Mul<Matrix<T, N, K>> for Matrix<
    T,
    M,
    N,
> where T: core::ops::Mul<Output = T> + core::ops::Add<Output = T> + Default + Clone {
    type Output = Matrix<T, M, K>;

    /// The matrix product: the cell in row `m` and column `k` is the sum over
    /// `n` of the cell `(m, n)` of `self` times the cell `(n, k)` of `rhs`,
    /// added up in the order of `n` from the value that `T::default` returns,
    /// which it has returned when the product is there.
    fn mul(self, rhs: Matrix<T, N, K>) -> (r: Self::Output)
        ensures
            r@ == product_of(self@, rhs@, K as nat, default_of::<T>()),
            is_default(default_of::<T>()),
    {
        let ghost a = self@;
        let ghost b = rhs@;
        let ghost zero = default_of::<T>();
        let mut matrix: Matrix<T, M, K> = Matrix::default();
        assert(is_default(zero));
        for m in 0..M
            invariant
                arithmetic_obeys::<T>(),
                product_defined(a, b, K as nat, zero),
                zero == default_of::<T>(),
                a == self@,
                b == rhs@,
                forall|x: int, y: int|
                    0 <= x < m && 0 <= y < K ==> matrix@[x][y] == dot(a, b, x, y, N as nat, zero),
        {
            for k in 0..K
                invariant
                    m < M,
                    arithmetic_obeys::<T>(),
                    product_defined(a, b, K as nat, zero),
                    zero == default_of::<T>(),
                    a == self@,
                    b == rhs@,
                    forall|x: int, y: int|
                        0 <= x < m && 0 <= y < K ==> matrix@[x][y] == dot(
                            a,
                            b,
                            x,
                            y,
                            N as nat,
                            zero,
                        ),
                    forall|y: int|
                        0 <= y < k ==> matrix@[m as int][y] == dot(
                            a,
                            b,
                            m as int,
                            y,
                            N as nat,
                            zero,
                        ),
            {
                let mut sum = T::default();
                proof {
                    assert(is_default(sum));
                    self.lemma_shape();
                    rhs.lemma_shape();
                    assert(dot_defined(a, b, m as int, k as int, b.len(), zero));
                }
                for n in 0..N
                    invariant
                        m < M,
                        k < K,
                        arithmetic_obeys::<T>(),
                        a == self@,
                        b == rhs@,
                        dot_defined(a, b, m as int, k as int, N as nat, zero),
                        sum == dot(a, b, m as int, k as int, n as nat, zero),
                {
                    let left = self.matrix[m][n].clone();
                    let right = rhs.matrix[n][k].clone();
                    proof {
                        lemma_dot_defined_prefix(
                            a,
                            b,
                            m as int,
                            k as int,
                            N as nat,
                            (n + 1) as nat,
                            zero,
                        );
                        assert(cloned(a[m as int][n as int], left));
                        assert(cloned(b[n as int][k as int], right));
                    }
                    sum = sum + (left * right);
                }
                let ghost before = matrix@;
                matrix.matrix[m][k] = sum;
                assert(matrix@ =~~= before.update(
                    m as int,
                    before[m as int].update(
                        k as int,
                        dot(a, b, m as int, k as int, N as nat, zero),
                    ),
                ));
            }
        }
        proof {
            assert(matrix@ =~~= product_of(a, b, K as nat, zero));
            matrix.lemma_of_grid();
        }
        matrix
    }
}

} // verus!
