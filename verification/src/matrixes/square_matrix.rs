//! A square matrix, and its powers by repeated squaring.

use vstd::prelude::*;
use vstd::std_specs::ops::MulSpecImpl;
use vstd::std_specs::convert::FromSpecImpl;
use vstd::std_specs::cmp::PartialEqSpec;
use vstd::std_specs::cmp::PartialEqSpecImpl;
use crate::grid::is_clone_of;
use crate::grid::padded_square;
use crate::grid::clones_exactly;
use crate::grid::defaults_to_one_value;
use crate::grid::arithmetic_obeys;
use crate::grid::default_of;
use crate::grid::is_default;
use crate::grid::product_of;
use crate::grid::product_defined;
use crate::grid::power_of;
use crate::grid::power_defined;
use crate::algebra::lemma_exact_clone_is_equal;
use crate::matrixes::matrix::Matrix;
use crate::matrixes::matrix::grid_of;

verus! {

/// A matrix of `M` rows and `M` columns. It dereferences to the `Matrix` that
/// it holds, which gives it that type's cell access and transposition.
#[derive(Debug, Eq)]
pub struct SquareMatrix<T, const M: usize>(Matrix<T, M, M>);

impl<T, const M: usize> View for SquareMatrix<T, M> {
    type V = Seq<Seq<T>>;

    /// The `M` rows of the matrix, each a sequence of `M` cells.
    closed spec fn view(&self) -> Seq<Seq<T>> {
        self.0@
    }
}

impl<T, const M: usize> SquareMatrix<T, M> {
    /// The square matrix whose rows are `g`, where there is one.
    pub closed spec fn of_grid(g: Seq<Seq<T>>) -> Self {
        SquareMatrix(Matrix::of_grid(g))
    }

    /// A square matrix has `M` rows of `M` cells.
    pub proof fn lemma_shape(self)
        ensures
            crate::grid::is_grid(self@, M as nat, M as nat),
    {
        self.0.lemma_shape();
    }

    /// Two square matrices with the same rows are the same matrix.
    pub proof fn lemma_equal_by_view(self, other: Self)
        requires
            self@ == other@,
        ensures
            self == other,
    {
        self.0.lemma_equal_by_view(other.0);
    }

    /// `of_grid` gives back the matrix that a view was taken of.
    pub proof fn lemma_of_grid(self)
        ensures
            Self::of_grid(self@) == self,
    {
        self.0.lemma_of_grid();
    }
}

impl<T, const M: usize> SquareMatrix<T, M> where T: Clone {
    /// `self` to the power `exp`, by repeated squaring: for an even `exp` the
    /// square of the power to `exp / 2`, for an odd `exp` above 1 `self` times
    /// the square of the power to `(exp - 1) / 2`. There is no power to 0.
    /// Every product that is formed has to be one that `*` and `+` on `T` can
    /// compute; for an `exp` above 1 one is formed, and `T::default` has then
    /// returned the value that the sums start from. Over a `Scalar` this power
    /// is `self` multiplied by itself until it occurs `exp` times.
    pub fn fast_pow(self, exp: usize) -> (r: Self) where
        T: core::ops::Mul<Output = T> + core::ops::Add<Output = T> + Default,

        requires
            exp >= 1,
            arithmetic_obeys::<T>(),
            forall|z: T| #[trigger] is_default(z) ==> power_defined(self@, exp as nat, z),
        ensures
            r@ == power_of(self@, exp as nat, default_of::<T>()),
            exp > 1 ==> is_default(default_of::<T>()),
        decreases exp,
    {
        proof {
            self.lemma_shape();
        }
        if exp == 1 {
            self
        } else if exp % 2 == 0 {
            let m = self.fast_pow(exp / 2);
            let square = m.clone();
            proof {
                lemma_exact_clone_is_equal(square@, m@);
            }
            square * m
        } else {
            let base = self.clone();
            proof {
                lemma_exact_clone_is_equal(base@, self@);
            }
            let m = base.fast_pow((exp - 1) / 2);
            let square = m.clone();
            proof {
                lemma_exact_clone_is_equal(square@, m@);
            }
            self * (square * m)
        }
    }

    /// `fast_pow` for any exponent: `None` for the exponent 0, to which there
    /// is no power, and the power to `exp` otherwise.
    pub fn checked_fast_pow(self, exp: usize) -> (r: Option<Self>) where
        T: core::ops::Mul<Output = T> + core::ops::Add<Output = T> + Default,

        requires
            arithmetic_obeys::<T>(),
            forall|z: T| #[trigger] is_default(z) ==> power_defined(self@, exp as nat, z),
        ensures
            exp == 0 ==> r.is_none(),
            exp >= 1 ==> r.is_some() && r.unwrap()@ == power_of(
                self@,
                exp as nat,
                default_of::<T>(),
            ),
            exp > 1 ==> is_default(default_of::<T>()),
    {
        if exp == 0 {
            None
        } else {
            Some(self.fast_pow(exp))
        }
    }
}

impl<T, const M: usize, const N: usize> FromSpecImpl<Matrix<T, M, N>> for SquareMatrix<
    T,
    M,
> where T: Default + Clone {
    /// The conversion clones cells and pads with a default: its result is a
    /// function of `value` where `T` copies exactly.
    open spec fn obeys_from_spec() -> bool {
        clones_exactly::<T>() && defaults_to_one_value::<T>()
    }

    open spec fn from_spec(value: Matrix<T, M, N>) -> Self {
        Self::of_grid(padded_square(value@, M as nat, N as nat, default_of::<T>()))
    }
}

impl<T, const M: usize, const N: usize> From<Matrix<T, M, N>> for SquareMatrix<
    T,
    M,
> where T: Default + Clone {
    /// The square matrix of the rows of `value`: each row keeps clones of its
    /// first `M` cells, and a row shorter than `M` is filled up with clones
    /// of one value that `T::default` returned.
    fn from(value: Matrix<T, M, N>) -> (r: Self)
        ensures
            exists|z: T|
                is_default(z) && is_clone_of(
                    r@,
                    #[trigger] padded_square(value@, M as nat, N as nat, z),
                ),
    {
        let mut matrix: Matrix<T, M, M> = Matrix::default();
        let ghost z = choose|z: T|
            is_default(z) && is_clone_of(
                matrix@,
                #[trigger] crate::grid::filled(z, M as nat, M as nat),
            );
        let width = if N < M {
            N
        } else {
            M
        };
        proof {
            value.lemma_shape();
            matrix.lemma_shape();
        }
        for m in 0..M
            invariant
                width <= N,
                width <= M,
                N < M ==> width == N,
                crate::grid::is_grid(value@, M as nat, N as nat),
                crate::grid::is_grid(matrix@, M as nat, M as nat),
                forall|x: int, y: int|
                    0 <= x < m && 0 <= y < width ==> cloned(value@[x][y], #[trigger] matrix@[x][y]),
                forall|x: int, y: int|
                    0 <= x < M && 0 <= y < M && (x >= m || y >= width) ==> cloned(
                        z,
                        #[trigger] matrix@[x][y],
                    ),
        {
            for n in 0..width
                invariant
                    m < M,
                    width <= N,
                    width <= M,
                    N < M ==> width == N,
                    crate::grid::is_grid(value@, M as nat, N as nat),
                    crate::grid::is_grid(matrix@, M as nat, M as nat),
                    forall|x: int, y: int|
                        0 <= x < m && 0 <= y < width ==> cloned(
                            value@[x][y],
                            #[trigger] matrix@[x][y],
                        ),
                    forall|y: int|
                        0 <= y < n ==> cloned(value@[m as int][y], #[trigger] matrix@[m as int][y]),
                    forall|x: int, y: int|
                        0 <= x < M && 0 <= y < M && (x > m || y >= width || (x == m && y >= n))
                            ==> cloned(z, #[trigger] matrix@[x][y]),
            {
                let ghost before = matrix@;
                let cell = value[m][n].clone();
                matrix[m][n] = cell;
                assert(matrix@ =~~= before.update(m as int, before[m as int].update(n as int, cell)));
            }
        }
        let r = SquareMatrix(matrix);
        proof {
            assert(is_clone_of(r@, padded_square(value@, M as nat, N as nat, z)));
            if clones_exactly::<T>() && defaults_to_one_value::<T>() {
                lemma_exact_clone_is_equal(r@, padded_square(value@, M as nat, N as nat, z));
                r.lemma_of_grid();
            }
        }
        r
    }
}

impl<T, const M: usize> FromSpecImpl<[[T; M]; M]> for SquareMatrix<T, M> {
    open spec fn obeys_from_spec() -> bool {
        true
    }

    open spec fn from_spec(value: [[T; M]; M]) -> Self {
        Self::of_grid(grid_of(value))
    }
}

impl<T, const M: usize> From<[[T; M]; M]> for SquareMatrix<T, M> {
    /// The square matrix whose rows are those of `value`.
    fn from(value: [[T; M]; M]) -> (r: Self)
        ensures
            r@ == grid_of(value),
    {
        let r = SquareMatrix(Matrix::from(value));
        proof {
            r.lemma_of_grid();
        }
        r
    }
}

impl<T, const M: usize> FromSpecImpl<SquareMatrix<T, M>> for Matrix<T, M, M> {
    open spec fn obeys_from_spec() -> bool {
        true
    }

    open spec fn from_spec(value: SquareMatrix<T, M>) -> Self {
        Self::of_grid(value@)
    }
}

impl<T, const M: usize> From<SquareMatrix<T, M>> for Matrix<T, M, M> {
    /// The matrix that `value` holds, cell for cell.
    fn from(value: SquareMatrix<T, M>) -> (r: Self)
        ensures
            r@ == value@,
    {
        proof {
            value.0.lemma_of_grid();
        }
        value.0
    }
}

impl<T, const M: usize> MulSpecImpl for SquareMatrix<T, M> where
    T: core::ops::Mul<Output = T> + Clone + core::ops::Add<Output = T> + Default,
 {
    open spec fn obeys_mul_spec() -> bool {
        true
    }

    /// `*` and `+` on `T` accept their operands at every step of every cell
    /// of the product, and `T` keeps to what is specified of `*`, `+`,
    /// `clone` and `default`.
    open spec fn mul_req(self, rhs: Self) -> bool {
        &&& arithmetic_obeys::<T>()
        &&& forall|z: T| #[trigger] is_default(z) ==> product_defined(self@, rhs@, M as nat, z)
    }

    open spec fn mul_spec(self, rhs: Self) -> Self {
        Self::of_grid(product_of(self@, rhs@, M as nat, default_of::<T>()))
    }
}

impl<T, const M: usize> core::ops::Mul for SquareMatrix<T, M> where
    T: core::ops::Mul<Output = T> + Clone + core::ops::Add<Output = T> + Default,
 {
    type Output = SquareMatrix<T, M>;

    /// The matrix product of two square matrices of one size.
    fn mul(self, rhs: Self) -> (r: Self::Output)
        ensures
            r@ == product_of(self@, rhs@, M as nat, default_of::<T>()),
            is_default(default_of::<T>()),
    {
        let r = SquareMatrix(self.0 * rhs.0);
        proof {
            r.lemma_of_grid();
        }
        r
    }
}

impl<T, const M: usize> PartialEqSpecImpl for SquareMatrix<T, M> where T: PartialEq {
    open spec fn obeys_eq_spec() -> bool {
        T::obeys_eq_spec()
    }

    /// Two square matrices are equal where `==` on `T` holds of each pair of
    /// cells in the same place.
    open spec fn eq_spec(&self, other: &Self) -> bool {
        forall|i: int, j: int|
            0 <= i < M && 0 <= j < M ==> (#[trigger] self@[i][j]).eq_spec(&other@[i][j])
    }
}

impl<T, const M: usize> PartialEq for SquareMatrix<T, M> where T: PartialEq {
    fn eq(&self, other: &Self) -> (r: bool) {
        let r = self.0 == other.0;
        assert(self@ == self.0@ && other@ == other.0@);
        r
    }
}

impl<T, const M: usize> Clone for SquareMatrix<T, M> where T: Clone {
    fn clone(&self) -> (r: Self)
        ensures
            is_clone_of(r@, self@),
    {
        SquareMatrix(self.0.clone())
    }
}

impl<T, const M: usize> Copy for SquareMatrix<T, M> where T: Copy + Clone {

}

impl<T, const M: usize> core::ops::Deref for SquareMatrix<T, M> {
    type Target = Matrix<T, M, M>;

    fn deref(&self) -> (r: &Self::Target)
        ensures
            r@ == self@,
    {
        &self.0
    }
}

impl<T, const M: usize> core::ops::DerefMut for SquareMatrix<T, M> {
    fn deref_mut(&mut self) -> (r: &mut Self::Target)
        ensures
            r@ == old(self)@,
            final(self)@ == final(r)@,
    {
        &mut self.0
    }
}

} // verus!
