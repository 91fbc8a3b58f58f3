//! The element type of a matrix.
//!
//! The matrix types take any element type with `+` and `*`. A [`Scalar`] is
//! one whose `+` and `*` compute, wherever they are defined, the sum and
//! product of a commutative semiring on its values. The trait holds no
//! executable code: it names the semiring and states its laws, so that the
//! laws of matrix arithmetic can be proved for every element type that
//! implements it.

use vstd::prelude::*;
use vstd::std_specs::ops::AddSpec;
use vstd::std_specs::ops::MulSpec;
use vstd::arithmetic::div_mod::lemma_fundamental_div_mod;
use vstd::arithmetic::div_mod::lemma_mod_multiples_vanish;
use vstd::arithmetic::div_mod::lemma_small_mod;
use vstd::arithmetic::div_mod::lemma_mod_bound;

verus! {

/// A type with a zero, a sum and a product that form a commutative semiring,
/// whose `Default`, `Clone`, `+` and `*` agree with them.
pub trait Scalar: Sized + Clone + Default + core::ops::Add<Output = Self> + core::ops::Mul<
    Output = Self,
> {
    /// The additive identity.
    spec fn zero() -> Self;

    /// The sum of two elements, defined for every pair.
    spec fn sum(self, rhs: Self) -> Self;

    /// The product of two elements, defined for every pair.
    spec fn product(self, rhs: Self) -> Self;

    /// `(a + b) + c == a + (b + c)`.
    proof fn sum_associative(a: Self, b: Self, c: Self)
        ensures
            a.sum(b).sum(c) == a.sum(b.sum(c)),
    ;

    /// `a + b == b + a`.
    proof fn sum_commutative(a: Self, b: Self)
        ensures
            a.sum(b) == b.sum(a),
    ;

    /// `a + 0 == a`.
    proof fn zero_neutral(a: Self)
        ensures
            a.sum(Self::zero()) == a,
    ;

    /// `(a * b) * c == a * (b * c)`.
    proof fn product_associative(a: Self, b: Self, c: Self)
        ensures
            a.product(b).product(c) == a.product(b.product(c)),
    ;

    /// `a * (b + c) == a * b + a * c` and `(b + c) * a == b * a + c * a`.
    proof fn product_distributes(a: Self, b: Self, c: Self)
        ensures
            a.product(b.sum(c)) == a.product(b).sum(a.product(c)),
            b.sum(c).product(a) == b.product(a).sum(c.product(a)),
    ;

    /// `0 * a == 0` and `a * 0 == 0`.
    proof fn zero_annihilates(a: Self)
        ensures
            Self::zero().product(a) == Self::zero(),
            a.product(Self::zero()) == Self::zero(),
    ;

    /// Where `+` accepts its operands, it returns their sum.
    proof fn add_computes_sum(a: Self, b: Self)
        requires
            a.add_req(b),
        ensures
            Self::obeys_add_spec(),
            a.add_spec(b) == a.sum(b),
    ;

    /// Where `*` accepts its operands, it returns their product.
    proof fn mul_computes_product(a: Self, b: Self)
        requires
            a.mul_req(b),
        ensures
            Self::obeys_mul_spec(),
            a.mul_spec(b) == a.product(b),
    ;

    /// `+` and `*` accept the zero as an operand, on either side.
    proof fn zero_is_accepted(a: Self)
        ensures
            a.add_req(Self::zero()),
            Self::zero().add_req(a),
            a.mul_req(Self::zero()),
            Self::zero().mul_req(a),
    ;

    /// `Default::default` returns the additive identity and nothing else.
    proof fn default_is_zero(z: Self)
        requires
            call_ensures(Self::default, (), z),
        ensures
            z == Self::zero(),
    ;

    /// `Clone::clone` returns a value equal to the one it was given.
    proof fn clone_is_exact(a: Self, b: Self)
        requires
            cloned(a, b),
        ensures
            a == b,
    ;
}

/// The representative of `x` modulo `high - low + 1` that lies in `low..=high`.
pub open spec fn wrapped(x: int, low: int, high: int) -> int {
    low + (x - low) % (high - low + 1)
}

/// `wrapped` lands in `low..=high` and leaves what is already there alone.
pub proof fn lemma_wrapped_in_range(x: int, low: int, high: int)
    requires
        low <= high,
    ensures
        low <= wrapped(x, low, high) <= high,
        low <= x <= high ==> wrapped(x, low, high) == x,
{
    let m = high - low + 1;
    lemma_mod_bound(x - low, m);
    if low <= x <= high {
        lemma_small_mod((x - low) as nat, m as nat);
    }
}

/// Wrapping an operand of a sum before the sum is wrapped changes nothing.
proof fn lemma_wrapped_absorbs_add(x: int, y: int, low: int, high: int)
    requires
        low <= high,
    ensures
        wrapped(wrapped(x, low, high) + y, low, high) == wrapped(x + y, low, high),
        wrapped(y + wrapped(x, low, high), low, high) == wrapped(x + y, low, high),
{
    let m = high - low + 1;
    let k = (x - low) / m;
    lemma_fundamental_div_mod(x - low, m);
    assert(wrapped(x, low, high) == x - m * k);
    assert(wrapped(x, low, high) + y - low == m * (-k) + (x + y - low)) by (nonlinear_arith)
        requires
            wrapped(x, low, high) == x - m * k,
    ;
    lemma_mod_multiples_vanish(-k, x + y - low, m);
}

/// Wrapping a factor of a product before the product is wrapped changes nothing.
proof fn lemma_wrapped_absorbs_mul(x: int, y: int, low: int, high: int)
    requires
        low <= high,
    ensures
        wrapped(wrapped(x, low, high) * y, low, high) == wrapped(x * y, low, high),
        wrapped(y * wrapped(x, low, high), low, high) == wrapped(x * y, low, high),
{
    let m = high - low + 1;
    let k = (x - low) / m;
    lemma_fundamental_div_mod(x - low, m);
    assert(wrapped(x, low, high) == x - m * k);
    assert(wrapped(x, low, high) * y - low == m * (-(k * y)) + (x * y - low)) by (nonlinear_arith)
        requires
            wrapped(x, low, high) == x - m * k,
    ;
    assert(y * wrapped(x, low, high) == wrapped(x, low, high) * y) by (nonlinear_arith);
    lemma_mod_multiples_vanish(-(k * y), x * y - low, m);
}

proof fn lemma_wrapped_sum_associative(a: int, b: int, c: int, low: int, high: int)
    requires
        low <= high,
    ensures
        wrapped(wrapped(a + b, low, high) + c, low, high) == wrapped(
            a + wrapped(b + c, low, high),
            low,
            high,
        ),
{
    lemma_wrapped_absorbs_add(a + b, c, low, high);
    lemma_wrapped_absorbs_add(b + c, a, low, high);
}

proof fn lemma_wrapped_product_associative(a: int, b: int, c: int, low: int, high: int)
    requires
        low <= high,
    ensures
        wrapped(wrapped(a * b, low, high) * c, low, high) == wrapped(
            a * wrapped(b * c, low, high),
            low,
            high,
        ),
{
    lemma_wrapped_absorbs_mul(a * b, c, low, high);
    lemma_wrapped_absorbs_mul(b * c, a, low, high);
    assert((a * b) * c == (b * c) * a) by (nonlinear_arith);
}

proof fn lemma_wrapped_product_distributes(a: int, b: int, c: int, low: int, high: int)
    requires
        low <= high,
    ensures
        wrapped(a * wrapped(b + c, low, high), low, high) == wrapped(
            wrapped(a * b, low, high) + wrapped(a * c, low, high),
            low,
            high,
        ),
        wrapped(wrapped(b + c, low, high) * a, low, high) == wrapped(
            wrapped(b * a, low, high) + wrapped(c * a, low, high),
            low,
            high,
        ),
{
    lemma_wrapped_absorbs_mul(b + c, a, low, high);
    lemma_wrapped_absorbs_add(a * b, wrapped(a * c, low, high), low, high);
    lemma_wrapped_absorbs_add(a * c, a * b, low, high);
    lemma_wrapped_absorbs_add(b * a, wrapped(c * a, low, high), low, high);
    lemma_wrapped_absorbs_add(c * a, b * a, low, high);
    assert((b + c) * a == a * b + a * c) by (nonlinear_arith);
    assert((b + c) * a == b * a + c * a) by (nonlinear_arith);
}

/// The laws of a commutative semiring hold of sums and products wrapped into
/// `low..=high`, a range that holds 0.
pub proof fn lemma_wrapped_laws(a: int, b: int, c: int, low: int, high: int)
    requires
        low <= 0 <= high,
    ensures
        forall|x: int|
            low <= #[trigger] wrapped(x, low, high) <= high && (low <= x <= high ==> wrapped(
                x,
                low,
                high,
            ) == x),
        wrapped(wrapped(a + b, low, high) + c, low, high) == wrapped(
            a + wrapped(b + c, low, high),
            low,
            high,
        ),
        wrapped(wrapped(a * b, low, high) * c, low, high) == wrapped(
            a * wrapped(b * c, low, high),
            low,
            high,
        ),
        wrapped(a * wrapped(b + c, low, high), low, high) == wrapped(
            wrapped(a * b, low, high) + wrapped(a * c, low, high),
            low,
            high,
        ),
        wrapped(wrapped(b + c, low, high) * a, low, high) == wrapped(
            wrapped(b * a, low, high) + wrapped(c * a, low, high),
            low,
            high,
        ),
        a + b == b + a,
        a * 0 == 0,
        0 * a == 0,
{
    assert forall|x: int|
        low <= #[trigger] wrapped(x, low, high) <= high && (low <= x <= high ==> wrapped(
            x,
            low,
            high,
        ) == x) by {
        lemma_wrapped_in_range(x, low, high);
    }
    lemma_wrapped_sum_associative(a, b, c, low, high);
    lemma_wrapped_product_associative(a, b, c, low, high);
    lemma_wrapped_product_distributes(a, b, c, low, high);
}

/// `u32` with arithmetic modulo `u32::MAX + 1`; `+` and `*` are defined where
/// the exact result fits.
impl Scalar for u32 {
    open spec fn zero() -> Self {
        0
    }

    open spec fn sum(self, rhs: Self) -> Self {
        wrapped(self + rhs, u32::MIN as int, u32::MAX as int) as u32
    }

    open spec fn product(self, rhs: Self) -> Self {
        wrapped(self * rhs, u32::MIN as int, u32::MAX as int) as u32
    }

    proof fn sum_associative(a: Self, b: Self, c: Self) {
        lemma_wrapped_laws(a as int, b as int, c as int, u32::MIN as int, u32::MAX as int);
    }

    proof fn sum_commutative(a: Self, b: Self) {
    }

    proof fn zero_neutral(a: Self) {
        lemma_wrapped_laws(a as int, 0, 0, u32::MIN as int, u32::MAX as int);
    }

    proof fn product_associative(a: Self, b: Self, c: Self) {
        lemma_wrapped_laws(a as int, b as int, c as int, u32::MIN as int, u32::MAX as int);
    }

    proof fn product_distributes(a: Self, b: Self, c: Self) {
        lemma_wrapped_laws(a as int, b as int, c as int, u32::MIN as int, u32::MAX as int);
    }

    proof fn zero_annihilates(a: Self) {
        lemma_wrapped_laws(a as int, 0, 0, u32::MIN as int, u32::MAX as int);
    }

    proof fn add_computes_sum(a: Self, b: Self) {
        lemma_wrapped_laws(a as int, b as int, 0, u32::MIN as int, u32::MAX as int);
    }

    proof fn mul_computes_product(a: Self, b: Self) {
        lemma_wrapped_laws(a as int, b as int, 0, u32::MIN as int, u32::MAX as int);
    }

    proof fn zero_is_accepted(a: Self) {
        assert(a * 0 == 0 && 0 * a == 0);
    }

    proof fn default_is_zero(z: Self) {
    }

    proof fn clone_is_exact(a: Self, b: Self) {
    }
}

/// `u64` with arithmetic modulo `u64::MAX + 1`; `+` and `*` are defined where
/// the exact result fits.
impl Scalar for u64 {
    open spec fn zero() -> Self {
        0
    }

    open spec fn sum(self, rhs: Self) -> Self {
        wrapped(self + rhs, u64::MIN as int, u64::MAX as int) as u64
    }

    open spec fn product(self, rhs: Self) -> Self {
        wrapped(self * rhs, u64::MIN as int, u64::MAX as int) as u64
    }

    proof fn sum_associative(a: Self, b: Self, c: Self) {
        lemma_wrapped_laws(a as int, b as int, c as int, u64::MIN as int, u64::MAX as int);
    }

    proof fn sum_commutative(a: Self, b: Self) {
    }

    proof fn zero_neutral(a: Self) {
        lemma_wrapped_laws(a as int, 0, 0, u64::MIN as int, u64::MAX as int);
    }

    proof fn product_associative(a: Self, b: Self, c: Self) {
        lemma_wrapped_laws(a as int, b as int, c as int, u64::MIN as int, u64::MAX as int);
    }

    proof fn product_distributes(a: Self, b: Self, c: Self) {
        lemma_wrapped_laws(a as int, b as int, c as int, u64::MIN as int, u64::MAX as int);
    }

    proof fn zero_annihilates(a: Self) {
        lemma_wrapped_laws(a as int, 0, 0, u64::MIN as int, u64::MAX as int);
    }

    proof fn add_computes_sum(a: Self, b: Self) {
        lemma_wrapped_laws(a as int, b as int, 0, u64::MIN as int, u64::MAX as int);
    }

    proof fn mul_computes_product(a: Self, b: Self) {
        lemma_wrapped_laws(a as int, b as int, 0, u64::MIN as int, u64::MAX as int);
    }

    proof fn zero_is_accepted(a: Self) {
        assert(a * 0 == 0 && 0 * a == 0);
    }

    proof fn default_is_zero(z: Self) {
    }

    proof fn clone_is_exact(a: Self, b: Self) {
    }
}

/// `usize` with arithmetic modulo `usize::MAX + 1`; `+` and `*` are defined where
/// the exact result fits.
impl Scalar for usize {
    open spec fn zero() -> Self {
        0
    }

    open spec fn sum(self, rhs: Self) -> Self {
        wrapped(self + rhs, usize::MIN as int, usize::MAX as int) as usize
    }

    open spec fn product(self, rhs: Self) -> Self {
        wrapped(self * rhs, usize::MIN as int, usize::MAX as int) as usize
    }

    proof fn sum_associative(a: Self, b: Self, c: Self) {
        lemma_wrapped_laws(a as int, b as int, c as int, usize::MIN as int, usize::MAX as int);
    }

    proof fn sum_commutative(a: Self, b: Self) {
    }

    proof fn zero_neutral(a: Self) {
        lemma_wrapped_laws(a as int, 0, 0, usize::MIN as int, usize::MAX as int);
    }

    proof fn product_associative(a: Self, b: Self, c: Self) {
        lemma_wrapped_laws(a as int, b as int, c as int, usize::MIN as int, usize::MAX as int);
    }

    proof fn product_distributes(a: Self, b: Self, c: Self) {
        lemma_wrapped_laws(a as int, b as int, c as int, usize::MIN as int, usize::MAX as int);
    }

    proof fn zero_annihilates(a: Self) {
        lemma_wrapped_laws(a as int, 0, 0, usize::MIN as int, usize::MAX as int);
    }

    proof fn add_computes_sum(a: Self, b: Self) {
        lemma_wrapped_laws(a as int, b as int, 0, usize::MIN as int, usize::MAX as int);
    }

    proof fn mul_computes_product(a: Self, b: Self) {
        lemma_wrapped_laws(a as int, b as int, 0, usize::MIN as int, usize::MAX as int);
    }

    proof fn zero_is_accepted(a: Self) {
        assert(a * 0 == 0 && 0 * a == 0);
    }

    proof fn default_is_zero(z: Self) {
    }

    proof fn clone_is_exact(a: Self, b: Self) {
    }
}

/// `i32` with two's complement arithmetic: sums and products are taken modulo
/// the number of values of the type, into `i32::MIN..=i32::MAX`; `+` and `*` are
/// defined where the exact result fits.
impl Scalar for i32 {
    open spec fn zero() -> Self {
        0
    }

    open spec fn sum(self, rhs: Self) -> Self {
        wrapped(self + rhs, i32::MIN as int, i32::MAX as int) as i32
    }

    open spec fn product(self, rhs: Self) -> Self {
        wrapped(self * rhs, i32::MIN as int, i32::MAX as int) as i32
    }

    proof fn sum_associative(a: Self, b: Self, c: Self) {
        lemma_wrapped_laws(a as int, b as int, c as int, i32::MIN as int, i32::MAX as int);
    }

    proof fn sum_commutative(a: Self, b: Self) {
    }

    proof fn zero_neutral(a: Self) {
        lemma_wrapped_laws(a as int, 0, 0, i32::MIN as int, i32::MAX as int);
    }

    proof fn product_associative(a: Self, b: Self, c: Self) {
        lemma_wrapped_laws(a as int, b as int, c as int, i32::MIN as int, i32::MAX as int);
    }

    proof fn product_distributes(a: Self, b: Self, c: Self) {
        lemma_wrapped_laws(a as int, b as int, c as int, i32::MIN as int, i32::MAX as int);
    }

    proof fn zero_annihilates(a: Self) {
        lemma_wrapped_laws(a as int, 0, 0, i32::MIN as int, i32::MAX as int);
    }

    proof fn add_computes_sum(a: Self, b: Self) {
        lemma_wrapped_laws(a as int, b as int, 0, i32::MIN as int, i32::MAX as int);
    }

    proof fn mul_computes_product(a: Self, b: Self) {
        lemma_wrapped_laws(a as int, b as int, 0, i32::MIN as int, i32::MAX as int);
    }

    proof fn zero_is_accepted(a: Self) {
        assert(a * 0 == 0 && 0 * a == 0);
    }

    proof fn default_is_zero(z: Self) {
    }

    proof fn clone_is_exact(a: Self, b: Self) {
    }
}

/// `i64` with two's complement arithmetic: sums and products are taken modulo
/// the number of values of the type, into `i64::MIN..=i64::MAX`; `+` and `*` are
/// defined where the exact result fits.
impl Scalar for i64 {
    open spec fn zero() -> Self {
        0
    }

    open spec fn sum(self, rhs: Self) -> Self {
        wrapped(self + rhs, i64::MIN as int, i64::MAX as int) as i64
    }

    open spec fn product(self, rhs: Self) -> Self {
        wrapped(self * rhs, i64::MIN as int, i64::MAX as int) as i64
    }

    proof fn sum_associative(a: Self, b: Self, c: Self) {
        lemma_wrapped_laws(a as int, b as int, c as int, i64::MIN as int, i64::MAX as int);
    }

    proof fn sum_commutative(a: Self, b: Self) {
    }

    proof fn zero_neutral(a: Self) {
        lemma_wrapped_laws(a as int, 0, 0, i64::MIN as int, i64::MAX as int);
    }

    proof fn product_associative(a: Self, b: Self, c: Self) {
        lemma_wrapped_laws(a as int, b as int, c as int, i64::MIN as int, i64::MAX as int);
    }

    proof fn product_distributes(a: Self, b: Self, c: Self) {
        lemma_wrapped_laws(a as int, b as int, c as int, i64::MIN as int, i64::MAX as int);
    }

    proof fn zero_annihilates(a: Self) {
        lemma_wrapped_laws(a as int, 0, 0, i64::MIN as int, i64::MAX as int);
    }

    proof fn add_computes_sum(a: Self, b: Self) {
        lemma_wrapped_laws(a as int, b as int, 0, i64::MIN as int, i64::MAX as int);
    }

    proof fn mul_computes_product(a: Self, b: Self) {
        lemma_wrapped_laws(a as int, b as int, 0, i64::MIN as int, i64::MAX as int);
    }

    proof fn zero_is_accepted(a: Self) {
        assert(a * 0 == 0 && 0 * a == 0);
    }

    proof fn default_is_zero(z: Self) {
    }

    proof fn clone_is_exact(a: Self, b: Self) {
    }
}

/// `isize` with two's complement arithmetic: sums and products are taken modulo
/// the number of values of the type, into `isize::MIN..=isize::MAX`; `+` and `*` are
/// defined where the exact result fits.
impl Scalar for isize {
    open spec fn zero() -> Self {
        0
    }

    open spec fn sum(self, rhs: Self) -> Self {
        wrapped(self + rhs, isize::MIN as int, isize::MAX as int) as isize
    }

    open spec fn product(self, rhs: Self) -> Self {
        wrapped(self * rhs, isize::MIN as int, isize::MAX as int) as isize
    }

    proof fn sum_associative(a: Self, b: Self, c: Self) {
        lemma_wrapped_laws(a as int, b as int, c as int, isize::MIN as int, isize::MAX as int);
    }

    proof fn sum_commutative(a: Self, b: Self) {
    }

    proof fn zero_neutral(a: Self) {
        lemma_wrapped_laws(a as int, 0, 0, isize::MIN as int, isize::MAX as int);
    }

    proof fn product_associative(a: Self, b: Self, c: Self) {
        lemma_wrapped_laws(a as int, b as int, c as int, isize::MIN as int, isize::MAX as int);
    }

    proof fn product_distributes(a: Self, b: Self, c: Self) {
        lemma_wrapped_laws(a as int, b as int, c as int, isize::MIN as int, isize::MAX as int);
    }

    proof fn zero_annihilates(a: Self) {
        lemma_wrapped_laws(a as int, 0, 0, isize::MIN as int, isize::MAX as int);
    }

    proof fn add_computes_sum(a: Self, b: Self) {
        lemma_wrapped_laws(a as int, b as int, 0, isize::MIN as int, isize::MAX as int);
    }

    proof fn mul_computes_product(a: Self, b: Self) {
        lemma_wrapped_laws(a as int, b as int, 0, isize::MIN as int, isize::MAX as int);
    }

    proof fn zero_is_accepted(a: Self) {
        assert(a * 0 == 0 && 0 * a == 0);
    }

    proof fn default_is_zero(z: Self) {
    }

    proof fn clone_is_exact(a: Self, b: Self) {
    }
}

} // verus!
