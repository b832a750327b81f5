//! Fixed-point scalar arithmetic.
//!
//! A quantity is stored as an `i64` holding the real value times [`SCALE`].
//! Products and quotients are computed exactly in `i128` and rescaled with
//! truncating (round-toward-zero) division, the rounding Rust's `/` uses.

use vstd::prelude::*;

verus! {

use vstd::arithmetic::div_mod::{
    lemma_div_pos_is_pos, lemma_div_nonincreasing, lemma_div_multiples_vanish,
    lemma_fundamental_div_mod, lemma_mod_division_less_than_divisor, lemma_div_is_ordered,
};

/// Number of fixed-point units in one.
pub const SCALE: i64 = 1_000_000_000;

/// Magnitude bound for one rescaled product of two storage-range values.
pub const TERM_BOUND: i128 = 0x2_0000_0000_0000_0000_0000_0000;

/// Magnitude of an integer.
pub open spec fn iabs(x: int) -> int {
    if x >= 0 {
        x
    } else {
        -x
    }
}

/// Whether a model value fits the storage type.
pub open spec fn in_i64(x: int) -> bool {
    i64::MIN <= x <= i64::MAX
}

/// Truncating division: the quotient rounded toward zero, as Rust's `/`
/// computes it on signed integers. Spec-mode `/` is Euclidean, so the
/// negative cases are spelled out through magnitudes.
pub open spec fn div_tz(a: int, b: int) -> int {
    if a == 0 {
        0
    } else if a > 0 && b > 0 {
        a / b
    } else if a < 0 && b < 0 {
        (a * -1) / (b * -1)
    } else if a < 0 {
        ((a * -1) / b) * -1
    } else {
        (a / (b * -1)) * -1
    }
}

/// Product of two fixed-point numbers: exact integer product, rescaled.
pub open spec fn fmul(a: int, b: int) -> int {
    div_tz(a * b, SCALE as int)
}

/// Quotient of two fixed-point numbers: numerator rescaled, then divided.
pub open spec fn fdiv(a: int, b: int) -> int {
    div_tz(a * SCALE, b)
}

/// A truncating quotient is no larger in magnitude than its dividend, and
/// it keeps the dividend's sign (or is zero).
pub proof fn lemma_div_tz_abs(a: int, b: int)
    requires
        b != 0,
    ensures
        iabs(div_tz(a, b)) <= iabs(a),
        iabs(div_tz(a, b)) == iabs(a) / iabs(b),
        a >= 0 && b > 0 ==> 0 <= div_tz(a, b) <= a,
        a <= 0 && b > 0 ==> a <= div_tz(a, b) <= 0,
{
    if a == 0 {
    } else if a > 0 && b > 0 {
        lemma_div_pos_is_pos(a, b);
        lemma_div_nonincreasing(a, b);
    } else if a < 0 && b < 0 {
        lemma_div_pos_is_pos(a * -1, b * -1);
        lemma_div_nonincreasing(a * -1, b * -1);
    } else if a < 0 {
        lemma_div_pos_is_pos(a * -1, b);
        lemma_div_nonincreasing(a * -1, b);
    } else {
        lemma_div_pos_is_pos(a, b * -1);
        lemma_div_nonincreasing(a, b * -1);
    }
}

/// Rescaling a whole multiple of the divisor is exact: `(v * s) / s == v`.
pub proof fn lemma_div_tz_exact(v: int, s: int)
    requires
        s > 0,
    ensures
        div_tz(v * s, s) == v,
{
    if v == 0 {
        assert(v * s == 0);
    } else if v > 0 {
        assert(v * s > 0) by (nonlinear_arith)
            requires v > 0 && s > 0;
        lemma_div_multiples_vanish(v, s);
        assert(v * s == s * v) by (nonlinear_arith);
    } else {
        assert(v * s < 0) by (nonlinear_arith)
            requires v < 0 && s > 0;
        assert((v * s) * -1 == (-v) * s) by (nonlinear_arith);
        lemma_div_multiples_vanish(-v, s);
        assert((-v) * s == s * (-v)) by (nonlinear_arith);
    }
}

/// Multiplying 1.0 by a fixed-point value gives that value back exactly.
pub proof fn lemma_fmul_one(v: int)
    ensures
        fmul(SCALE as int, v) == v,
        fmul(v, SCALE as int) == v,
{
    lemma_div_tz_exact(v, SCALE as int);
    assert(v * SCALE == SCALE * v) by (nonlinear_arith);
}

/// Multiplying by zero gives zero.
pub proof fn lemma_fmul_zero(v: int)
    ensures
        fmul(0, v) == 0,
        fmul(v, 0) == 0,
{
    assert(0 * v == 0) by (nonlinear_arith);
    assert(v * 0 == 0) by (nonlinear_arith);
}

/// For a non-negative dividend and positive divisor, the truncating
/// quotient brackets the dividend between consecutive multiples.
pub proof fn lemma_div_tz_mul_bounds(a: int, b: int)
    requires
        a >= 0,
        b > 0,
    ensures
        b * div_tz(a, b) <= a,
        a < b * (div_tz(a, b) + 1),
{
    lemma_fundamental_div_mod(a, b);
    lemma_mod_division_less_than_divisor(a, b);
    if a > 0 {
        assert(div_tz(a, b) == a / b);
    } else {
        assert(div_tz(a, b) == 0);
    }
    assert(b * (div_tz(a, b) + 1) == b * div_tz(a, b) + b) by (nonlinear_arith);
}

/// The magnitude of a product is the product of the magnitudes.
pub proof fn lemma_iabs_mul(x: int, y: int)
    by (nonlinear_arith)
    ensures
        iabs(x * y) == iabs(x) * iabs(y),
{
}

/// With both factors non-negative, a larger numerator cannot give a
/// smaller truncating quotient.
pub proof fn lemma_div_tz_ordered(x: int, y: int, b: int)
    requires
        0 <= x <= y,
        b > 0,
    ensures
        div_tz(x, b) <= div_tz(y, b),
{
    lemma_div_is_ordered(x, y, b);
    if x > 0 {
        assert(div_tz(x, b) == x / b);
    } else {
        lemma_div_pos_is_pos(y, b);
    }
    if y > 0 {
        assert(div_tz(y, b) == y / b);
    }
}

/// Bound on a product from bounds on its factors.
pub proof fn lemma_mul_bound(x: int, y: int, bx: int, by: int)
    by (nonlinear_arith)
    requires
        -bx <= x <= bx,
        -by <= y <= by,
        0 <= bx,
        0 <= by,
    ensures
        -(bx * by) <= x * y <= bx * by,
{
}

/// Fixed-point product. `None` exactly when the rescaled product does not
/// fit the storage type.
pub fn fx_mul(a: i64, b: i64) -> (r: Option<i64>)
    ensures
        r is Some <==> in_i64(fmul(a as int, b as int)),
        r matches Some(v) ==> v as int == fmul(a as int, b as int),
{
    let q: i128 = fmul_wide(a, b);
    if q < i64::MIN as i128 || q > i64::MAX as i128 {
        None
    } else {
        Some(q as i64)
    }
}

/// Fixed-point product kept in the wide intermediate type; never fails,
/// and the result is comfortably bounded.
pub fn fmul_wide(a: i64, b: i64) -> (f: i128)
    ensures
        f as int == fmul(a as int, b as int),
        iabs(f as int) <= TERM_BOUND as int,
{
    proof {
        lemma_mul_bound(a as int, b as int, 0x8000_0000_0000_0000, 0x8000_0000_0000_0000);
    }
    let p: i128 = (a as i128) * (b as i128);
    let qopt: Option<i128> = p.checked_div(SCALE as i128);
    proof {
        lemma_div_tz_abs(p as int, SCALE as int);
        assert(qopt is Some);
    }
    let q: i128 = qopt.unwrap();
    proof {
        assert(q as int == div_tz(p as int, SCALE as int));
        assert(p as int == (a as int) * (b as int));
        assert(iabs(p as int) <= 0x8000_0000_0000_0000int * 0x8000_0000_0000_0000int);
        vstd::arithmetic::div_mod::lemma_div_is_ordered(
            iabs(p as int),
            0x8000_0000_0000_0000int * 0x8000_0000_0000_0000int,
            SCALE as int,
        );
        assert(iabs(q as int) <= TERM_BOUND as int);
    }
    q
}

/// Fixed-point quotient with a wide dividend, as matrix inversion needs:
/// the dividend may be the (rescaled) value of a 2x2 determinant.
/// `None` exactly when the quotient does not fit the storage type.
pub fn fx_div(a: i128, b: i128) -> (r: Option<i64>)
    requires
        b != 0,
        -0x8000_0000_0000_0000 <= a <= 0x8000_0000_0000_0000,
    ensures
        r is Some <==> in_i64(fdiv(a as int, b as int)),
        r matches Some(v) ==> v as int == fdiv(a as int, b as int),
{
    proof {
        lemma_mul_bound(a as int, SCALE as int, 0x8000_0000_0000_0000, SCALE as int);
    }
    let p: i128 = a * (SCALE as i128);
    let qopt: Option<i128> = p.checked_div(b);
    proof {
        lemma_div_tz_abs(p as int, b as int);
        assert(qopt is Some);
    }
    let q: i128 = qopt.unwrap();
    proof {
        assert(q as int == div_tz(p as int, b as int));
        assert(p as int == (a as int) * (SCALE as int));
    }
    if q < i64::MIN as i128 || q > i64::MAX as i128 {
        None
    } else {
        Some(q as i64)
    }
}

} // verus!
