//! Whole-number helpers.

use vstd::arithmetic::div_mod::*;
use vstd::arithmetic::mul::*;
use vstd::prelude::*;

verus! {

/// The smaller of two numbers.
pub open spec fn min_of(a: int, b: int) -> int {
    if a <= b {
        a
    } else {
        b
    }
}

/// The larger of two numbers.
pub open spec fn max_of(a: int, b: int) -> int {
    if a >= b {
        a
    } else {
        b
    }
}

/// The number brought into a range.
pub open spec fn clamped(value: int, low: int, high: int) -> int {
    if value < low {
        low
    } else if value > high {
        high
    } else {
        value
    }
}

/// The quotient, rounded up.
pub open spec fn ceiling(a: int, b: int) -> int {
    if a % b == 0 {
        a / b
    } else {
        a / b + 1
    }
}

/// The quotient, rounded to the nearest whole number, halves upwards.
pub open spec fn rounded(a: int, b: int) -> int {
    (2 * a + b) / (2 * b)
}

/// The low 32 bits of a number.
pub open spec fn low32(value: int) -> int {
    value % 0x1_0000_0000
}

/// The smaller of two numbers.
pub fn min32(a: u32, b: u32) -> (m: u32)
    ensures
        m == min_of(a as int, b as int),
{
    if a <= b {
        a
    } else {
        b
    }
}

/// The larger of two numbers.
pub fn max32(a: u32, b: u32) -> (m: u32)
    ensures
        m == max_of(a as int, b as int),
{
    if a >= b {
        a
    } else {
        b
    }
}

/// The quotient, rounded up.
pub fn ceil_div(a: u64, b: u64) -> (q: u64)
    requires
        b > 0,
    ensures
        q == ceiling(a as int, b as int),
{
    let q: u64 = a / b;
    if a % b == 0 {
        q
    } else {
        proof {
            assert(b > 1 && a > 0) by {
                if b == 1 {
                    assert(a as int % 1 == 0);
                }
                if a == 0 {
                    lemma_small_mod(0, b as nat);
                }
            }
            assert((a as int / b as int) < a) by {
                lemma_div_decreases(a as int, b as int);
            }
        }
        q + 1
    }
}

/// The low 32 bits of a number.
pub fn truncate32(value: u64) -> (low: u32)
    ensures
        low == low32(value as int),
{
    assert(value as u32 == value % 0x1_0000_0000) by (bit_vector);
    value as u32
}

/// The product of two numbers of 32 bits fits 64 bits.
pub proof fn lemma_product(a: u32, b: u32)
    ensures
        0 <= a * b <= u64::MAX,
{
    assert(0 <= a * b <= u32::MAX * u32::MAX) by (nonlinear_arith)
        requires
            0 <= a <= u32::MAX,
            0 <= b <= u32::MAX,
    ;
}

/// `a * b / c`, with the fraction dropped.
pub fn scaled(a: u32, b: u32, c: u32) -> (q: u64)
    requires
        c > 0,
    ensures
        q == a * b / c as int,
{
    proof {
        lemma_product(a, b);
    }
    a as u64 * b as u64 / c as u64
}

/// `a * b / c`, rounded up.
pub fn scaled_up(a: u32, b: u32, c: u32) -> (q: u64)
    requires
        c > 0,
    ensures
        q == ceiling(a * b, c as int),
{
    proof {
        lemma_product(a, b);
    }
    ceil_div(a as u64 * b as u64, c as u64)
}

/// Whether `n` is a multiple of `d`.
pub open spec fn divides(d: int, n: int) -> bool {
    n % d == 0
}

proof fn lemma_multiple(d: int, k: int, n: int)
    requires
        d > 0,
        n == d * k,
    ensures
        divides(d, n),
{
    lemma_mul_is_commutative(d, k);
    lemma_fundamental_div_mod_converse(n, d, k, 0);
}

proof fn lemma_remainder_divides(d: int, a: int, b: int)
    requires
        d > 0,
        b > 0,
    ensures
        divides(d, a) && divides(d, b) <==> divides(d, b) && divides(d, a % b),
{
    let q = a / b;
    lemma_fundamental_div_mod(a, b);
    lemma_fundamental_div_mod(a, d);
    lemma_fundamental_div_mod(b, d);
    lemma_fundamental_div_mod(a % b, d);
    if divides(d, b) {
        let kb = b / d;
        if divides(d, a) {
            let ka = a / d;
            assert(a % b == d * (ka - kb * q)) by (nonlinear_arith)
                requires
                    a == b * q + a % b,
                    a == d * ka,
                    b == d * kb,
            ;
            lemma_multiple(d, ka - kb * q, a % b);
        }
        if divides(d, a % b) {
            let kr = (a % b) / d;
            assert(a == d * (kr + kb * q)) by (nonlinear_arith)
                requires
                    a == b * q + a % b,
                    a % b == d * kr,
                    b == d * kb,
            ;
            lemma_multiple(d, kr + kb * q, a);
        }
    }
}

/// Two numbers that are not both zero have a greatest common divisor.
pub proof fn lemma_gcd_exists(left: int, right: int) -> (divisor: int)
    requires
        0 <= left,
        0 <= right,
        left > 0 || right > 0,
    ensures
        0 < divisor,
        divisor <= left || left == 0,
        divides(divisor, left),
        divides(divisor, right),
        forall|d: int|
            d > 0 && #[trigger] divides(d, left) && divides(d, right) ==> d <= divisor,
    decreases right,
{
    if right == 0 {
        lemma_multiple(left, 1, left);
        lemma_multiple(left, 0, 0);
        assert forall|d: int|
            d > 0 && #[trigger] divides(d, left) && divides(d, right) implies d <= left by {
            lemma_divisor_at_most(d, left);
        }
        left
    } else {
        lemma_fundamental_div_mod(left, right);
        let divisor = lemma_gcd_exists(right, left % right);
        lemma_remainder_divides(divisor, left, right);
        assert forall|d: int|
            d > 0 && #[trigger] divides(d, left) && divides(d, right) implies d <= divisor by {
            lemma_remainder_divides(d, left, right);
        }
        if left > 0 {
            lemma_divisor_at_most(divisor, left);
        }
        divisor
    }
}

proof fn lemma_divisor_at_most(d: int, n: int)
    requires
        0 < d,
        0 < n,
        divides(d, n),
    ensures
        d <= n,
{
    let k = n / d;
    lemma_fundamental_div_mod(n, d);
    assert(d <= n) by (nonlinear_arith)
        requires
            n == d * k,
            n > 0,
            d > 0,
    ;
}

/// The greatest common divisor. Of zero and zero it is zero.
pub fn gcd(left: u32, right: u32) -> (divisor: u32)
    ensures
        left == 0 && right == 0 ==> divisor == 0,
        left > 0 || right > 0 ==> divisor > 0 && divides(divisor as int, left as int) && divides(
            divisor as int,
            right as int,
        ),
        forall|d: int|
            d > 0 && (left > 0 || right > 0) && divides(d, left as int) && divides(d, right as int)
                ==> d <= divisor,
{
    let mut a: u32 = left;
    let mut b: u32 = right;
    while b != 0
        invariant
            (a > 0 || b > 0) == (left > 0 || right > 0),
            forall|d: int|
                d > 0 ==> ((#[trigger] divides(d, a as int) && divides(d, b as int)) <==> (divides(
                    d,
                    left as int,
                ) && divides(d, right as int))),
        decreases b,
    {
        let rest: u32 = a % b;
        proof {
            assert forall|d: int| d > 0 implies ((divides(d, b as int) && divides(d, rest as int))
                <==> (divides(d, left as int) && divides(d, right as int))) by {
                lemma_remainder_divides(d, a as int, b as int);
                assert(rest as int == a as int % b as int);
                assert((divides(d, a as int) && divides(d, b as int)) <==> (divides(
                    d,
                    left as int,
                ) && divides(d, right as int)));
            }
        }
        a = b;
        b = rest;
    }
    proof {
        if left > 0 || right > 0 {
            lemma_multiple(a as int, 1, a as int);
            lemma_multiple(a as int, 0, 0);
            assert forall|d: int|
                d > 0 && divides(d, left as int) && divides(d, right as int) implies d <= a by {
                assert(divides(d, a as int));
                let k = a as int / d;
                lemma_fundamental_div_mod(a as int, d);
                assert(d <= a) by (nonlinear_arith)
                    requires
                        a == d * k,
                        a > 0,
                        d > 0,
                ;
            }
        }
    }
    a
}

} // verus!
