//! Arithmetic on 32-bit signed integers. Results that leave the range wrap
//! around in two's complement; division and remainder round toward zero.

use vstd::arithmetic::div_mod::lemma_mul_mod_noop_general;
use vstd::prelude::*;

verus! {

/// The number of 32-bit patterns.
pub open spec fn modulus() -> int {
    0x1_0000_0000
}

/// The 32-bit signed integer that differs from `x` by a multiple of 2^32.
pub open spec fn wrap(x: int) -> i32 {
    let m = x % modulus();
    if m > 0x7fff_ffff {
        (m - modulus()) as i32
    } else {
        m as i32
    }
}

/// The quotient of `x` by a nonzero `y`, rounded toward zero.
pub open spec fn quotient(x: int, y: int) -> int {
    if x >= 0 && y > 0 {
        x / y
    } else if x < 0 && y < 0 {
        (-x) / (-y)
    } else if x < 0 {
        -((-x) / y)
    } else {
        -(x / (-y))
    }
}

/// What is left of `x` after taking out `y` as often as [`quotient`] says;
/// it has the sign of `x`.
pub open spec fn remainder(x: int, y: int) -> int {
    x - y * quotient(x, y)
}

/// `b` multiplied by itself `e` times.
pub open spec fn power(b: int, e: nat) -> int
    decreases e,
{
    if e == 0 {
        1
    } else {
        b * power(b, (e - 1) as nat)
    }
}

/// The reciprocal of `power(b, e)` for a nonzero `b` and a positive `e`,
/// rounded toward zero: it is zero unless `b` is 1 or -1.
pub open spec fn reciprocal_power(b: int, e: nat) -> int {
    if b == 1 {
        1
    } else if b == -1 {
        if e % 2 == 0 {
            1
        } else {
            -1
        }
    } else {
        0
    }
}

/// Two integers that leave the same remainder modulo 2^32.
pub open spec fn congruent(a: int, b: int) -> bool {
    a % modulus() == b % modulus()
}

proof fn lemma_wrap_congruent(a: int)
    ensures
        congruent(wrap(a) as int, a),
{
}

proof fn lemma_wrap_fixed(a: i32)
    ensures
        wrap(a as int) == a,
{
}

proof fn lemma_congruent_mul(a: int, b: int, c: int, d: int)
    requires
        congruent(a, b),
        congruent(c, d),
    ensures
        congruent(a * c, b * d),
{
    lemma_mul_mod_noop_general(a, c, modulus());
    lemma_mul_mod_noop_general(b, d, modulus());
}

proof fn lemma_power_square(b: int, k: nat)
    ensures
        power(b * b, k) == power(b, 2 * k),
    decreases k,
{
    if k > 0 {
        lemma_power_square(b, (k - 1) as nat);
        assert(power(b, 2 * k) == b * power(b, (2 * k - 1) as nat));
        assert(power(b, (2 * k - 1) as nat) == b * power(b, (2 * k - 2) as nat));
        assert(power(b * b, k) == (b * b) * power(b * b, (k - 1) as nat));
        assert(b * (b * power(b, (2 * k - 2) as nat)) == (b * b) * power(b, (2 * k - 2) as nat))
            by (nonlinear_arith);
    }
}

proof fn lemma_congruent_power(a: int, b: int, n: nat)
    requires
        congruent(a, b),
    ensures
        congruent(power(a, n), power(b, n)),
    decreases n,
{
    if n > 0 {
        lemma_congruent_power(a, b, (n - 1) as nat);
        lemma_congruent_mul(a, b, power(a, (n - 1) as nat), power(b, (n - 1) as nat));
    }
}

/// The sum of two integers, wrapped.
pub fn add_wrapping(x: i32, y: i32) -> (r: i32)
    ensures
        r == wrap(x + y),
{
    x.wrapping_add(y)
}

/// The difference of two integers, wrapped.
pub fn sub_wrapping(x: i32, y: i32) -> (r: i32)
    ensures
        r == wrap(x - y),
{
    x.wrapping_sub(y)
}

/// The product of two integers, wrapped.
pub fn mul_wrapping(x: i32, y: i32) -> (r: i32)
    ensures
        r == wrap(x * y),
{
    x.wrapping_mul(y)
}

/// The quotient of two integers, rounded toward zero and wrapped.
pub fn div_wrapping(x: i32, y: i32) -> (r: i32)
    requires
        y != 0,
    ensures
        r == wrap(quotient(x as int, y as int)),
{
    match x.checked_div(y) {
        Some(q) => q,
        None => i32::MIN,
    }
}

/// The remainder of the division of two integers that rounds toward zero.
pub fn rem_wrapping(x: i32, y: i32) -> (r: i32)
    requires
        y != 0,
    ensures
        r == wrap(remainder(x as int, y as int)),
{
    match x.checked_rem(y) {
        Some(m) => {
            assert(m == remainder(x as int, y as int)) by (nonlinear_arith)
                requires
                    y != 0,
                    !(x == i32::MIN && y == -1),
                    m == (if x == 0 {
                        0
                    } else if x > 0 && y > 0 {
                        x as int % y as int
                    } else if x < 0 && y < 0 {
                        ((x * -1) % (y * -1)) * -1
                    } else if x < 0 {
                        ((x * -1) % y as int) * -1
                    } else {
                        x as int % (y * -1)
                    }),
            ;
            m
        },
        None => 0,
    }
}

/// A power of an integer with a natural exponent, wrapped.
pub fn pow_wrapping(x: i32, y: u32) -> (r: i32)
    ensures
        r == wrap(power(x as int, y as nat)),
{
    let mut acc: i32 = 1;
    let mut base: i32 = x;
    let mut e: u32 = y;
    while e > 0
        invariant
            congruent(acc * power(base as int, e as nat), power(x as int, y as nat)),
        decreases e,
    {
        let ghost acc0 = acc as int;
        let ghost base0 = base as int;
        let ghost e0 = e as nat;
        let ghost half = (e0 / 2) as nat;
        if e % 2 == 1 {
            acc = acc.wrapping_mul(base);
        }
        base = base.wrapping_mul(base);
        e = e / 2;
        proof {
            lemma_power_square(base0, half);
            lemma_wrap_congruent(base0 * base0);
            lemma_congruent_power(base as int, base0 * base0, half);
            // power(base, half) is congruent to power(base0, 2 * half)
            if e0 % 2 == 1 {
                assert(power(base0, e0) == base0 * power(base0, (2 * half) as nat));
                lemma_wrap_congruent(acc0 * base0);
                lemma_congruent_mul(
                    acc as int,
                    acc0 * base0,
                    power(base as int, half),
                    power(base0, 2 * half),
                );
                assert((acc0 * base0) * power(base0, 2 * half) == acc0 * power(base0, e0))
                    by (nonlinear_arith)
                    requires
                        power(base0, e0) == base0 * power(base0, (2 * half) as nat),
                ;
            } else {
                assert(e0 == 2 * half);
                lemma_congruent_mul(
                    acc as int,
                    acc0,
                    power(base as int, half),
                    power(base0, 2 * half),
                );
            }
        }
    }
    proof {
        assert(power(base as int, 0) == 1);
        assert(acc * 1 == acc as int);
        lemma_wrap_fixed(acc);
    }
    acc
}

} // verus!
