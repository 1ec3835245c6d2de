//! Arithmetic on binary64 numbers, the `f64` of the processor, carried out
//! in integers. Only what a ratio of two counts needs is here: numbers
//! that are not negative, rounded to the nearest number of 53 significant
//! bits, to the even one of two that are equally near.
//!
//! In contracts a number stands for itself times `unit()`, a power of two
//! so large that every number that comes up is whole in it.

use vstd::prelude::*;
use vstd::arithmetic::div_mod::{lemma_fundamental_div_mod, lemma_fundamental_div_mod_converse};
use vstd::arithmetic::power2::{lemma2_to64, lemma2_to64_rest, lemma_pow2_adds, lemma_pow2_pos, pow2};

verus! {

/// What stands for the number one: 2 to the power 128.
pub open spec fn unit() -> int {
    0x1_0000_0000_0000_0000_0000_0000_0000_0000int
}

/// 2 to the power 52.
pub open spec fn two52() -> int {
    0x10_0000_0000_0000int
}

/// 2 to the power 53: the numbers below it are written with 53 bits.
pub open spec fn two53() -> int {
    0x20_0000_0000_0000int
}

/// The whole number nearest to `num / den`, and the even one of two that
/// are equally near.
pub open spec fn nearest(num: int, den: int) -> int {
    let q = num / den;
    let r = num % den;
    if 2 * r < den {
        q
    } else if 2 * r > den {
        q + 1
    } else if q % 2 == 0 {
        q
    } else {
        q + 1
    }
}

/// The distance between neighbours among the numbers of 53 significant
/// bits around `x`: the power of two that brings `x` below 2 to the 53.
pub open spec fn grid(x: int) -> int
    decreases x,
{
    if x < two53() {
        1
    } else {
        2 * grid(x / 2)
    }
}

/// `x` rounded to 53 significant bits.
pub open spec fn round53(x: int) -> int {
    nearest(x, grid(x)) * grid(x)
}

/// `num / den` rounded to 53 significant bits, for a quotient of at least
/// 2 to the 52, or none.
pub open spec fn round_quotient(num: int, den: int) -> int {
    let g = grid(num / den);
    nearest(num, den * g) * g
}

/// The count `x` as a number.
pub open spec fn of_count(x: int) -> int {
    round53(x) * unit()
}

/// The quotient of two numbers, rounded.
pub open spec fn quotient(a: int, b: int) -> int {
    round_quotient(a * unit(), b)
}

/// The count `h` times the number `r`, rounded.
pub open spec fn times(h: int, r: int) -> int {
    round53(h * r)
}

/// The difference of two numbers, rounded; 0 where it would be negative.
pub open spec fn minus_or_zero(a: int, b: int) -> int {
    if a >= b {
        round53(a - b)
    } else {
        0
    }
}

/// The whole part of a number.
pub open spec fn whole(a: int) -> int {
    a / unit()
}

/// What `nearest` is near to: it lies within half a step of the quotient,
/// and is the quotient where the division leaves nothing.
pub proof fn lemma_nearest(num: int, den: int)
    requires
        num >= 0,
        den > 0,
    ensures
        num / den <= nearest(num, den) <= num / den + 1,
        2 * nearest(num, den) * den <= 2 * num + den,
        2 * num <= 2 * nearest(num, den) * den + den,
        num % den == 0 ==> nearest(num, den) * den == num,
        nearest(num, den) >= 0,
{
    lemma_fundamental_div_mod(num, den);
    let q = num / den;
    let r = num % den;
    assert(q >= 0) by (nonlinear_arith)
        requires
            num == den * q + r,
            0 <= r < den,
            num >= 0,
            den > 0,
    ;
    assert(2 * q * den == 2 * (den * q) && 2 * (q + 1) * den == 2 * (den * q) + 2 * den
        && q * den == den * q) by (nonlinear_arith);
}

/// A quotient does not change when both of its parts are multiplied.
pub proof fn lemma_nearest_scales(num: int, den: int, c: int)
    requires
        num >= 0,
        den > 0,
        c > 0,
    ensures
        nearest(c * num, c * den) == nearest(num, den),
{
    lemma_fundamental_div_mod(num, den);
    let q = num / den;
    let r = num % den;
    assert(c * num == q * (c * den) + c * r && 0 <= c * r < c * den && c * den > 0) by (nonlinear_arith)
        requires
            num == den * q + r,
            0 <= r < den,
            c > 0,
    ;
    lemma_fundamental_div_mod_converse(c * num, c * den, q, c * r);
    assert(2 * (c * r) < c * den <==> 2 * r < den) by (nonlinear_arith)
        requires
            c > 0,
    ;
    assert(2 * (c * r) > c * den <==> 2 * r > den) by (nonlinear_arith)
        requires
            c > 0,
    ;
}

/// A quotient that is at most a whole number rounds to at most that
/// number.
pub proof fn lemma_nearest_capped(num: int, den: int, cap: int)
    requires
        num >= 0,
        den > 0,
        num <= cap * den,
    ensures
        nearest(num, den) <= cap,
{
    lemma_fundamental_div_mod(num, den);
    let q = num / den;
    let r = num % den;
    assert(q < cap || (q == cap && r == 0)) by (nonlinear_arith)
        requires
            num == den * q + r,
            0 <= r < den,
            num <= cap * den,
            den > 0,
    ;
}

/// The grid is a power of two, and brackets its number: a number of more
/// than 53 bits lies between 2 to the 52 and 2 to the 53 steps of its grid.
pub proof fn lemma_grid(x: int) -> (j: nat)
    requires
        x >= 0,
    ensures
        grid(x) == pow2(j),
        grid(x) >= 1,
        x < two53() * grid(x),
        x >= two53() ==> two52() * grid(x) <= x,
        x < two53() ==> j == 0,
    decreases x,
{
    lemma2_to64();
    if x < two53() {
        0
    } else {
        let j = lemma_grid(x / 2);
        let g = grid(x / 2);
        lemma_fundamental_div_mod(x, 2);
        vstd::arithmetic::power2::lemma_pow2_unfold(j + 1);
        assert(x < two53() * (2 * g) && two52() * (2 * g) <= x) by (nonlinear_arith)
            requires
                x == 2 * (x / 2) + x % 2,
                0 <= x % 2 < 2,
                x / 2 < two53() * g,
                x / 2 >= two53() ==> two52() * g <= x / 2,
                x >= two53(),
                g >= 1,
                x / 2 < two53() ==> g == 1,
                two53() == 2 * two52(),
        ;
        j + 1
    }
}

/// A number between 2 to the 52 and 2 to the 53 steps of a power of two
/// has that power as its grid.
pub proof fn lemma_grid_is(x: int, j: nat)
    requires
        two52() * pow2(j) <= x < two53() * pow2(j),
    ensures
        grid(x) == pow2(j),
    decreases j,
{
    lemma2_to64();
    lemma_pow2_pos(j);
    if j == 0 {
    } else {
        vstd::arithmetic::power2::lemma_pow2_unfold(j);
        let g = pow2((j - 1) as nat) as int;
        lemma_pow2_pos((j - 1) as nat);
        lemma_fundamental_div_mod(x, 2);
        assert(x >= two53() && two52() * g <= x / 2 < two53() * g) by (nonlinear_arith)
            requires
                x == 2 * (x / 2) + x % 2,
                0 <= x % 2 < 2,
                two52() * (2 * g) <= x < two53() * (2 * g),
                g >= 1,
                two53() == 2 * two52(),
        ;
        lemma_grid_is(x / 2, (j - 1) as nat);
    }
}

/// A number of at most 53 bits times a power of two is one of the numbers
/// of 53 significant bits: rounding leaves it as it is.
pub proof fn lemma_round53_exact(p: int, j: nat)
    requires
        0 <= p <= two53(),
    ensures
        round53(p * pow2(j)) == p * pow2(j),
    decreases j,
{
    lemma2_to64();
    lemma_pow2_pos(j);
    let x = p * pow2(j);
    assert(x >= 0) by (nonlinear_arith)
        requires
            x == p * pow2(j),
            p >= 0,
            pow2(j) > 0,
    ;
    if x < two53() {
        lemma_nearest(x, 1);
        assert(x % 1 == 0);
    } else if p < two52() {
        // The number has bits to spare: half of it is such a number too.
        assert(j > 0) by {
            if j == 0 {
                assert(x == p) by (nonlinear_arith)
                    requires
                        x == p * pow2(j),
                        pow2(j) == 1,
                ;
            }
        }
        vstd::arithmetic::power2::lemma_pow2_unfold(j);
        let half = pow2((j - 1) as nat) as int;
        assert(x == (2 * p) * half) by (nonlinear_arith)
            requires
                x == p * pow2(j),
                pow2(j) == 2 * half,
        ;
        lemma_round53_exact(2 * p, (j - 1) as nat);
    } else {
        if p == two53() {
            vstd::arithmetic::power2::lemma_pow2_unfold(j + 1);
            assert(two52() * pow2(j + 1) <= x < two53() * pow2(j + 1)) by (nonlinear_arith)
                requires
                    x == p * pow2(j),
                    p == two53(),
                    pow2(j + 1) == 2 * pow2(j),
                    pow2(j) > 0,
                    two53() == 2 * two52(),
            ;
            lemma_grid_is(x, j + 1);
            let g = pow2(j + 1) as int;
            assert(x == g * two52()) by (nonlinear_arith)
                requires
                    x == p * pow2(j),
                    p == two53(),
                    g == 2 * pow2(j),
                    two53() == 2 * two52(),
            ;
            lemma_fundamental_div_mod_converse(x, g, two52(), 0);
            lemma_nearest(x, g);
        } else {
            assert(two52() * pow2(j) <= x < two53() * pow2(j)) by (nonlinear_arith)
                requires
                    x == p * pow2(j),
                    two52() <= p < two53(),
                    pow2(j) > 0,
            ;
            lemma_grid_is(x, j);
            let g = pow2(j) as int;
            assert(x == g * p) by (nonlinear_arith)
                requires
                    x == p * g,
            ;
            lemma_fundamental_div_mod_converse(x, g, p, 0);
            lemma_nearest(x, g);
        }
    }
}

/// Rounding changes a number by less than one part in 2 to the 52.
pub proof fn lemma_round53_near(x: int)
    requires
        x >= 0,
    ensures
        0 <= round53(x),
        two52() * round53(x) <= two52() * x + x,
{
    lemma2_to64();
    let j = lemma_grid(x);
    let g = grid(x);
    lemma_nearest(x, g);
    let n = nearest(x, g);
    if x < two53() {
        assert(x % 1 == 0);
        assert(n * g == x);
        assert(two52() * x <= two52() * x + x) by (nonlinear_arith)
            requires
                x >= 0,
        ;
    } else {
        assert(two52() * (n * g) <= two52() * x + x && n * g >= 0) by (nonlinear_arith)
            requires
                2 * n * g <= 2 * x + g,
                two52() * g <= x,
                g >= 1,
                n >= 0,
                two52() >= 1,
        ;
    }
}

/// Rounding goes along with a power of two: a number times the power
/// rounds to the rounded number times the power.
pub proof fn lemma_round53_scales(x: int, j: nat)
    requires
        x >= 0,
    ensures
        round53(x * pow2(j)) == round53(x) * pow2(j),
{
    lemma2_to64();
    lemma_pow2_pos(j);
    if x < two53() {
        lemma_round53_exact(x, j);
        lemma_round53_exact(x, 0);
        assert(x * pow2(0) == x) by (nonlinear_arith)
            requires
                pow2(0) == 1,
        ;
    } else {
        let i = lemma_grid(x);
        let g = grid(x);
        let c = pow2(j) as int;
        lemma_pow2_adds(i, j);
        assert(two52() * (g * c) <= x * c < two53() * (g * c)) by (nonlinear_arith)
            requires
                two52() * g <= x < two53() * g,
                c > 0,
        ;
        lemma_grid_is(x * c, i + j);
        lemma_nearest_scales(x, g, c);
        assert(c * x == x * c && c * g == g * c);
        assert(nearest(x, g) * (g * c) == nearest(x, g) * g * c) by (nonlinear_arith);
    }
}

/// Of two numbers the larger one has the wider grid.
pub proof fn lemma_grid_monotone(x: int, y: int)
    requires
        0 <= x <= y,
    ensures
        grid(x) <= grid(y),
    decreases y,
{
    if y >= two53() {
        if x >= two53() {
            lemma_grid_monotone(x / 2, y / 2);
        } else {
            let j = lemma_grid(y / 2);
        }
    }
}

/// Of two quotients by the same number the larger one rounds to the
/// larger whole number.
pub proof fn lemma_nearest_monotone(a: int, b: int, den: int)
    requires
        0 <= a <= b,
        den > 0,
    ensures
        nearest(a, den) <= nearest(b, den),
{
    lemma_fundamental_div_mod(a, den);
    lemma_fundamental_div_mod(b, den);
    let qa = a / den;
    let ra = a % den;
    let qb = b / den;
    let rb = b % den;
    assert(qa < qb || (qa == qb && ra <= rb)) by (nonlinear_arith)
        requires
            a == den * qa + ra,
            b == den * qb + rb,
            0 <= ra < den,
            0 <= rb < den,
            a <= b,
            den > 0,
    ;
}

/// Rounding keeps the order of numbers.
pub proof fn lemma_round53_monotone(x: int, y: int)
    requires
        0 <= x <= y,
    ensures
        round53(x) <= round53(y),
{
    lemma2_to64();
    let i = lemma_grid(x);
    let j = lemma_grid(y);
    let gx = grid(x);
    let gy = grid(y);
    lemma_grid_monotone(x, y);
    lemma_nearest(x, gx);
    lemma_nearest(y, gy);
    if gx == gy {
        lemma_nearest_monotone(x, y, gx);
        assert(nearest(x, gx) * gx <= nearest(y, gx) * gx) by (nonlinear_arith)
            requires
                nearest(x, gx) <= nearest(y, gx),
                gx > 0,
        ;
    } else {
        // The grids are powers of two: the wider one is at least twice
        // the other.
        assert(gy >= 2 * gx) by {
            if i >= j {
                if i > j {
                    vstd::arithmetic::power2::lemma_pow2_strictly_increases(j, i);
                }
            } else {
                vstd::arithmetic::power2::lemma_pow2_unfold(i + 1);
                if i + 1 < j {
                    vstd::arithmetic::power2::lemma_pow2_strictly_increases(i + 1, j);
                }
            }
        }
        lemma_nearest_capped(x, gx, two53());
        lemma_fundamental_div_mod(y, gy);
        assert(nearest(x, gx) * gx <= nearest(y, gy) * gy) by (nonlinear_arith)
            requires
                nearest(x, gx) <= two53(),
                nearest(y, gy) >= y / gy,
                y == gy * (y / gy) + y % gy,
                0 <= y % gy < gy,
                two52() * gy <= y,
                gy >= 2 * gx,
                gx >= 1,
                two53() == 2 * two52(),
                nearest(x, gx) >= 0,
        ;
    }
}

/// A quotient of two numbers of which the first is not the larger rounds
/// to at most one.
pub proof fn lemma_quotient_capped(a: int, b: int)
    requires
        0 <= a <= b,
        b > 0,
    ensures
        0 <= quotient(a, b) <= unit(),
{
    lemma2_to64();
    lemma2_to64_rest();
    lemma_pow2_adds(64, 64);
    let num = a * unit();
    let q = num / b;
    lemma_fundamental_div_mod(num, b);
    assert(0 <= q <= unit()) by (nonlinear_arith)
        requires
            num == a * unit(),
            num == b * q + num % b,
            0 <= num % b < b,
            0 <= a <= b,
            unit() > 0,
    ;
    let j = lemma_grid(q);
    let g = grid(q);
    lemma_grid_monotone(q, unit());
    assert(two52() * pow2(76) <= unit() < two53() * pow2(76)) by {
        lemma_pow2_adds(52, 76);
        lemma_pow2_adds(53, 76);
        lemma_pow2_adds(64, 12);
        lemma_pow2_adds(64, 64);
        vstd::arithmetic::power2::lemma_pow2_strictly_increases(128, 129);
    }
    lemma_grid_is(unit(), 76);
    // The grid of the quotient divides one.
    assert(j <= 76) by {
        if j > 76 {
            vstd::arithmetic::power2::lemma_pow2_strictly_increases(76, j);
        }
    }
    lemma_pow2_adds(j, (128 - j) as nat);
    let cap = pow2((128 - j) as nat) as int;
    assert(num >= 0 && b * g > 0 && num <= cap * (b * g)) by (nonlinear_arith)
        requires
            num == a * unit(),
            0 <= a <= b,
            unit() == g * cap,
            g >= 1,
            cap >= 0,
            b > 0,
    ;
    lemma_nearest_capped(num, b * g, cap);
    lemma_nearest(num, b * g);
    assert(0 <= nearest(num, b * g) * g <= unit()) by (nonlinear_arith)
        requires
            0 <= nearest(num, b * g) <= cap,
            unit() == g * cap,
            g >= 1,
    ;
}

/// A binary64 number that is not negative: `mantissa` times 2 to the power
/// `exponent`.
#[derive(Debug, Clone, Copy, PartialEq, Eq, Structural)]
pub struct Number {
    pub mantissa: u64,
    pub exponent: i16,
}

impl View for Number {
    type V = int;

    open spec fn view(&self) -> int {
        self.mantissa * pow2((128 + self.exponent) as nat)
    }
}

/// 2 to the power `n`.
fn power(n: u16) -> (p: u128)
    requires
        n <= 126,
    ensures
        p == pow2(n as nat),
{
    let mut p: u128 = 1;
    let mut i: u16 = 0;
    proof {
        lemma2_to64();
    }
    while i < n
        invariant
            i <= n,
            n <= 126,
            p == pow2(i as nat),
        decreases n - i,
    {
        proof {
            vstd::arithmetic::power2::lemma_pow2_unfold((i + 1) as nat);
            lemma2_to64_rest();
            lemma_pow2_adds(64, 62);
            if i + 1 < 126 {
                vstd::arithmetic::power2::lemma_pow2_strictly_increases((i + 1) as nat, 126);
            }
        }
        p = p * 2;
        i += 1;
    }
    p
}

/// The whole number nearest to `num / den`.
fn nearest_to(num: u128, den: u128) -> (n: u128)
    requires
        den > 0,
        2 * den <= u128::MAX,
        num < u128::MAX,
    ensures
        n == nearest(num as int, den as int),
{
    let q = num / den;
    let r = num % den;
    proof {
        lemma_nearest(num as int, den as int);
    }
    if 2 * r < den {
        q
    } else if 2 * r > den {
        q + 1
    } else if q % 2 == 0 {
        q
    } else {
        q + 1
    }
}

impl Number {
    /// The number is held with at most 53 bits, and is neither so small
    /// nor so large that it could not come of counts.
    pub open spec fn wf(&self) -> bool {
        self.mantissa <= two53() && -120 <= self.exponent <= 96
    }

    /// The number one.
    pub fn one() -> (number: Number)
        ensures
            number@ == unit(),
            number.wf(),
    {
        proof {
            lemma2_to64();
            lemma2_to64_rest();
            lemma_pow2_adds(64, 64);
        }
        Number { mantissa: 1, exponent: 0 }
    }

    /// The number `p` times 2 to the power `e`, rounded.
    fn rounded(p: u128, e: i16) -> (number: Number)
        requires
            -120 <= e <= 16,
            p < 0x4000_0000_0000_0000_0000_0000_0000_0000,
        ensures
            number@ == round53(p as int) * pow2((128 + e) as nat),
            number.wf(),
            number.exponent >= e,
            p <= two53() ==> number.mantissa == p && number.exponent == e,
            p > two53() ==> number.mantissa >= two52() && two52() * pow2(
                (number.exponent - e) as nat,
            ) <= p,
    {
        proof {
            lemma2_to64();
            lemma2_to64_rest();
        }
        if p <= 0x20_0000_0000_0000 {
            proof {
                lemma_round53_exact(p as int, 0);
                assert(p * pow2(0) == p) by (nonlinear_arith)
                    requires
                        pow2(0) == 1,
                ;
            }
            return Number { mantissa: p as u64, exponent: e };
        }
        let mut g: u128 = 2;
        let mut sh: i16 = 1;
        while p / g >= 0x20_0000_0000_0000
            invariant
                1 <= sh <= 73,
                g >= 2,
                g == pow2(sh as nat),
                two52() * g <= p,
                p < 0x4000_0000_0000_0000_0000_0000_0000_0000,
            decreases 0x4000_0000_0000_0000_0000_0000_0000_0000 - g,
        {
            proof {
                lemma2_to64();
                lemma2_to64_rest();
                lemma_fundamental_div_mod(p as int, g as int);
                vstd::arithmetic::power2::lemma_pow2_unfold((sh + 1) as nat);
                assert(two52() * (2 * g) <= p) by (nonlinear_arith)
                    requires
                        p == g * (p / g) + p % g,
                        0 <= p % g,
                        (p / g) as int >= two53(),
                        g > 0,
                        two53() == 2 * two52(),
                ;
                // The grid stays below the number, which has less than 126 bits.
                lemma_pow2_adds(52, 74);
                lemma_pow2_adds(64, 62);
                if sh + 1 > 73 {
                    if sh + 1 > 74 {
                        vstd::arithmetic::power2::lemma_pow2_strictly_increases(
                            74,
                            (sh + 1) as nat,
                        );
                    }
                    assert(false) by (nonlinear_arith)
                        requires
                            two52() * (2 * g) <= p,
                            2 * g >= pow2(74),
                            two52() * pow2(74) == pow2(126),
                            p < pow2(126),
                            two52() > 0,
                    ;
                }
                if sh + 1 < 73 {
                    vstd::arithmetic::power2::lemma_pow2_strictly_increases((sh + 1) as nat, 73);
                }
                lemma_pow2_adds(64, 9);
            }
            g = g * 2;
            sh += 1;
        }
        proof {
            lemma_fundamental_div_mod(p as int, g as int);
            assert(p < two53() * g) by (nonlinear_arith)
                requires
                    p == g * (p / g) + p % g,
                    0 <= p % g < g,
                    ((p / g) as int) < two53(),
                    g > 0,
            ;
            lemma_grid_is(p as int, sh as nat);
            lemma_pow2_adds(64, 10);
            if sh < 73 {
                vstd::arithmetic::power2::lemma_pow2_strictly_increases(sh as nat, 74);
            } else {
                vstd::arithmetic::power2::lemma_pow2_strictly_increases(73, 74);
            }
            lemma_nearest_capped(p as int, g as int, two53());
            lemma_nearest(p as int, g as int);
            lemma_pow2_adds(sh as nat, (128 + e) as nat);
        }
        let mantissa = nearest_to(p, g);
        proof {
            assert(mantissa >= two52()) by (nonlinear_arith)
                requires
                    mantissa >= p / g,
                    p == g * (p / g) + p % g,
                    0 <= p % g < g,
                    two52() * g <= p,
                    g > 0,
            ;
            assert(mantissa * g * pow2((128 + e) as nat) == mantissa * (g * pow2(
                (128 + e) as nat,
            ))) by (nonlinear_arith);
        }
        Number { mantissa: mantissa as u64, exponent: sh + e }
    }

    /// The count `x` as a number.
    pub fn of_count(x: usize) -> (number: Number)
        ensures
            number@ == of_count(x as int),
            number.wf(),
            number.counted(x as int),
    {
        proof {
            lemma2_to64();
            lemma2_to64_rest();
            lemma_pow2_adds(64, 64);
        }
        let number = Number::rounded(x as u128, 0);
        proof {
            if x > two53() && number.exponent > 11 {
                lemma_pow2_adds(52, 12);
                if number.exponent > 12 {
                    vstd::arithmetic::power2::lemma_pow2_strictly_increases(
                        12,
                        number.exponent as nat,
                    );
                }
                assert(false) by (nonlinear_arith)
                    requires
                        two52() * pow2(number.exponent as nat) <= x,
                        pow2(number.exponent as nat) >= pow2(12),
                        two52() * pow2(12) == pow2(64),
                        x < pow2(64),
                        two52() > 0,
                ;
            }
        }
        number
    }

    /// Whether the number is held as the count `x` is: as it is where it
    /// has no more than 53 bits, and else with all 53 bits in use.
    pub open spec fn counted(&self, x: int) -> bool {
        &&& self.wf()
        &&& self.exponent >= 0
        &&& self.exponent <= 11
        &&& self@ == of_count(x)
        &&& if x <= two53() {
            self.mantissa == x && self.exponent == 0
        } else {
            self.mantissa >= two52()
        }
    }
}

/// Numbers that are not negative and at most one.
pub open spec fn is_share(a: int) -> bool {
    0 <= a <= unit()
}

/// The difference of two shares is a share again, and so is their quotient
/// where the first is not the larger.
pub proof fn lemma_shares(a: int, b: int)
    requires
        is_share(a),
        is_share(b),
    ensures
        is_share(minus_or_zero(a, b)),
        a <= b && b > 0 ==> is_share(quotient(a, b)),
        round53(unit()) == unit(),
{
    lemma2_to64();
    lemma2_to64_rest();
    lemma_pow2_adds(64, 64);
    lemma_round53_exact(1, 128);
    if a >= b {
        lemma_round53_monotone(a - b, unit());
        lemma_round53_near(a - b);
    }
    if a <= b && b > 0 {
        lemma_quotient_capped(a, b);
    }
}

impl Number {
    /// The quotient of `a` and `b`, rounded. The numbers are to be held
    /// as counts are, `a` for the smaller count.
    pub fn divide(a: Number, b: Number) -> (number: Number)
        requires
            a.wf(),
            b.wf(),
            b.mantissa > 0,
            a.mantissa < two53() * b.mantissa,
            -12 <= a.exponent - b.exponent <= 12,
        ensures
            number@ == quotient(a@, b@),
            number.wf(),
            number.exponent <= 12,
            a@ <= b@ ==> is_share(number@),
    {
        proof {
            lemma2_to64();
            lemma2_to64_rest();
            lemma_pow2_pos((128 + a.exponent) as nat);
            lemma_pow2_pos((128 + b.exponent) as nat);
            lemma_pow2_adds(64, 64);
            assert(a@ >= 0 && b@ > 0) by (nonlinear_arith)
                requires
                    a@ == a.mantissa * pow2((128 + a.exponent) as nat),
                    b@ == b.mantissa * pow2((128 + b.exponent) as nat),
                    b.mantissa > 0,
                    pow2((128 + a.exponent) as nat) > 0,
                    pow2((128 + b.exponent) as nat) > 0,
            ;
            if a@ <= b@ {
                lemma_quotient_capped(a@, b@);
            }
        }
        if a.mantissa == 0 {
            proof {
                assert(a@ == 0) by (nonlinear_arith)
                    requires
                        a@ == a.mantissa * pow2((128 + a.exponent) as nat),
                        a.mantissa == 0,
                ;
                assert(a@ * unit() == 0) by (nonlinear_arith)
                    requires
                        a@ == 0,
                ;
                assert(0int / b@ == 0 && 0int % (b@ * 1) == 0 && 0int / (b@ * 1) == 0) by (nonlinear_arith)
                    requires
                        b@ > 0,
                ;
            }
            return Number { mantissa: 0, exponent: 0 };
        }
        let ma: u128 = a.mantissa as u128;
        let mb: u128 = b.mantissa as u128;
        let low: u128 = 0x10_0000_0000_0000 * mb;
        let mut num: u128 = ma;
        let mut k: i16 = 0;
        assert(ma == ma * pow2(0)) by (nonlinear_arith)
            requires
                pow2(0) == 1,
        ;
        while num < low
            invariant
                0 <= k <= 105,
                num >= 1,
                num == ma * pow2(k as nat),
                num < two53() * mb,
                low == two52() * mb,
                1 <= ma,
                1 <= mb <= two53(),
            decreases 105 - k,
        {
            proof {
                lemma2_to64();
                lemma2_to64_rest();
                vstd::arithmetic::power2::lemma_pow2_unfold((k + 1) as nat);
                lemma_pow2_pos(k as nat);
                lemma_pow2_adds(52, 53);
                if k >= 105 {
                    assert(false) by (nonlinear_arith)
                        requires
                            num == ma * pow2(k as nat),
                            num < two52() * mb,
                            mb <= two53(),
                            ma >= 1,
                            pow2(k as nat) == two52() * two53(),
                            two52() > 0,
                    ;
                }
                assert(2 * num == ma * (2 * pow2(k as nat))) by (nonlinear_arith)
                    requires
                        num == ma * pow2(k as nat),
                ;
            }
            num = num * 2;
            k += 1;
        }
        let mantissa = nearest_to(num, mb);
        let exponent: i16 = a.exponent - b.exponent - k;
        proof {
            let big = (128 + a.exponent - b.exponent - k) as nat;
            let c = pow2((128 + b.exponent) as nat) as int;
            let p = pow2(big) as int;
            lemma_pow2_pos(big);
            lemma_pow2_adds((128 + b.exponent) as nat, big);
            lemma_pow2_adds((128 + b.exponent) as nat + big, k as nat);
            lemma_pow2_adds((128 + a.exponent) as nat, 128);
            let top = a@ * unit();
            // Both parts of the quotient are multiples of one number.
            assert(top == (c * p) * num && b@ * p == (c * p) * mb && c * p > 0 && top == c * (p
                * num) && b@ == c * mb && p * num >= 0) by (nonlinear_arith)
                requires
                    top == a@ * unit(),
                    a@ == ma * pow2((128 + a.exponent) as nat),
                    b@ == mb * c,
                    num == ma * pow2(k as nat),
                    pow2((128 + a.exponent) as nat) * unit() == c * p * pow2(k as nat),
                    c > 0,
                    p > 0,
                    ma >= 1,
                    pow2(k as nat) >= 0,
            ;
            vstd::arithmetic::div_mod::lemma_div_multiples_vanish_quotient(c, p * num, mb as int);
            let whole = (p * num) / (mb as int);
            lemma_fundamental_div_mod(p * num, mb as int);
            assert(two52() * p <= whole < two53() * p) by (nonlinear_arith)
                requires
                    p * num == mb * whole + (p * num) % (mb as int),
                    0 <= (p * num) % (mb as int) < mb,
                    two52() * mb <= num < two53() * mb,
                    p > 0,
                    mb >= 1,
            ;
            assert(top / b@ == whole);
            lemma_grid_is(whole, big);
            lemma_nearest_scales(num as int, mb as int, c * p);
            lemma_nearest_capped(num as int, mb as int, two53());
        }
        Number { mantissa: mantissa as u64, exponent }
    }

    /// The count `h` times the number `r`, rounded.
    pub fn times(h: u16, r: Number) -> (number: Number)
        requires
            r.wf(),
            r.exponent <= 16,
        ensures
            number@ == times(h as int, r@),
            number.wf(),
    {
        proof {
            lemma2_to64();
            lemma2_to64_rest();
            assert(h * r.mantissa <= 0xffff * two53() && h * r.mantissa >= 0) by (nonlinear_arith)
                requires
                    0 <= h <= 0xffff,
                    0 <= r.mantissa <= two53(),
            ;
            lemma_round53_scales(h * r.mantissa, (128 + r.exponent) as nat);
            assert(h * r@ == (h * r.mantissa) * pow2((128 + r.exponent) as nat)) by (nonlinear_arith)
                requires
                    r@ == r.mantissa * pow2((128 + r.exponent) as nat),
            ;
        }
        Number::rounded(h as u128 * r.mantissa as u128, r.exponent)
    }

    /// The difference of two shares, rounded; zero where the second is
    /// the larger.
    pub fn minus_or_zero(a: Number, b: Number) -> (number: Number)
        requires
            a.wf(),
            b.wf(),
            is_share(a@),
            is_share(b@),
        ensures
            number@ == minus_or_zero(a@, b@),
            number.wf(),
            is_share(number@),
            number.exponent <= 16,
    {
        proof {
            lemma2_to64();
            lemma2_to64_rest();
            lemma_pow2_adds(64, 64);
            lemma_shares(a@, b@);
            lemma_pow2_pos((128 + a.exponent) as nat);
            lemma_pow2_pos((128 + b.exponent) as nat);
        }
        if a.mantissa == 0 {
            proof {
                assert(a@ == 0) by (nonlinear_arith)
                    requires
                        a@ == a.mantissa * pow2((128 + a.exponent) as nat),
                        a.mantissa == 0,
                ;
                lemma_round53_exact(0, 0);
            }
            return Number { mantissa: 0, exponent: 0 };
        }
        // A share that is not zero has no exponent above 0.
        proof {
            Number::lemma_share_exponent(a);
        }
        if b.mantissa == 0 {
            proof {
                assert(b@ == 0) by (nonlinear_arith)
                    requires
                        b@ == b.mantissa * pow2((128 + b.exponent) as nat),
                        b.mantissa == 0,
                ;
                lemma_round53_exact(a.mantissa as int, (128 + a.exponent) as nat);
            }
            return a;
        }
        proof {
            Number::lemma_share_exponent(b);
        }
        let least: i16 = if a.exponent <= b.exponent {
            a.exponent
        } else {
            b.exponent
        };
        let up_a: u16 = (a.exponent - least) as u16;
        let up_b: u16 = (b.exponent - least) as u16;
        let scale_a = power(up_a);
        let scale_b = power(up_b);
        proof {
            let base = pow2((128 + least) as nat) as int;
            lemma_pow2_pos((128 + least) as nat);
            lemma_pow2_adds(up_a as nat, (128 + least) as nat);
            lemma_pow2_adds(up_b as nat, (128 + least) as nat);
            lemma_pow2_adds((-least) as nat, (128 + least) as nat);
            lemma_pow2_adds(64, 56);
            if -least < 120 {
                vstd::arithmetic::power2::lemma_pow2_strictly_increases((-least) as nat, 120);
            }
            let room = pow2((-least) as nat) as int;
            assert(a.mantissa * scale_a <= room && b.mantissa * scale_b <= room && a@ == (
            a.mantissa * scale_a) * base && b@ == (b.mantissa * scale_b) * base) by (nonlinear_arith)
                requires
                    a@ == a.mantissa * pow2((128 + a.exponent) as nat),
                    b@ == b.mantissa * pow2((128 + b.exponent) as nat),
                    pow2((128 + a.exponent) as nat) == scale_a * base,
                    pow2((128 + b.exponent) as nat) == scale_b * base,
                    a@ <= unit(),
                    b@ <= unit(),
                    unit() == room * base,
                    base > 0,
            ;
        }
        let part_a: u128 = a.mantissa as u128 * scale_a;
        let part_b: u128 = b.mantissa as u128 * scale_b;
        if part_a >= part_b {
            proof {
                let base = pow2((128 + least) as nat) as int;
                lemma_round53_scales(part_a - part_b, (128 + least) as nat);
                assert(a@ - b@ == (part_a - part_b) * base && a@ >= b@) by (nonlinear_arith)
                    requires
                        a@ == part_a * base,
                        b@ == part_b * base,
                        part_a >= part_b,
                        base > 0,
                ;
            }
            let number = Number::rounded(part_a - part_b, least);
            proof {
                if number.mantissa > 0 {
                    Number::lemma_share_exponent(number);
                }
            }
            number
        } else {
            proof {
                let base = pow2((128 + least) as nat) as int;
                assert(a@ < b@) by (nonlinear_arith)
                    requires
                        a@ == part_a * base,
                        b@ == part_b * base,
                        part_a < part_b,
                        base > 0,
                ;
            }
            Number { mantissa: 0, exponent: 0 }
        }
    }

    /// A share that is not zero is held with an exponent of 0 or less.
    proof fn lemma_share_exponent(a: Number)
        requires
            a.wf(),
            is_share(a@),
            a.mantissa > 0,
        ensures
            a.exponent <= 0,
    {
        lemma2_to64();
        lemma2_to64_rest();
        lemma_pow2_adds(64, 64);
        if a.exponent > 0 {
            vstd::arithmetic::power2::lemma_pow2_strictly_increases(128, (128 + a.exponent) as nat);
            assert(false) by (nonlinear_arith)
                requires
                    a@ == a.mantissa * pow2((128 + a.exponent) as nat),
                    a.mantissa >= 1,
                    pow2((128 + a.exponent) as nat) > unit(),
                    a@ <= unit(),
            ;
        }
    }

    /// The whole part of a number below 2 to the 17.
    pub fn whole(a: Number) -> (count: u32)
        requires
            a.wf(),
            a@ < 0x2_0000 * unit(),
        ensures
            count == whole(a@),
    {
        proof {
            lemma2_to64();
            lemma2_to64_rest();
            lemma_pow2_adds(64, 64);
            lemma_pow2_pos((128 + a.exponent) as nat);
        }
        if a.mantissa == 0 {
            proof {
                assert(a@ == 0) by (nonlinear_arith)
                    requires
                        a@ == a.mantissa * pow2((128 + a.exponent) as nat),
                        a.mantissa == 0,
                ;
            }
            return 0;
        }
        if a.exponent >= 0 {
            proof {
                lemma_pow2_adds(a.exponent as nat, 128);
                lemma_pow2_pos(a.exponent as nat);
                if a.exponent > 17 {
                    vstd::arithmetic::power2::lemma_pow2_strictly_increases(17, a.exponent as nat);
                }
                assert(a.mantissa * pow2(a.exponent as nat) < 0x2_0000 && (a.exponent > 17
                    ==> false)) by (nonlinear_arith)
                    requires
                        a@ == a.mantissa * (pow2(a.exponent as nat) * unit()),
                        a@ < 0x2_0000 * unit(),
                        unit() > 0,
                        a.mantissa >= 1,
                        pow2(a.exponent as nat) > 0,
                        a.exponent > 17 ==> pow2(a.exponent as nat) > 0x2_0000,
                ;
                let count = a.mantissa * pow2(a.exponent as nat);
                assert(a@ == unit() * count) by (nonlinear_arith)
                    requires
                        a@ == a.mantissa * (pow2(a.exponent as nat) * unit()),
                        count == a.mantissa * pow2(a.exponent as nat),
                ;
                lemma_fundamental_div_mod_converse(a@, unit(), count as int, 0);
            }
            let scale = power(a.exponent as u16);
            (a.mantissa as u128 * scale) as u32
        } else {
            let down: u16 = (-a.exponent) as u16;
            if down >= 64 {
                proof {
                    lemma_pow2_adds(down as nat, (128 - down) as nat);
                    lemma_pow2_pos((128 - down) as nat);
                    if down > 64 {
                        vstd::arithmetic::power2::lemma_pow2_strictly_increases(64, down as nat);
                    }
                    assert(0 <= a@ < unit()) by (nonlinear_arith)
                        requires
                            a@ == a.mantissa * pow2((128 - down) as nat),
                            unit() == pow2(down as nat) * pow2((128 - down) as nat),
                            pow2(down as nat) >= pow2(64),
                            a.mantissa < pow2(64),
                            pow2((128 - down) as nat) > 0,
                    ;
                    lemma_fundamental_div_mod_converse(a@, unit(), 0, a@);
                }
                0
            } else {
                let scale = power(down);
                proof {
                    lemma_pow2_adds(down as nat, (128 - down) as nat);
                    lemma_pow2_pos((128 - down) as nat);
                    lemma_pow2_pos(down as nat);
                    let rest = pow2((128 - down) as nat) as int;
                    vstd::arithmetic::div_mod::lemma_div_multiples_vanish_quotient(
                        rest,
                        a.mantissa as int,
                        scale as int,
                    );
                    assert(a@ == rest * a.mantissa && unit() == rest * scale) by (nonlinear_arith)
                        requires
                            a@ == a.mantissa * rest,
                            unit() == scale * rest,
                    ;
                    lemma_fundamental_div_mod(a.mantissa as int, scale as int);
                    assert(a.mantissa / (scale as u64) < 0x2_0000) by (nonlinear_arith)
                        requires
                            a@ < 0x2_0000 * unit(),
                            a@ == rest * a.mantissa,
                            unit() == rest * scale,
                            a.mantissa == scale * (a.mantissa as int / scale as int) + (
                            a.mantissa as int % scale as int),
                            0 <= a.mantissa as int % scale as int,
                            rest > 0,
                            scale > 0,
                            (a.mantissa / (scale as u64)) as int == a.mantissa as int
                                / scale as int,
                    ;
                }
                (a.mantissa as u128 / scale) as u32
            }
        }
    }
}

} // verus!
