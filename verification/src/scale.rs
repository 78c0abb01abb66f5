//! Scaling of a length by a ratio, with the rounding of double precision arithmetic.
//!
//! A double holds 53 significant bits. The ratio is rounded to a double, the product with the
//! length is rounded to a double again, and the product is rounded to the nearest integer, halves
//! away from zero. All of it is done here on integers.
use vstd::arithmetic::power2::*;
use vstd::prelude::*;

verus! {

/// The smallest number with 53 bits.
pub const SIGNIFICAND_MIN: u128 = 0x10_0000_0000_0000;

/// The smallest number with 54 bits.
pub const SIGNIFICAND_END: u128 = 0x20_0000_0000_0000;

/// The integer nearest to `a / d`; of two, the even one.
pub open spec fn nearest_even(a: nat, d: nat) -> nat {
    if 2 * (a % d) < d || (2 * (a % d) == d && (a / d) % 2 == 0) {
        a / d
    } else {
        a / d + 1
    }
}

/// `a / d`, times two to the `e`, has 53 bits before the point.
pub open spec fn is_exponent(a: nat, d: nat, e: nat) -> bool {
    SIGNIFICAND_MIN * d <= a * pow2(e) < SIGNIFICAND_END * d
}

/// The power of two that gives `a / d` 53 bits before the point.
pub open spec fn exponent(a: nat, d: nat) -> nat {
    choose|e: nat| is_exponent(a, d, e)
}

/// The bits of the double nearest to `a / d`: the double is this over two to the `exponent(a, d)`.
pub open spec fn significand(a: nat, d: nat) -> nat {
    nearest_even(a * pow2(exponent(a, d)), d)
}

/// `p` has 53 bits above its lowest `k`.
pub open spec fn is_excess(p: nat, k: nat) -> bool {
    SIGNIFICAND_MIN * pow2(k) <= p < SIGNIFICAND_END * pow2(k)
}

/// How many bits `p` has beyond 53.
pub open spec fn excess(p: nat) -> nat {
    choose|k: nat| is_excess(p, k)
}

/// `p`, rounded to 53 bits.
pub open spec fn to_double(p: nat) -> nat {
    nearest_even(p, pow2(excess(p))) * pow2(excess(p))
}

/// `x` times the double nearest to `n / d`, as a double, rounded to an integer.
pub open spec fn scaled(x: nat, n: nat, d: nat) -> nat {
    if x == 0 || n == 0 {
        0
    } else {
        let unit = pow2(exponent(n, d));
        (to_double(x * significand(n, d)) + unit / 2) / unit
    }
}

proof fn lemma_exponent_unique(a: nat, d: nat, e1: nat, e2: nat)
    requires
        is_exponent(a, d, e1),
        is_exponent(a, d, e2),
    ensures
        e1 == e2,
{
    if e1 < e2 {
        lemma_exponent_grows(a, d, e1, e2);
    } else if e2 < e1 {
        lemma_exponent_grows(a, d, e2, e1);
    }
}

proof fn lemma_exponent_grows(a: nat, d: nat, e1: nat, e2: nat)
    requires
        e1 < e2,
        is_exponent(a, d, e1),
    ensures
        !is_exponent(a, d, e2),
{
    lemma_pow2_double(e1, e2);
    let p1 = pow2(e1);
    let p2 = pow2(e2);
    assert(a * p2 >= 2 * (a * p1)) by (nonlinear_arith)
        requires
            p2 >= 2 * p1,
            a >= 0,
    ;
}

proof fn lemma_pow2_double(e1: nat, e2: nat)
    requires
        e1 < e2,
    ensures
        pow2(e2) >= 2 * pow2(e1),
        pow2(e1) >= 1,
{
    lemma_pow2_pos(e1);
    lemma_pow2_unfold((e1 + 1) as nat);
    if e1 + 1 < e2 {
        lemma_pow2_strictly_increases((e1 + 1) as nat, e2);
    }
}

proof fn lemma_excess_unique(p: nat, k1: nat, k2: nat)
    requires
        is_excess(p, k1),
        is_excess(p, k2),
    ensures
        k1 == k2,
{
    if k1 < k2 {
        lemma_pow2_double(k1, k2);
    } else if k2 < k1 {
        lemma_pow2_double(k2, k1);
    }
}

/// Rounding to the nearest integer moves a quotient by at most one half.
proof fn lemma_nearest_even_error(a: nat, d: nat)
    requires
        d > 0,
    ensures
        2 * a <= 2 * (nearest_even(a, d) * d) + d,
        2 * (nearest_even(a, d) * d) <= 2 * a + d,
{
    let q = a / d;
    let r = a % d;
    assert(a == q * d + r) by {
        vstd::arithmetic::div_mod::lemma_fundamental_div_mod(a as int, d as int);
        assert(d * q == q * d) by (nonlinear_arith);
    }
    assert((q + 1) * d == q * d + d) by (nonlinear_arith);
}

fn round_even(a: u128, d: u128) -> (r: u128)
    requires
        0 < d <= u128::MAX / 4,
        a < u128::MAX / 2,
    ensures
        r == nearest_even(a as nat, d as nat),
{
    let q: u128 = a / d;
    let rest: u128 = a % d;
    assert(q <= a) by (nonlinear_arith)
        requires
            q == a / d,
            d > 0,
    ;
    if 2 * rest < d || (2 * rest == d && q % 2 == 0) {
        q
    } else {
        q + 1
    }
}

/// Finds the power of two that gives `n / d` 53 bits before the point.
fn find_unit(n: u32, d: u32) -> (unit: u128)
    requires
        0 < n < d,
    ensures
        unit == pow2(exponent(n as nat, d as nat)),
        is_exponent(n as nat, d as nat, exponent(n as nat, d as nat)),
        SIGNIFICAND_END <= unit < SIGNIFICAND_END * d,
{
    let mut unit: u128 = 1;
    let ghost mut e: nat = 0;
    proof {
        lemma2_to64();
    }
    let target: u128 = SIGNIFICAND_MIN * d as u128;
    while n as u128 * unit < target
        invariant
            0 < n < d,
            target == SIGNIFICAND_MIN * d,
            unit == pow2(e),
            1 <= unit,
            unit < SIGNIFICAND_END * d,
            n * unit < 2 * target,
        decreases 2 * target - unit,
    {
        proof {
            lemma_pow2_unfold((e + 1) as nat);
            assert(n * unit >= unit) by (nonlinear_arith)
                requires
                    n >= 1,
                    unit >= 1,
            ;
            assert(n * (2 * unit) == 2 * (n * unit)) by (nonlinear_arith);
            e = e + 1;
        }
        unit = unit * 2;
    }
    proof {
        assert(is_exponent(n as nat, d as nat, e));
        lemma_exponent_unique(n as nat, d as nat, e, exponent(n as nat, d as nat));
        lemma_pow2_pos(e);
        // The ratio is below one, so the power of two has more than 53 bits.
        assert(unit > SIGNIFICAND_MIN) by (nonlinear_arith)
            requires
                n * unit >= SIGNIFICAND_MIN * d,
                0 < n < d,
                unit >= 1,
        ;
        lemma2_to64_rest();
        if e <= 52 {
            if e < 52 {
                lemma_pow2_strictly_increases(e, 52);
            }
        } else if e > 53 {
            lemma_pow2_strictly_increases(53, e);
        }
    }
    unit
}

/// Finds the power of two above which `p` has 53 bits.
fn find_step(p: u128) -> (step: u128)
    requires
        SIGNIFICAND_MIN <= p < 0x40_0000_0000_0000_0000_0000,
    ensures
        step == pow2(excess(p as nat)),
        is_excess(p as nat, excess(p as nat)),
        step >= 1,
{
    let mut step: u128 = 1;
    let ghost mut k: nat = 0;
    proof {
        lemma2_to64();
    }
    while p >= SIGNIFICAND_END * step
        invariant
            p < 0x40_0000_0000_0000_0000_0000,
            step == pow2(k),
            1 <= step,
            SIGNIFICAND_MIN * step <= p,
        decreases p - step,
    {
        proof {
            lemma_pow2_unfold((k + 1) as nat);
            k = k + 1;
        }
        step = step * 2;
    }
    proof {
        assert(is_excess(p as nat, k));
        lemma_excess_unique(p as nat, k, excess(p as nat));
    }
    step
}

proof fn lemma_exponent_from(a: nat, d: nat, e: nat)
    requires
        0 < a,
        a * pow2(e) < SIGNIFICAND_END * d,
    ensures
        is_exponent(a, d, exponent(a, d)),
    decreases SIGNIFICAND_END * d - a * pow2(e),
{
    let p = pow2(e);
    if a * p >= SIGNIFICAND_MIN * d {
        assert(is_exponent(a, d, e));
    } else {
        lemma_pow2_pos(e);
        lemma_pow2_unfold((e + 1) as nat);
        assert(a * (2 * p) == 2 * (a * p)) by (nonlinear_arith);
        assert(a * p >= 1) by (nonlinear_arith)
            requires
                a >= 1,
                p >= 1,
        ;
        lemma_exponent_from(a, d, e + 1);
    }
}

proof fn lemma_excess_from(p: nat, k: nat)
    requires
        SIGNIFICAND_MIN * pow2(k) <= p,
    ensures
        is_excess(p, excess(p)),
    decreases p - pow2(k),
{
    if p < SIGNIFICAND_END * pow2(k) {
        assert(is_excess(p, k));
    } else {
        lemma_pow2_pos(k);
        lemma_pow2_unfold((k + 1) as nat);
        lemma_excess_from(p, k + 1);
    }
}

/// The steps of a scaling, each with its error.
proof fn lemma_scaling_steps(x: nat, n: nat, d: nat)
    requires
        0 < n < d <= u32::MAX,
        0 < x <= d,
    ensures
        ({
            let unit = pow2(exponent(n, d));
            let m = significand(n, d);
            let p = to_double(x * m);
            let r = scaled(x, n, d);
            &&& is_exponent(n, d, exponent(n, d))
            &&& is_excess(x * m, excess(x * m))
            &&& SIGNIFICAND_END <= unit
            &&& SIGNIFICAND_MIN <= m <= SIGNIFICAND_END
            &&& SIGNIFICAND_MIN <= x * m <= x * SIGNIFICAND_END
            &&& 2 * (m * d) <= 2 * (n * unit) + d
            &&& 2 * (n * unit) <= 2 * (m * d) + d
            &&& 2 * p <= 2 * (x * m) + 2 * x
            &&& 2 * (x * m) <= 2 * p + 2 * x
            &&& 2 * (r * unit) <= 2 * p + unit
            &&& 2 * p <= 2 * (r * unit) + unit
        }),
{
    lemma2_to64();
    lemma2_to64_rest();
    assert(n * pow2(0) == n);
    lemma_exponent_from(n, d, 0);
    let e = exponent(n, d);
    let unit = pow2(e);
    let m = significand(n, d);
    assert(unit > SIGNIFICAND_MIN) by (nonlinear_arith)
        requires
            n * unit >= SIGNIFICAND_MIN * d,
            0 < n < d,
    ;
    if e < 53 {
        if e < 52 {
            lemma_pow2_strictly_increases(e, 52);
        }
        assert(false);
    } else if e > 53 {
        lemma_pow2_strictly_increases(53, e);
    }
    lemma_nearest_even_error(n * unit, d);
    assert(m >= SIGNIFICAND_MIN) by (nonlinear_arith)
        requires
            2 * (n * unit) <= 2 * (m * d) + d,
            n * unit >= SIGNIFICAND_MIN * d,
            d > 0,
    ;
    assert(m <= SIGNIFICAND_END) by (nonlinear_arith)
        requires
            2 * (m * d) <= 2 * (n * unit) + d,
            n * unit < SIGNIFICAND_END * d,
            d > 0,
    ;
    let product = x * m;
    assert(SIGNIFICAND_MIN <= product <= x * SIGNIFICAND_END) by (nonlinear_arith)
        requires
            SIGNIFICAND_MIN <= m <= SIGNIFICAND_END,
            product == x * m,
            x >= 1,
    ;
    lemma_excess_from(product, 0);
    let step = pow2(excess(product));
    lemma_pow2_pos(excess(product));
    assert(step <= 2 * x) by (nonlinear_arith)
        requires
            SIGNIFICAND_MIN * step <= product,
            product <= x * SIGNIFICAND_END,
            SIGNIFICAND_END == 2 * SIGNIFICAND_MIN,
            SIGNIFICAND_MIN > 0,
    ;
    lemma_nearest_even_error(product, step);
    let p = to_double(product);
    let r = scaled(x, n, d);
    let top = (p + unit / 2) as nat;
    vstd::arithmetic::div_mod::lemma_fundamental_div_mod(top as int, unit as int);
    assert(unit * r == r * unit) by (nonlinear_arith);
    lemma_pow2_unfold(e);
}

/// The error of a scaling as a whole.
proof fn lemma_scaling_error(x: nat, n: nat, d: nat)
    requires
        0 < n < d <= u32::MAX,
        0 < x <= d,
    ensures
        ({
            let unit = pow2(exponent(n, d));
            let r = scaled(x, n, d);
            &&& SIGNIFICAND_END <= unit
            &&& 2 * (r * d * unit) <= 2 * (x * n * unit) + d * unit + 3 * (x * d)
            &&& 2 * (x * n * unit) <= 2 * (r * d * unit) + d * unit + 3 * (x * d)
        }),
{
    lemma_scaling_steps(x, n, d);
    let unit = pow2(exponent(n, d)) as int;
    let m = significand(n, d) as int;
    let p = to_double(x * significand(n, d)) as int;
    let r = scaled(x, n, d) as int;
    let x = x as int;
    let n = n as int;
    let d = d as int;
    assert(r * d * unit == d * (r * unit)) by (nonlinear_arith);
    assert(x * n * unit == x * (n * unit)) by (nonlinear_arith);
    assert(d * (x * m) == x * (m * d)) by (nonlinear_arith);
    assert(d * (2 * (r * unit)) <= d * (2 * p + unit) && d * (2 * p) <= d * (2 * (r * unit) + unit))
        by (nonlinear_arith)
        requires
            d > 0,
            2 * (r * unit) <= 2 * p + unit,
            2 * p <= 2 * (r * unit) + unit,
    ;
    assert(d * (2 * p) <= d * (2 * (x * m) + 2 * x) && d * (2 * (x * m)) <= d * (2 * p + 2 * x))
        by (nonlinear_arith)
        requires
            d > 0,
            2 * p <= 2 * (x * m) + 2 * x,
            2 * (x * m) <= 2 * p + 2 * x,
    ;
    assert(x * (2 * (m * d)) <= x * (2 * (n * unit) + d) && x * (2 * (n * unit)) <= x * (2 * (m * d)
        + d)) by (nonlinear_arith)
        requires
            x > 0,
            2 * (m * d) <= 2 * (n * unit) + d,
            2 * (n * unit) <= 2 * (m * d) + d,
    ;
    assert(d * (2 * (r * unit)) == 2 * (d * (r * unit))) by (nonlinear_arith);
    assert(d * (2 * p + unit) == d * (2 * p) + d * unit) by (nonlinear_arith);
    assert(d * (2 * (r * unit) + unit) == 2 * (d * (r * unit)) + d * unit) by (nonlinear_arith);
    assert(d * (2 * (x * m) + 2 * x) == 2 * (d * (x * m)) + 2 * (x * d)) by (nonlinear_arith);
    assert(d * (2 * (x * m)) == 2 * (d * (x * m))) by (nonlinear_arith);
    assert(d * (2 * p + 2 * x) == d * (2 * p) + 2 * (x * d)) by (nonlinear_arith);
    assert(x * (2 * (m * d)) == 2 * (x * (m * d))) by (nonlinear_arith);
    assert(x * (2 * (n * unit) + d) == 2 * (x * (n * unit)) + x * d) by (nonlinear_arith);
    assert(x * (2 * (n * unit)) == 2 * (x * (n * unit))) by (nonlinear_arith);
    assert(x * (2 * (m * d) + d) == 2 * (x * (m * d)) + x * d) by (nonlinear_arith);
}

/// A length that equals the whole becomes exactly the part, whatever was rounded on the way.
pub proof fn whole_scales_to_the_part(n: nat, d: nat)
    requires
        n < d <= u32::MAX,
    ensures
        scaled(d, n, d) == n,
{
    if n > 0 {
        lemma_scaling_error(d, n, d);
        let unit = pow2(exponent(n, d)) as int;
        let r = scaled(d, n, d) as int;
        let n = n as int;
        let d = d as int;
        if r > n {
            assert(2 * (r * d * unit) > 2 * (d * n * unit) + d * unit + 3 * (d * d))
                by (nonlinear_arith)
                requires
                    r >= n + 1,
                    d > 0,
                    unit > 3 * d,
            ;
        } else if r < n {
            assert(2 * (d * n * unit) > 2 * (r * d * unit) + d * unit + 3 * (d * d))
                by (nonlinear_arith)
                requires
                    n >= r + 1,
                    d > 0,
                    unit > 3 * d,
            ;
        }
    }
}

/// Scaling down makes no length longer, and none longer than the part.
pub proof fn scaling_down_never_lengthens(x: nat, n: nat, d: nat)
    requires
        n < d <= u32::MAX,
        x <= d,
    ensures
        scaled(x, n, d) <= x,
        scaled(x, n, d) <= n,
{
    if n > 0 && x > 0 {
        lemma_scaling_error(x, n, d);
        let unit = pow2(exponent(n, d)) as int;
        let r = scaled(x, n, d) as int;
        let x = x as int;
        let n = n as int;
        let d = d as int;
        if r > x {
            assert(2 * (r * d * unit) > 2 * (x * n * unit) + d * unit + 3 * (x * d))
                by (nonlinear_arith)
                requires
                    r >= x + 1,
                    0 < n < d,
                    0 < x,
                    unit > 3 * x,
            {
                assert(r * d * unit >= (x + 1) * d * unit);
                assert((x + 1) * d * unit == x * d * unit + d * unit);
                assert(x * d * unit >= x * n * unit);
                assert(d * unit > d * (3 * x));
            }
        }
        if r > n {
            assert(2 * (r * d * unit) > 2 * (x * n * unit) + d * unit + 3 * (x * d))
                by (nonlinear_arith)
                requires
                    r >= n + 1,
                    0 < n < d,
                    0 < x <= d,
                    unit > 3 * x,
            {
                assert(r * d * unit >= (n + 1) * d * unit);
                assert((n + 1) * d * unit == n * d * unit + d * unit);
                assert(n * d * unit >= x * n * unit);
                assert(d * unit > d * (3 * x));
            }
        }
    }
}

/// For lengths up to 25 bits the result is an integer nearest to the exact `x * n / d`.
pub proof fn scaling_is_nearest(x: nat, n: nat, d: nat)
    requires
        n < d < 0x200_0000,
        x <= d,
    ensures
        2 * (scaled(x, n, d) * d) <= 2 * (x * n) + d,
        2 * (x * n) <= 2 * (scaled(x, n, d) * d) + d,
{
    if n > 0 && x > 0 {
        lemma_scaling_error(x, n, d);
        let unit = pow2(exponent(n, d)) as int;
        let r = scaled(x, n, d) as int;
        let x = x as int;
        let n = n as int;
        let d = d as int;
        assert(3 * (x * d) < unit) by (nonlinear_arith)
            requires
                0 < x <= d < 0x200_0000,
                unit >= SIGNIFICAND_END,
        ;
        if 2 * (r * d) > 2 * (x * n) + d {
            assert(2 * (r * d * unit) >= 2 * (x * n * unit) + d * unit + unit) by (nonlinear_arith)
                requires
                    2 * (r * d) >= 2 * (x * n) + d + 1,
                    unit > 0,
            ;
        }
        if 2 * (x * n) > 2 * (r * d) + d {
            assert(2 * (x * n * unit) >= 2 * (r * d * unit) + d * unit + unit) by (nonlinear_arith)
                requires
                    2 * (x * n) >= 2 * (r * d) + d + 1,
                    unit > 0,
            ;
        }
    } else {
        assert(x * n == 0) by (nonlinear_arith)
            requires
                x == 0 || n == 0,
        ;
    }
}

/// Scales `x` by `n / d`.
pub fn scale(x: u32, n: u32, d: u32) -> (r: u32)
    requires
        n < d,
        x <= d,
    ensures
        r == scaled(x as nat, n as nat, d as nat),
{
    if x == 0 || n == 0 {
        return 0;
    }
    proof {
        lemma_scaling_steps(x as nat, n as nat, d as nat);
        scaling_down_never_lengthens(x as nat, n as nat, d as nat);
    }
    let unit: u128 = find_unit(n, d);
    assert(n * unit < SIGNIFICAND_END * d);
    let m: u128 = round_even(n as u128 * unit, d as u128);
    let p: u128 = x as u128 * m;
    let step: u128 = find_step(p);
    assert(step <= p);
    let bits: u128 = round_even(p, step);
    proof {
        assert(bits * step == to_double(p as nat));
    }
    let rounded: u128 = (bits * step + unit / 2) / unit;
    rounded as u32
}

/// Rounding gives the nearest integer, and of two that are equally near the even one.
pub proof fn rounding_is_to_the_nearest_even(a: nat, d: nat)
    requires
        d > 0,
    ensures
        ({
            let r = nearest_even(a, d);
            &&& 2 * (r * d) <= 2 * a + d
            &&& 2 * a <= 2 * (r * d) + d
            &&& 2 * (r * d) == 2 * a + d || 2 * a == 2 * (r * d) + d ==> r % 2 == 0
        }),
{
    lemma_nearest_even_error(a, d);
    let q = a / d;
    vstd::arithmetic::div_mod::lemma_fundamental_div_mod(a as int, d as int);
    assert(d * q == q * d) by (nonlinear_arith);
    assert((q + 1) * d == q * d + d) by (nonlinear_arith);
}

/// A ratio below one is held in 53 bits: scaled by a power of two it lies between the smallest
/// number of 53 bits and the smallest of 54, and its significand is the nearest integer.
pub proof fn ratios_have_53_bits(n: nat, d: nat)
    requires
        0 < n < d <= u32::MAX,
    ensures
        ({
            let scaled_up = n * pow2(exponent(n, d));
            let m = significand(n, d);
            &&& 0x10_0000_0000_0000 * d <= scaled_up < 0x20_0000_0000_0000 * d
            &&& 2 * (m * d) <= 2 * scaled_up + d
            &&& 2 * scaled_up <= 2 * (m * d) + d
            &&& 2 * (m * d) == 2 * scaled_up + d || 2 * scaled_up == 2 * (m * d) + d ==> m % 2 == 0
        }),
{
    lemma_scaling_steps(1, n, d);
    rounding_is_to_the_nearest_even(n * pow2(exponent(n, d)), d);
}

/// A product of 53 bits or more is rounded to 53 bits: to the nearest multiple of the power of two
/// that leaves so many, and of two that are equally near to the even one.
pub proof fn products_have_53_bits(p: nat)
    requires
        p >= 0x10_0000_0000_0000,
    ensures
        ({
            let step = pow2(excess(p));
            let m = nearest_even(p, step);
            &&& 0x10_0000_0000_0000 * step <= p < 0x20_0000_0000_0000 * step
            &&& to_double(p) == m * step
            &&& 2 * to_double(p) <= 2 * p + step
            &&& 2 * p <= 2 * to_double(p) + step
            &&& 2 * to_double(p) == 2 * p + step || 2 * p == 2 * to_double(p) + step ==> m % 2 == 0
        }),
{
    lemma2_to64();
    lemma_excess_from(p, 0);
    lemma_pow2_pos(excess(p));
    rounding_is_to_the_nearest_even(p, pow2(excess(p)));
}

/// A length is scaled by the double of the ratio, the product is a double, and it is rounded to
/// the nearest integer, halves up.
pub proof fn halves_are_rounded_up(x: nat, n: nat, d: nat)
    requires
        0 < n < d <= u32::MAX,
        0 < x <= d,
    ensures
        ({
            let unit = pow2(exponent(n, d));
            let p = to_double(x * significand(n, d));
            let r = scaled(x, n, d);
            &&& 2 * (r * unit) <= 2 * p + unit
            &&& 2 * p + unit < 2 * ((r + 1) * unit)
        }),
{
    lemma_scaling_steps(x, n, d);
    let e = exponent(n, d);
    let unit = pow2(e);
    lemma2_to64();
    assert(e > 0);
    lemma_pow2_pos(e);
    lemma_pow2_unfold(e);
    let p = to_double(x * significand(n, d));
    let r = scaled(x, n, d);
    let top = (p + unit / 2) as nat;
    vstd::arithmetic::div_mod::lemma_fundamental_div_mod(top as int, unit as int);
    assert(unit * r == r * unit) by (nonlinear_arith);
    assert((r + 1) * unit == r * unit + unit) by (nonlinear_arith);
}

/// Nothing of a length, and no part of it, scales to nothing.
pub proof fn nothing_scales_to_nothing(x: nat, n: nat, d: nat)
    ensures
        scaled(0, n, d) == 0,
        scaled(x, 0, d) == 0,
{
}

} // verus!
