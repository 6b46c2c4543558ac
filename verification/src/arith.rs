//! Verified modular arithmetic: modular multiplication, exponentiation by
//! squaring, and the extended-Euclidean modular inverse.

use vstd::prelude::*;

verus! {

use vstd::arithmetic::div_mod::lemma_fundamental_div_mod;
use vstd::arithmetic::div_mod::lemma_mod_bound;
use vstd::arithmetic::div_mod::lemma_mod_multiples_vanish;
use vstd::arithmetic::div_mod::lemma_mod_twice;
use vstd::arithmetic::div_mod::lemma_mul_mod_noop_general;
use vstd::arithmetic::div_mod::lemma_small_mod;
use vstd::arithmetic::div_mod::lemma_sub_mod_noop;
use vstd::arithmetic::mul::lemma_mul_is_associative;
use vstd::arithmetic::mul::lemma_mul_is_commutative;
use vstd::arithmetic::mul::lemma_mul_is_distributive_add;
use vstd::arithmetic::mul::lemma_mul_is_distributive_sub;
use vstd::arithmetic::power::lemma_pow0;
use vstd::arithmetic::power::lemma_pow1;
use vstd::arithmetic::power::lemma_pow_adds;
use vstd::arithmetic::power::lemma_pow_mod_noop;
use vstd::arithmetic::power::lemma_pow_multiplies;
use vstd::arithmetic::power::lemma_pow_distributes;
use vstd::arithmetic::power::pow;

use crate::errors::FBSError;

/// `d` divides `x` over the integers.
pub open spec fn divides(d: int, x: int) -> bool {
    exists|k: int| x == #[trigger] (d * k)
}

/// `a` has a multiplicative inverse modulo `n`.  For `n >= 2` this holds
/// exactly when `gcd(a, n) == 1`.
pub open spec fn is_invertible(a: int, n: int) -> bool {
    exists|y: int| 0 <= y < n && #[trigger] ((a * y) % n) == 1
}

/// Product of `a` and `b` reduced modulo `n`, computed without overflow.
pub fn mul_mod(a: u64, b: u64, n: u64) -> (r: u64)
    requires
        n >= 1,
    ensures
        r == (a * b) % (n as int),
        r < n,
{
    proof {
        lemma_mod_bound((a as int) * (b as int), n as int);
        lemma_u64_product_fits(a as int, b as int);
    }
    (((a as u128) * (b as u128)) % (n as u128)) as u64
}

/// Modular exponentiation by repeated squaring: `base^exp mod n`.
pub fn modpow(base: u64, exp: u64, n: u64) -> (r: u64)
    requires
        n >= 1,
    ensures
        r == pow(base as int, exp as nat) % (n as int),
        r < n,
{
    let ni = Ghost(n as int);
    let mut result: u64 = 1 % n;
    let mut b: u64 = base % n;
    let mut e: u64 = exp;
    proof {
        lemma_mod_bound(1int, ni@);
        lemma_mod_bound(base as int, ni@);
        lemma_pow_mod_noop(base as int, exp as nat, ni@);
        lemma_mul_mod_noop_general(1int, pow(b as int, e as nat), ni@);
    }
    while e > 0
        invariant
            n >= 1,
            ni@ == n as int,
            result < n,
            b < n,
            (result * pow(b as int, e as nat)) % ni@ == pow(base as int, exp as nat) % ni@,
        decreases e,
    {
        let ghost r0 = result as int;
        let ghost b0 = b as int;
        let ghost e0 = e as nat;
        if e % 2 == 1 {
            result = mul_mod(result, b, n);
        }
        b = mul_mod(b, b, n);
        e = e / 2;
        proof {
            let h = e0 / 2;
            lemma_square_to_pow(b0);
            lemma_pow_multiplies(b0, 2, h);
            lemma_pow_mod_noop(b0 * b0, h, ni@);
            // pow(b', h) % n == pow(b0, 2*h) % n for the updated base b'.
            assert(pow(b as int, e as nat) % ni@ == pow(b0, 2 * h) % ni@) by {
                assert(b as int == (b0 * b0) % ni@);
                lemma_pow_mod_noop((b0 * b0) % ni@, h, ni@);
                lemma_mod_twice(pow(b0 * b0, h), ni@);
            }
            if e0 % 2 == 1 {
                assert(e0 == 2 * h + 1);
                lemma_pow_adds(b0, (2 * h) as nat, 1nat);
                lemma_pow1(b0);
                assert(pow(b0, e0) == pow(b0, 2 * h) * b0);
                // result' == (r0 * b0) % n
                assert((result * pow(b as int, e as nat)) % ni@ == (r0 * pow(b0, e0)) % ni@) by {
                    lemma_mul_mod_noop_general(r0 * b0, pow(b as int, e as nat), ni@);
                    lemma_mul_mod_noop_general(r0 * b0, pow(b0, 2 * h), ni@);
                    lemma_mul_is_associative(r0, b0, pow(b0, 2 * h));
                    lemma_mul_is_commutative(b0, pow(b0, 2 * h));
                    lemma_mul_is_associative(r0, pow(b0, 2 * h), b0);
                }
            } else {
                assert(e0 == 2 * h);
                assert((result * pow(b as int, e as nat)) % ni@ == (r0 * pow(b0, e0)) % ni@) by {
                    lemma_mul_mod_noop_general(r0, pow(b as int, e as nat), ni@);
                    lemma_mul_mod_noop_general(r0, pow(b0, 2 * h), ni@);
                }
            }
        }
    }
    proof {
        lemma_pow0(b as int);
        lemma_small_mod(result as nat, n as nat);
    }
    result
}

/// The product of two values below `2^64` fits in 128 bits.
proof fn lemma_u64_product_fits(a: int, b: int)
    requires
        0 <= a <= 0xffff_ffff_ffff_ffff,
        0 <= b <= 0xffff_ffff_ffff_ffff,
    ensures
        a * b <= 0xffff_ffff_ffff_ffff * 0xffff_ffff_ffff_ffff,
        0 <= a * b,
{
    assert(a * b <= 0xffff_ffff_ffff_ffff * 0xffff_ffff_ffff_ffff && 0 <= a * b)
        by (nonlinear_arith)
        requires
            0 <= a <= 0xffff_ffff_ffff_ffff,
            0 <= b <= 0xffff_ffff_ffff_ffff,
    ;
}

/// `pow(b, 2) == b * b`.
proof fn lemma_square_to_pow(b: int)
    ensures
        pow(b, 2) == b * b,
{
    lemma_pow_adds(b, 1nat, 1nat);
    lemma_pow1(b);
}

/// Divisibility is preserved by linear combinations: if `d` divides `x` and
/// `y`, it divides `c * x + y`.
proof fn lemma_divides_linear(d: int, x: int, y: int, c: int)
    requires
        divides(d, x),
        divides(d, y),
    ensures
        divides(d, c * x + y),
{
    let kx = choose|k: int| x == #[trigger] (d * k);
    let ky = choose|k: int| y == #[trigger] (d * k);
    assert(c * x + y == d * (c * kx + ky)) by (nonlinear_arith)
        requires
            x == d * kx,
            y == d * ky,
    ;
}

/// If `d` divides both `x` and `y`, it divides `x - c * y`.
proof fn lemma_divides_difference(d: int, x: int, y: int, c: int)
    requires
        divides(d, x),
        divides(d, y),
    ensures
        divides(d, x - c * y),
{
    let kx = choose|k: int| x == #[trigger] (d * k);
    let ky = choose|k: int| y == #[trigger] (d * k);
    assert(x - c * y == d * (kx - c * ky)) by (nonlinear_arith)
        requires
            x == d * kx,
            y == d * ky,
    ;
}

/// Congruence is preserved by subtraction: equal residues on both operands
/// give equal residues on the difference.
proof fn lemma_mod_sub_congruent(x: int, y: int, x2: int, y2: int, n: int)
    requires
        n >= 1,
        x % n == x2 % n,
        y % n == y2 % n,
    ensures
        (x - y) % n == (x2 - y2) % n,
{
    lemma_sub_mod_noop(x, y, n);
    lemma_sub_mod_noop(x2, y2, n);
}

/// Product of a sequence of integers, reduced modulo `n` after every factor.
pub open spec fn prod_mod(s: Seq<int>, n: int) -> int
    decreases s.len(),
{
    if s.len() == 0 {
        1int % n
    } else {
        (prod_mod(s.drop_last(), n) * s.last()) % n
    }
}

/// The running product stays inside the residue range.
pub proof fn lemma_prod_mod_bound(s: Seq<int>, n: int)
    requires
        n >= 1,
    ensures
        0 <= prod_mod(s, n) < n,
    decreases s.len(),
{
    if s.len() == 0 {
        lemma_mod_bound(1int, n);
    } else {
        lemma_prod_mod_bound(s.drop_last(), n);
        lemma_mod_bound(prod_mod(s.drop_last(), n) * s.last(), n);
    }
}

/// Two products of invertible factors: the product of two units is a unit.
pub proof fn lemma_invertible_mul(a: int, b: int, n: int)
    requires
        n >= 2,
        is_invertible(a, n),
        is_invertible(b, n),
    ensures
        is_invertible((a * b) % n, n),
{
    let ya = choose|y: int| 0 <= y < n && #[trigger] ((a * y) % n) == 1;
    let yb = choose|y: int| 0 <= y < n && #[trigger] ((b * y) % n) == 1;
    let y = (ya * yb) % n;
    lemma_mod_bound(ya * yb, n);
    assert((((a * b) % n) * y) % n == 1) by {
        lemma_mul_mod_noop_general(a * b, ya * yb, n);
        assert((((a * b) % n) * ((ya * yb) % n)) % n == ((a * b) * (ya * yb)) % n);
        assert((a * b) * (ya * yb) == (a * ya) * (b * yb)) by (nonlinear_arith);
        lemma_mul_mod_noop_general(a * ya, b * yb, n);
        assert(((a * ya) * (b * yb)) % n == (((a * ya) % n) * ((b * yb) % n)) % n);
        lemma_small_mod(1nat, n as nat);
    }
}

/// A product of invertible factors is invertible.
pub proof fn lemma_prod_mod_invertible(s: Seq<int>, n: int)
    requires
        n >= 2,
        forall|i: int| 0 <= i < s.len() ==> is_invertible(#[trigger] s[i], n),
    ensures
        is_invertible(prod_mod(s, n), n),
    decreases s.len(),
{
    if s.len() == 0 {
        lemma_small_mod(1nat, n as nat);
        assert((1int * 1int) % n == 1);
        assert(is_invertible(1int % n, n)) by {
            assert(0 <= 1int < n && ((1int % n) * 1int) % n == 1);
        }
    } else {
        lemma_prod_mod_invertible(s.drop_last(), n);
        assert(s[s.len() - 1] == s.last());
        lemma_invertible_mul(prod_mod(s.drop_last(), n), s.last(), n);
    }
}

/// Products of pointwise congruent factors are equal.
pub proof fn lemma_prod_mod_congruent(x: Seq<int>, y: Seq<int>, n: int)
    requires
        n >= 1,
        x.len() == y.len(),
        forall|i: int| 0 <= i < x.len() ==> #[trigger] (x[i] % n) == y[i] % n,
    ensures
        prod_mod(x, n) == prod_mod(y, n),
    decreases x.len(),
{
    if x.len() > 0 {
        let l = x.len() - 1;
        lemma_prod_mod_congruent(x.drop_last(), y.drop_last(), n);
        let p = prod_mod(x.drop_last(), n);
        assert(x[l] % n == y[l] % n);
        lemma_mul_mod_noop_general(p, x[l], n);
        lemma_mul_mod_noop_general(p, y[l], n);
    }
}

/// Cancellation by a unit: from `a * c == b * c (mod n)` and invertible
/// `c`, conclude `a == b (mod n)`.
pub proof fn lemma_mod_mul_cancel(a: int, b: int, c: int, n: int)
    requires
        n >= 1,
        is_invertible(c, n),
        (a * c) % n == (b * c) % n,
    ensures
        a % n == b % n,
{
    let y = choose|y: int| 0 <= y < n && #[trigger] ((c * y) % n) == 1;
    assert((a * c * y) % n == (b * c * y) % n) by {
        lemma_mul_mod_noop_general(a * c, y, n);
        lemma_mul_mod_noop_general(b * c, y, n);
    }
    assert(a % n == (a * c * y) % n) by {
        lemma_mul_is_associative(a, c, y);
        lemma_mul_mod_noop_general(a, c * y, n);
        assert((a * (c * y)) % n == (a * ((c * y) % n)) % n);
    }
    assert(b % n == (b * c * y) % n) by {
        lemma_mul_is_associative(b, c, y);
        lemma_mul_mod_noop_general(b, c * y, n);
        assert((b * (c * y)) % n == (b * ((c * y) % n)) % n);
    }
}

/// A power of a unit is a unit.
pub proof fn lemma_pow_invertible(c: int, e: nat, n: int)
    requires
        n >= 2,
        is_invertible(c, n),
    ensures
        is_invertible(pow(c, e), n),
{
    let y = choose|y: int| 0 <= y < n && #[trigger] ((c * y) % n) == 1;
    let w = pow(y, e) % n;
    lemma_mod_bound(pow(y, e), n);
    assert((pow(c, e) * w) % n == 1) by {
        lemma_mul_mod_noop_general(pow(c, e), pow(y, e), n);
        assert((pow(c, e) * w) % n == (pow(c, e) * pow(y, e)) % n);
        lemma_pow_distributes(c, y, e);
        assert(pow(c, e) * pow(y, e) == pow(c * y, e));
        lemma_pow_mod_noop(c * y, e, n);
        assert(pow(c * y, e) % n == pow((c * y) % n, e) % n);
        lemma_pow_base_one(e);
        lemma_small_mod(1nat, n as nat);
    }
}

/// `pow(1, e) == 1`.
pub proof fn lemma_pow_base_one(e: nat)
    ensures
        pow(1, e) == 1,
    decreases e,
{
    if e == 0 {
        lemma_pow0(1);
    } else {
        lemma_pow_base_one((e - 1) as nat);
        lemma_pow_adds(1, 1nat, (e - 1) as nat);
        lemma_pow1(1);
    }
}

/// Pointwise products multiply out: if every `s[i]` is `x[i] * y[i] mod n`,
/// the product of `s` is the product of the two products.
pub proof fn lemma_prod_mod_mul(s: Seq<int>, x: Seq<int>, y: Seq<int>, n: int)
    requires
        n >= 1,
        s.len() == x.len(),
        s.len() == y.len(),
        forall|i: int| 0 <= i < s.len() ==> #[trigger] s[i] == (x[i] * y[i]) % n,
    ensures
        prod_mod(s, n) == (prod_mod(x, n) * prod_mod(y, n)) % n,
    decreases s.len(),
{
    if s.len() == 0 {
        lemma_mul_mod_noop_general(1int, 1int, n);
        lemma_mod_twice(1int, n);
    } else {
        let l = s.len() - 1;
        lemma_prod_mod_mul(s.drop_last(), x.drop_last(), y.drop_last(), n);
        let px = prod_mod(x.drop_last(), n);
        let py = prod_mod(y.drop_last(), n);
        let xl = x[l];
        let yl = y[l];
        assert(s[l] == (xl * yl) % n);
        // prod(s) == ((px*py)%n * ((xl*yl)%n)) % n == (px*py*xl*yl) % n
        lemma_mul_mod_noop_general(px * py, (xl * yl) % n, n);
        lemma_mul_mod_noop_general(px * py, xl * yl, n);
        assert(prod_mod(s, n) == ((px * py) * (xl * yl)) % n);
        // prod(x)*prod(y) % n == ((px*xl)%n * ((py*yl)%n)) % n == (px*xl*py*yl) % n
        lemma_mul_mod_noop_general((px * xl) % n, py * yl, n);
        lemma_mul_mod_noop_general(px * xl, py * yl, n);
        assert((prod_mod(x, n) * prod_mod(y, n)) % n == ((px * xl) * (py * yl)) % n) by {
            lemma_mod_twice((px * xl) * (py * yl), n);
        }
        assert((px * py) * (xl * yl) == (px * xl) * (py * yl)) by (nonlinear_arith);
    }
}

/// Powers distribute over a modular product: if every `t[i]` is
/// `x[i]^e mod n`, the product of `t` is the `e`-th power of the product of
/// `x`, mod `n`.
pub proof fn lemma_prod_mod_pow(t: Seq<int>, x: Seq<int>, e: nat, n: int)
    requires
        n >= 1,
        t.len() == x.len(),
        forall|i: int| 0 <= i < t.len() ==> #[trigger] t[i] == pow(x[i], e) % n,
    ensures
        prod_mod(t, n) == pow(prod_mod(x, n), e) % n,
    decreases t.len(),
{
    if t.len() == 0 {
        lemma_pow_mod_noop(1, e, n);
        lemma_pow_base_one(e);
    } else {
        let l = t.len() - 1;
        lemma_prod_mod_pow(t.drop_last(), x.drop_last(), e, n);
        let px = prod_mod(x.drop_last(), n);
        let xl = x[l];
        assert(t[l] == pow(xl, e) % n);
        // prod(t) == ((pow(px,e)%n) * (pow(xl,e)%n)) % n == (pow(px,e)*pow(xl,e)) % n
        lemma_mul_mod_noop_general(pow(px, e), pow(xl, e), n);
        assert(prod_mod(t, n) == (pow(px, e) * pow(xl, e)) % n) by {
            lemma_mod_twice(pow(px, e) * pow(xl, e), n);
        }
        lemma_pow_distributes(px, xl, e);
        assert(pow(px * xl, e) == pow(px, e) * pow(xl, e));
        lemma_pow_mod_noop(px * xl, e, n);
        assert(prod_mod(x, n) == (px * xl) % n);
    }
}

/// Modular inverse by the extended Euclidean algorithm.
///
/// Returns the unique `x < n` with `a * x == 1 (mod n)` when one exists, and
/// `NotInvertible` exactly when `a` and `n` share a nontrivial factor.
pub fn modinv(a: u64, n: u64) -> (r: Result<u64, FBSError>)
    requires
        n >= 2,
    ensures
        match r {
            Ok(x) => x < n && (a as int * x as int) % (n as int) == 1 && is_invertible(
                a as int,
                n as int,
            ),
            Err(e) => e == FBSError::NotInvertible && !is_invertible(a as int, n as int),
        },
{
    let ni = Ghost(n as int);
    let ai = Ghost(a as int);
    let mut r0: u64 = n;
    let mut r1: u64 = a % n;
    let mut s0: u64 = 0;
    let mut s1: u64 = 1 % n;
    proof {
        lemma_mod_bound(ai@, ni@);
        lemma_mod_twice(ai@, ni@);
        lemma_small_mod(1nat, n as nat);
        assert(ai@ * 0 == 0);
        lemma_small_mod(0nat, n as nat);
        assert((ai@ * s0 as int) % ni@ == r0 as int % ni@) by {
            assert(r0 as int % ni@ == 0) by {
                assert(ni@ % ni@ == 0) by {
                    lemma_mod_multiples_vanish(1int, 0int, ni@);
                }
            }
        }
        assert((ai@ * s1 as int) % ni@ == r1 as int % ni@);
    }
    while r1 != 0
        invariant
            n >= 2,
            ni@ == n as int,
            ai@ == a as int,
            1 <= r0 <= n,
            r1 < n,
            s0 < n,
            s1 < n,
            (ai@ * s0 as int) % ni@ == r0 as int % ni@,
            (ai@ * s1 as int) % ni@ == r1 as int % ni@,
            forall|d: int|
                divides(d, r0 as int) && divides(d, r1 as int) ==> divides(d, ni@) && divides(
                    d,
                    ai@ % ni@,
                ),
        decreases r1,
    {
        let ghost g_r0 = r0 as int;
        let ghost g_r1 = r1 as int;
        let ghost g_s0 = s0 as int;
        let ghost g_s1 = s1 as int;
        let q: u64 = r0 / r1;
        let rem: u64 = r0 % r1;
        proof {
            lemma_u64_product_fits(q as int, s1 as int);
        }
        let qs: u64 = (((q as u128) * (s1 as u128)) % (n as u128)) as u64;
        let s_new: u64 = ((((s0 as u128) + (n as u128)) - (qs as u128)) % (n as u128)) as u64;
        proof {
            lemma_mod_bound(g_r0, g_r1);
            lemma_mod_bound((q as int) * g_s1, ni@);
            lemma_mod_bound(g_s0 + ni@ - qs as int, ni@);
            lemma_fundamental_div_mod(g_r0, g_r1);
            // Bezout-style congruence for the new coefficient.
            assert((ai@ * s_new as int) % ni@ == rem as int % ni@) by {
                let x = ai@ * (g_s0 + ni@ - qs as int);
                lemma_mul_mod_noop_general(ai@, g_s0 + ni@ - qs as int, ni@);
                assert((ai@ * s_new as int) % ni@ == x % ni@);
                lemma_mul_is_distributive_add(ai@, g_s0 + ni@ - qs as int, 0int);
                assert(x == ai@ * (g_s0 - qs as int) + ni@ * ai@) by {
                    lemma_mul_is_distributive_add(ai@, g_s0 - qs as int, ni@);
                    lemma_mul_is_commutative(ai@, ni@);
                }
                lemma_mod_multiples_vanish(ai@, ai@ * (g_s0 - qs as int), ni@);
                assert(x % ni@ == (ai@ * (g_s0 - qs as int)) % ni@);
                lemma_mul_is_distributive_sub(ai@, g_s0, qs as int);
                assert(ai@ * (g_s0 - qs as int) == ai@ * g_s0 - ai@ * (qs as int));
                // (a * qs) % n == (q * r1) % n
                assert((ai@ * (qs as int)) % ni@ == ((q as int) * g_r1) % ni@) by {
                    lemma_mul_mod_noop_general(ai@, (q as int) * g_s1, ni@);
                    assert((ai@ * (qs as int)) % ni@ == (ai@ * ((q as int) * g_s1)) % ni@);
                    lemma_mul_is_associative(ai@, q as int, g_s1);
                    lemma_mul_is_commutative(ai@, q as int);
                    lemma_mul_is_associative(q as int, ai@, g_s1);
                    assert(ai@ * ((q as int) * g_s1) == (q as int) * (ai@ * g_s1));
                    lemma_mul_mod_noop_general(q as int, ai@ * g_s1, ni@);
                    lemma_mul_mod_noop_general(q as int, g_r1, ni@);
                }
                lemma_mod_sub_congruent(
                    ai@ * g_s0,
                    ai@ * (qs as int),
                    g_r0,
                    (q as int) * g_r1,
                    ni@,
                );
                assert((ai@ * g_s0 - ai@ * (qs as int)) % ni@ == (g_r0 - (q as int) * g_r1) % ni@);
                assert(g_r0 - (q as int) * g_r1 == rem as int) by {
                    lemma_mul_is_commutative(q as int, g_r1);
                }
                lemma_small_mod(rem as nat, n as nat);
            }
            // Common divisors of the new pair divide the original pair.
            assert forall|d: int|
                divides(d, g_r1) && divides(d, rem as int) implies divides(d, ni@) && divides(
                d,
                ai@ % ni@,
            ) by {
                lemma_divides_linear(d, g_r1, rem as int, q as int);
                lemma_mul_is_commutative(q as int, g_r1);
                assert(divides(d, g_r0));
            }
        }
        r0 = r1;
        r1 = rem;
        s0 = s1;
        s1 = s_new;
    }
    if r0 == 1 {
        proof {
            lemma_small_mod(1nat, n as nat);
            assert((ai@ * s0 as int) % ni@ == 1);
        }
        Ok(s0)
    } else {
        proof {
            let g = r0 as int;
            assert(divides(g, g)) by {
                assert(g == g * 1);
            }
            assert(divides(g, 0int)) by {
                assert(0int == g * 0);
            }
            assert(divides(g, ni@) && divides(g, ai@ % ni@));
            // g also divides a itself.
            lemma_fundamental_div_mod(ai@, ni@);
            assert(divides(g, ai@)) by {
                lemma_divides_linear(g, ni@, ai@ % ni@, ai@ / ni@);
                assert(ai@ == ni@ * (ai@ / ni@) + ai@ % ni@);
                lemma_mul_is_commutative(ai@ / ni@, ni@);
            }
            assert(!is_invertible(ai@, ni@)) by {
                if is_invertible(ai@, ni@) {
                    let y = choose|y: int| 0 <= y < ni@ && #[trigger] ((ai@ * y) % ni@) == 1;
                    lemma_fundamental_div_mod(ai@ * y, ni@);
                    assert(ai@ * y == ni@ * ((ai@ * y) / ni@) + 1);
                    assert(divides(g, ai@ * y)) by {
                        let ka = choose|k: int| ai@ == #[trigger] (g * k);
                        assert(ai@ * y == g * (ka * y)) by (nonlinear_arith)
                            requires
                                ai@ == g * ka,
                        ;
                    }
                    assert(divides(g, 1int)) by {
                        lemma_divides_difference(g, ai@ * y, ni@, (ai@ * y) / ni@);
                        assert(ai@ * y - ((ai@ * y) / ni@) * ni@ == 1) by {
                            lemma_mul_is_commutative((ai@ * y) / ni@, ni@);
                        }
                    }
                    let k1 = choose|k: int| 1int == #[trigger] (g * k);
                    assert(false) by (nonlinear_arith)
                        requires
                            1int == g * k1,
                            g >= 2,
                    ;
                }
            }
        }
        Err(FBSError::NotInvertible)
    }
}

} // verus!
