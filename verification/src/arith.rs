//! Greatest common divisors and least common multiples, for fractions that
//! are brought over one denominator.

use vstd::arithmetic::div_mod::{
    lemma_fundamental_div_mod, lemma_mod_multiples_basic, lemma_small_mod,
};
use vstd::prelude::*;

verus! {

/// The greatest common divisor of `a` and `b`, by Euclid's rule.
pub open spec fn gcd(a: nat, b: nat) -> nat
    decreases b,
{
    if b == 0 {
        a
    } else {
        gcd(b, a % b)
    }
}

/// The least common multiple of `a` and `b`.
pub open spec fn lcm(a: nat, b: nat) -> nat {
    a * (b / gcd(a, b))
}

/// A number that leaves no remainder is the divisor times the quotient.
pub proof fn lemma_multiple(x: nat, d: nat)
    requires
        d >= 1,
        x % d == 0,
    ensures
        x == d * (x / d),
{
    lemma_fundamental_div_mod(x as int, d as int);
}

/// The greatest common divisor divides both numbers.
pub proof fn lemma_gcd_divides(a: nat, b: nat)
    requires
        a >= 1 || b >= 1,
    ensures
        gcd(a, b) >= 1,
        a % gcd(a, b) == 0,
        b % gcd(a, b) == 0,
    decreases b,
{
    if b == 0 {
        lemma_mod_multiples_basic(1, a as int);
        lemma_small_mod(0, a);
    } else {
        let r = a % b;
        lemma_gcd_divides(b, r);
        let g = gcd(b, r);
        lemma_fundamental_div_mod(a as int, b as int);
        lemma_multiple(b, g);
        lemma_multiple(r, g);
        let u = b / g;
        let v = r / g;
        let q = a / b;
        assert(a == (u * q + v) * g) by (nonlinear_arith)
            requires
                a == b * q + r,
                b == g * u,
                r == g * v,
        ;
        lemma_mod_multiples_basic((u * q + v) as int, g as int);
    }
}

/// The least common multiple is a multiple of both numbers, and no less
/// than the first.
pub proof fn lemma_lcm(a: nat, b: nat)
    requires
        a >= 1,
        b >= 1,
    ensures
        lcm(a, b) >= a,
        lcm(a, b) % a == 0,
        lcm(a, b) % b == 0,
        b / gcd(a, b) >= 1,
{
    lemma_gcd_divides(a, b);
    let g = gcd(a, b);
    lemma_multiple(a, g);
    lemma_multiple(b, g);
    let m = b / g;
    let x = a / g;
    assert(m >= 1) by (nonlinear_arith)
        requires
            b == g * m,
            b >= 1,
            g >= 1,
    ;
    assert(a * m >= a && a * m == m * a && a * m == x * b) by (nonlinear_arith)
        requires
            m >= 1,
            a == g * x,
            b == g * m,
    ;
    lemma_mod_multiples_basic(m as int, a as int);
    lemma_mod_multiples_basic(x as int, b as int);
}

/// A multiple of a multiple of `d` is a multiple of `d`.
pub proof fn lemma_multiple_of_multiple(x: nat, m: nat, d: nat)
    requires
        d >= 1,
        x % d == 0,
    ensures
        (x * m) % d == 0,
{
    lemma_multiple(x, d);
    let u = x / d;
    assert(x * m == (u * m) * d) by (nonlinear_arith)
        requires
            x == d * u,
    ;
    lemma_mod_multiples_basic((u * m) as int, d as int);
}

/// The greatest common divisor of `a` and `b`.
pub fn gcd_of(a: u128, b: u128) -> (g: u128)
    ensures
        g == gcd(a as nat, b as nat),
{
    let mut x = a;
    let mut y = b;
    while y != 0
        invariant
            gcd(x as nat, y as nat) == gcd(a as nat, b as nat),
        decreases y,
    {
        let r = x % y;
        x = y;
        y = r;
    }
    x
}

} // verus!
