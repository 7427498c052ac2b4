//! Integer factoring helpers of the tools: the greatest common factor of three
//! coefficients, the canonical standard form `A x + B y = C` of a line, and the
//! largest square factor under a square root.

use vstd::prelude::*;
use vstd::arithmetic::div_mod::{lemma_fundamental_div_mod, lemma_mod_multiples_basic, lemma_small_mod, lemma_div_multiples_vanish};
use super::{gcd, spec_gcd, abs_int, lemma_gcd_divides, lemma_gcd_greatest, lemma_gcd_scale};

verus! {

/// Greatest common factor of the magnitudes of three integers; 1 when all
/// three are 0.
pub open spec fn gcf3_of(a: int, b: int, c: int) -> nat {
    let g = spec_gcd(spec_gcd(abs_int(a), abs_int(b)), abs_int(c));
    if g == 0 {
        1
    } else {
        g
    }
}

/// Greatest common factor of three coefficients (1 when all are 0).
pub fn gcf3(a: i64, b: i64, c: i64) -> (g: i64)
    requires
        a != i64::MIN,
        b != i64::MIN,
        c != i64::MIN,
    ensures
        g as int == gcf3_of(a as int, b as int, c as int),
{
    let g = if c == 0 { gcd(a, b) } else { gcd(gcd(a, b), c) };
    if g < 1 {
        1
    } else {
        g
    }
}

proof fn lemma_divides_trans(x: nat, y: nat, z: nat)
    requires
        y > 0,
        z > 0,
        x % y == 0,
        y % z == 0,
    ensures
        x % z == 0,
{
    lemma_fundamental_div_mod(x as int, y as int);
    lemma_fundamental_div_mod(y as int, z as int);
    let q1 = x / y;
    let q2 = y / z;
    assert(x == (q2 * q1) * z) by (nonlinear_arith)
        requires
            x == y * q1,
            y == z * q2,
    ;
    lemma_mod_multiples_basic((q2 * q1) as int, z as int);
}

/// A divisor of `|x|` divides `x`, which is then that divisor times `x / g`.
proof fn lemma_abs_divides(x: int, g: int)
    requires
        g > 0,
        (abs_int(x) as int) % g == 0,
    ensures
        x % g == 0,
        x == g * (x / g),
{
    lemma_fundamental_div_mod(abs_int(x) as int, g);
    let q = abs_int(x) as int / g;
    if x >= 0 {
        assert(x == q * g) by (nonlinear_arith)
            requires
                abs_int(x) == g * q,
                x >= 0,
                abs_int(x) == x,
        ;
        lemma_mod_multiples_basic(q, g);
    } else {
        assert(x == (-q) * g) by (nonlinear_arith)
            requires
                abs_int(x) == g * q,
                abs_int(x) == -x,
        ;
        lemma_mod_multiples_basic(-q, g);
    }
    lemma_fundamental_div_mod(x, g);
}

/// The common factor is positive and divides each of the three magnitudes.
pub proof fn lemma_gcf3_divides(a: int, b: int, c: int)
    ensures
        gcf3_of(a, b, c) > 0,
        abs_int(a) % gcf3_of(a, b, c) == 0,
        abs_int(b) % gcf3_of(a, b, c) == 0,
        abs_int(c) % gcf3_of(a, b, c) == 0,
{
    let x = abs_int(a);
    let y = abs_int(b);
    let z = abs_int(c);
    let g1 = spec_gcd(x, y);
    let g = spec_gcd(g1, z);
    lemma_gcd_divides(x, y);
    lemma_gcd_divides(g1, z);
    if g > 0 {
        if g1 > 0 {
            lemma_divides_trans(x, g1, g);
            lemma_divides_trans(y, g1, g);
        } else {
            lemma_small_mod(0, g);
        }
    } else {
        assert(x % 1 == 0 && y % 1 == 0 && z % 1 == 0) by (nonlinear_arith)
            requires
                x == 0,
                y == 0,
                z == 0,
        ;
    }
}

/// Every common divisor of three integers, not all 0, divides their
/// greatest common factor.
pub proof fn lemma_gcf3_greatest(a: int, b: int, c: int, d: nat)
    requires
        d > 0,
        abs_int(a) % d == 0,
        abs_int(b) % d == 0,
        abs_int(c) % d == 0,
        !(a == 0 && b == 0 && c == 0),
    ensures
        gcf3_of(a, b, c) % d == 0,
{
    let x = abs_int(a);
    let y = abs_int(b);
    let z = abs_int(c);
    lemma_gcd_greatest(x, y, d);
    lemma_gcd_greatest(spec_gcd(x, y), z, d);
    lemma_gcd_divides(x, y);
    lemma_gcd_divides(spec_gcd(x, y), z);
}

/// The sign that makes the first coefficient of a line non-negative.
pub open spec fn lead_sign(a: int) -> int {
    if a < 0 {
        -1
    } else {
        1
    }
}

/// The coefficients of `A x + B y = C` in canonical form: all negated when
/// `A < 0`, then divided by their greatest common factor.
pub open spec fn standard_form(a: int, b: int, c: int) -> (int, int, int) {
    let s = lead_sign(a);
    let g = gcf3_of(a, b, c) as int;
    ((s * a) / g, (s * b) / g, (s * c) / g)
}

/// Puts `A x + B y = C` in canonical form: `A >= 0` and the three coefficients
/// without a common factor.
pub fn reduce_standard_form(a: i64, b: i64, c: i64) -> (r: (i64, i64, i64))
    requires
        a != i64::MIN,
        b != i64::MIN,
        c != i64::MIN,
    ensures
        (r.0 as int, r.1 as int, r.2 as int) == standard_form(a as int, b as int, c as int),
{
    let (a1, b1, c1) = if a < 0 { (-a, -b, -c) } else { (a, b, c) };
    let g = gcf3(a1, b1, c1);
    proof {
        assert(gcf3_of(a1 as int, b1 as int, c1 as int) == gcf3_of(a as int, b as int, c as int));
        lemma_gcf3_divides(a1 as int, b1 as int, c1 as int);
        lemma_abs_divides(a1 as int, g as int);
        lemma_abs_divides(b1 as int, g as int);
        lemma_abs_divides(c1 as int, g as int);
        assert(a1 as int == lead_sign(a as int) * a);
        assert(b1 as int == lead_sign(a as int) * b);
        assert(c1 as int == lead_sign(a as int) * c);
    }
    (exact_div(a1, g), exact_div(b1, g), exact_div(c1, g))
}

/// `x / g` for a divisor `g` of `x`.
fn exact_div(x: i64, g: i64) -> (q: i64)
    requires
        g > 0,
        x != i64::MIN,
        x % g == 0,
    ensures
        q == x / g,
{
    proof {
        lemma_fundamental_div_mod(x as int, g as int);
    }
    if x < 0 {
        let m = (-x) / g;
        proof {
            let k = x / g;
            assert(-x == g * (-k)) by (nonlinear_arith)
                requires
                    x == g * k,
            ;
            lemma_div_multiples_vanish(-k, g as int);
        }
        -m
    } else {
        x / g
    }
}

/// The canonical form describes the same line: the given coefficients are
/// the canonical ones times one non-zero factor, the first canonical
/// coefficient is non-negative, and, unless all three are 0, the canonical
/// coefficients have no common factor but 1.
pub proof fn lemma_standard_form(a: int, b: int, c: int)
    ensures
        ({
            let (p, q, r) = standard_form(a, b, c);
            let k = lead_sign(a) * gcf3_of(a, b, c);
            &&& k != 0
            &&& p * k == a
            &&& q * k == b
            &&& r * k == c
            &&& p >= 0
            &&& !(a == 0 && b == 0 && c == 0) ==> gcf3_of(p, q, r) == 1
        }),
{
    let s = lead_sign(a);
    let g = gcf3_of(a, b, c) as int;
    lemma_gcf3_divides(a, b, c);
    let (p, q, r) = standard_form(a, b, c);
    assert(abs_int(s * a) == abs_int(a) && abs_int(s * b) == abs_int(b) && abs_int(s * c) == abs_int(c));
    lemma_abs_divides(s * a, g);
    lemma_abs_divides(s * b, g);
    lemma_abs_divides(s * c, g);
    assert(p * (s * g) == a && q * (s * g) == b && r * (s * g) == c) by (nonlinear_arith)
        requires
            s * a == g * p,
            s * b == g * q,
            s * c == g * r,
            s == 1 || s == -1,
    ;
    assert(s * g != 0) by (nonlinear_arith)
        requires
            s == 1 || s == -1,
            g > 0,
    ;
    assert(p >= 0) by (nonlinear_arith)
        requires
            s * a == g * p,
            g > 0,
            s * a >= 0,
    ;
    if !(a == 0 && b == 0 && c == 0) {
        let x = abs_int(p);
        let y = abs_int(q);
        let z = abs_int(r);
        assert(abs_int(a) == g * x && abs_int(b) == g * y && abs_int(c) == g * z) by (nonlinear_arith)
            requires
                s * a == g * p,
                s * b == g * q,
                s * c == g * r,
                s == 1 || s == -1,
                g > 0,
                x == abs_int(p),
                y == abs_int(q),
                z == abs_int(r),
                abs_int(s * a) == abs_int(a),
                abs_int(s * b) == abs_int(b),
                abs_int(s * c) == abs_int(c),
        ;
        lemma_gcd_scale(x, y, g as nat);
        lemma_gcd_scale(spec_gcd(x, y), z, g as nat);
        lemma_gcd_divides(abs_int(a), abs_int(b));
        lemma_gcd_divides(spec_gcd(abs_int(a), abs_int(b)), abs_int(c));
        assert(g == g * spec_gcd(spec_gcd(x, y), z));
        assert(spec_gcd(spec_gcd(x, y), z) == 1) by (nonlinear_arith)
            requires
                g == g * spec_gcd(spec_gcd(x, y), z),
                g > 0,
        ;
    }
}

/// `n = coeff^2 * rad`, where `coeff` is the largest number whose square divides
/// `n` and is at most `n`, or 1 when there is none.
pub open spec fn is_square_split(n: int, coeff: int, rad: int) -> bool {
    &&& coeff >= 1
    &&& coeff * coeff * rad == n
    &&& (coeff == 1 || coeff * coeff <= n)
    &&& forall|k: int| coeff < k && #[trigger] (k * k) <= n ==> n % (k * k) != 0
}

/// Splits `n` into the square of the largest factor whose square divides it
/// and what is left under the root: `sqrt(n) = coeff * sqrt(rad)`.
pub fn square_factor(n: u32) -> (r: (u32, u32))
    requires
        n < 65535 * 65535,
    ensures
        is_square_split(n as int, r.0 as int, r.1 as int),
{
    let mut best_coeff: u32 = 1;
    let mut best_rad: u32 = n;
    let mut k: u32 = 2;
    while k * k <= n
        invariant
            n < 65535 * 65535,
            2 <= k <= 65535,
            k * k <= 65535 * 65535,
            1 <= best_coeff < k,
            best_coeff * best_coeff * best_rad == n,
            best_coeff == 1 || best_coeff * best_coeff <= n,
            forall|j: int| best_coeff < j < k && #[trigger] (j * j) <= n ==> (n as int) % (j * j) != 0,
        decreases 65535 - k,
    {
        assert(k < 65535) by (nonlinear_arith)
            requires
                k * k <= n,
                n < 65535 * 65535,
                k >= 2,
        ;
        let k2 = k * k;
        assert(k2 >= 4) by (nonlinear_arith)
            requires
                k2 == k * k,
                k >= 2,
        ;
        if n % k2 == 0 {
            proof {
                lemma_fundamental_div_mod(n as int, k2 as int);
                assert(k * k * (n / k2) == n) by (nonlinear_arith)
                    requires
                        n == k2 * (n / k2) + n % k2,
                        n % k2 == 0,
                        k2 == k * k,
                ;
            }
            best_coeff = k;
            best_rad = n / k2;
        }
        assert((k + 1) * (k + 1) <= 65535 * 65535) by (nonlinear_arith)
            requires
                k < 65535,
                k >= 0,
        ;
        k = k + 1;
    }
    proof {
        assert forall|j: int| best_coeff < j && #[trigger] (j * j) <= n implies (n as int) % (j * j) != 0 by {
            if j >= k {
                assert(j * j >= k * k) by (nonlinear_arith)
                    requires
                        j >= k,
                        k >= 0,
                ;
            }
        }
    }
    (best_coeff, best_rad)
}

} // verus!
