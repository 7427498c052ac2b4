//! Shared math helpers of the tools: exact integer text, gcd, fractions,
//! and the list of labelled result lines a tool produces.

use vstd::prelude::*;
use crate::text::{int_text, nat_text, push_char, push_nat};
use vstd::arithmetic::div_mod::{lemma_fundamental_div_mod, lemma_fundamental_div_mod_converse, lemma_mod_self_0, lemma_mod_multiples_basic};
use vstd::arithmetic::mul::{lemma_mul_is_distributive_add, lemma_mul_is_associative, lemma_mul_is_commutative, lemma_mul_strictly_positive, lemma_mul_nonnegative};
use vstd::string::StringExecFns;

pub mod complex_tools;
pub mod simplifier;
pub mod fn_expr;
pub mod factor;
pub mod plan;

verus! {

/// The labelled lines a tool computed, an optional warning, and whether the
/// computation has finished (only then are the lines shown).
pub struct ToolResult {
    pub lines: Vec<(String, String)>,
    pub warn: Option<String>,
    pub ready: bool,
}

impl ToolResult {
    /// The lines as (label, value) character sequences.
    pub open spec fn line_texts(&self) -> Seq<(Seq<char>, Seq<char>)> {
        self.lines@.map_values(|p: (String, String)| (p.0@, p.1@))
    }

    /// The warning as a character sequence.
    pub open spec fn warn_text(&self) -> Option<Seq<char>> {
        match self.warn {
            Some(w) => Some(w@),
            None => None,
        }
    }

    /// An empty, unfinished result.
    pub fn new() -> (r: Self)
        ensures
            r.line_texts() == Seq::<(Seq<char>, Seq<char>)>::empty(),
            r.warn is None,
            !r.ready,
    {
        ToolResult { lines: Vec::new(), warn: None, ready: false }
    }

    /// Removes all lines and the warning, and marks the result unfinished.
    pub fn clear(&mut self)
        ensures
            final(self).line_texts() == Seq::<(Seq<char>, Seq<char>)>::empty(),
            final(self).warn is None,
            !final(self).ready,
    {
        self.lines.clear();
        self.warn = None;
        self.ready = false;
    }

    /// Appends the line `label: value`.
    pub fn add(&mut self, label: &str, value: &str)
        ensures
            final(self).line_texts() == old(self).line_texts().push((label@, value@)),
            final(self).warn == old(self).warn,
            final(self).ready == old(self).ready,
    {
        self.lines.push((label.to_owned(), value.to_owned()));
        proof {
            assert(final(self).line_texts() =~= old(self).line_texts().push((label@, value@)));
        }
    }

    /// Sets the warning to `w`.
    pub fn set_warn(&mut self, w: &str)
        ensures
            final(self).warn_text() == Some(w@),
            final(self).lines == old(self).lines,
            final(self).ready == old(self).ready,
    {
        self.warn = Some(w.to_owned());
    }

    /// Marks the result finished.
    pub fn finish(&mut self)
        ensures
            final(self).ready,
            final(self).lines == old(self).lines,
            final(self).warn == old(self).warn,
    {
        self.ready = true;
    }
}

/// Decimal text of `n` (`-` sign for negatives).
pub fn fmt_i64(n: i64) -> (s: String)
    ensures
        s@ == int_text(n as int),
{
    let mut s = String::new();
    if n < 0 {
        push_char(&mut s, '-');
        let m: u64 = (-(n as i128)) as u64;
        push_nat(&mut s, m);
    } else {
        push_nat(&mut s, n as u64);
    }
    s
}

/// Decimal text of `n`; the exported name of `fmt_i64`.
pub fn fmt_i64_pub(n: i64) -> (s: String)
    ensures
        s@ == int_text(n as int),
{
    fmt_i64(n)
}


/// Absolute value of an integer, as a natural number.
pub open spec fn abs_int(x: int) -> nat {
    if x < 0 {
        (-x) as nat
    } else {
        x as nat
    }
}

/// Greatest common divisor by Euclid's recurrence: `gcd(a, 0) = a`,
/// `gcd(a, b) = gcd(b, a mod b)`.
pub open spec fn spec_gcd(a: nat, b: nat) -> nat
    decreases b,
{
    if b == 0 {
        a
    } else {
        spec_gcd(b, a % b)
    }
}

/// Greatest common divisor of `|a|` and `|b|` (0 when both are 0).
pub fn gcd(a: i64, b: i64) -> (g: i64)
    requires
        a != i64::MIN,
        b != i64::MIN,
    ensures
        g as int == spec_gcd(abs_int(a as int), abs_int(b as int)),
{
    let mut x: i64 = if a < 0 { -a } else { a };
    let mut y: i64 = if b < 0 { -b } else { b };
    while y != 0
        invariant
            x >= 0,
            y >= 0,
            spec_gcd(x as nat, y as nat) == spec_gcd(abs_int(a as int), abs_int(b as int)),
        decreases y,
    {
        let t = y;
        y = x % y;
        x = t;
    }
    x
}

/// `gcd(a, b)` divides `a` and `b`, and is positive unless both are 0.
pub proof fn lemma_gcd_divides(a: nat, b: nat)
    ensures
        (a == 0 && b == 0) ==> spec_gcd(a, b) == 0,
        (a > 0 || b > 0) ==> spec_gcd(a, b) > 0,
        spec_gcd(a, b) > 0 ==> a % spec_gcd(a, b) == 0 && b % spec_gcd(a, b) == 0,
    decreases b,
{
    if b == 0 {
        if a > 0 {
            lemma_mod_self_0(a as int);
        }
    } else {
        lemma_gcd_divides(b, a % b);
        let g = spec_gcd(a, b);
        lemma_fundamental_div_mod(a as int, b as int);
        let q = a / b;
        let r = a % b;
        // a == b * q + r, with g dividing b and r
        let qb = b / g;
        let qr = r / g;
        lemma_fundamental_div_mod(b as int, g as int);
        lemma_fundamental_div_mod(r as int, g as int);
        assert(a == g * (qb * q + qr)) by (nonlinear_arith)
            requires
                a == b * q + r,
                b == g * qb,
                r == g * qr,
        ;
        lemma_mod_multiples_basic((qb * q + qr) as int, g as int);
        lemma_mul_is_commutative(g as int, (qb * q + qr) as int);
    }
}

/// Every common divisor of `a` and `b` divides `gcd(a, b)`.
pub proof fn lemma_gcd_greatest(a: nat, b: nat, d: nat)
    requires
        d > 0,
        a % d == 0,
        b % d == 0,
    ensures
        spec_gcd(a, b) % d == 0,
    decreases b,
{
    if b > 0 {
        lemma_fundamental_div_mod(a as int, b as int);
        lemma_fundamental_div_mod(a as int, d as int);
        lemma_fundamental_div_mod(b as int, d as int);
        let q = a / b;
        let r = a % b;
        let qa = a / d;
        let qb = b / d;
        assert(r == d * (qa - qb * q)) by (nonlinear_arith)
            requires
                a == b * q + r,
                a == d * qa,
                b == d * qb,
        ;
        assert((d * (qa - qb * q)) % (d as int) == 0) by {
            lemma_mod_multiples_basic(qa - qb * q, d as int);
            lemma_mul_is_commutative(d as int, qa - qb * q);
        }
        lemma_gcd_greatest(b, r, d);
    }
}

/// Scaling both arguments scales the gcd: `gcd(k a, k b) = k gcd(a, b)`.
pub proof fn lemma_gcd_scale(a: nat, b: nat, k: nat)
    requires
        k > 0,
    ensures
        spec_gcd(k * a, k * b) == k * spec_gcd(a, b),
    decreases b,
{
    if b == 0 {
        assert(k * b == 0) by (nonlinear_arith)
            requires
                b == 0,
        ;
    } else {
        lemma_fundamental_div_mod(a as int, b as int);
        let q = a / b;
        let r = a % b;
        assert(k * a == q * (k * b) + k * r && 0 <= k * r < k * b) by (nonlinear_arith)
            requires
                a == b * q + r,
                0 <= r < b,
                k > 0,
        ;
        lemma_fundamental_div_mod_converse((k * a) as int, (k * b) as int, q as int, (k * r) as int);
        assert(k * b > 0) by (nonlinear_arith)
            requires
                k > 0,
                b > 0,
        ;
        lemma_gcd_scale(b, r, k);
    }
}

/// Numerator of `numer/denom` in lowest terms, carrying the sign.
pub open spec fn reduced_num(numer: int, denom: int) -> int {
    let g = spec_gcd(abs_int(numer), abs_int(denom)) as int;
    if (numer < 0) != (denom < 0) {
        -(abs_int(numer) as int / g)
    } else {
        abs_int(numer) as int / g
    }
}

/// Denominator of `numer/denom` in lowest terms (positive).
pub open spec fn reduced_den(numer: int, denom: int) -> int {
    abs_int(denom) as int / (spec_gcd(abs_int(numer), abs_int(denom)) as int)
}

/// Text of the fraction `numer/denom`: `undef` for a zero denominator, `0` for a
/// zero numerator, otherwise the fraction in lowest terms with the sign on the
/// numerator, and without `/1`.
pub open spec fn fraction_text(numer: int, denom: int) -> Seq<char> {
    if denom == 0 {
        "undef"@
    } else if numer == 0 {
        seq!['0']
    } else if reduced_den(numer, denom) == 1 {
        int_text(reduced_num(numer, denom))
    } else {
        int_text(reduced_num(numer, denom)) + seq!['/'] + nat_text(reduced_den(numer, denom) as nat)
    }
}

/// Text of the fraction `numer/denom` in lowest terms.
pub fn fmt_fraction(numer: i64, denom: i64) -> (s: String)
    requires
        denom == 0 || numer == 0 || (numer != i64::MIN && denom != i64::MIN),
    ensures
        s@ == fraction_text(numer as int, denom as int),
{
    if denom == 0 {
        return String::from_str("undef");
    }
    if numer == 0 {
        let mut z = String::new();
        push_char(&mut z, '0');
        return z;
    }
    let g = gcd(numer, denom);
    proof {
        lemma_gcd_divides(abs_int(numer as int), abs_int(denom as int));
    }
    let na: i64 = if numer < 0 { -numer } else { numer };
    let da: i64 = if denom < 0 { -denom } else { denom };
    let n0 = na / g;
    let d = da / g;
    let n: i64 = if (numer < 0) != (denom < 0) { -n0 } else { n0 };
    if d == 1 {
        return fmt_i64(n);
    }
    let mut s = fmt_i64(n);
    push_char(&mut s, '/');
    push_nat(&mut s, d as u64);
    s
}


proof fn lemma_abs_mul(x: int, k: int)
    ensures
        abs_int(x * k) == abs_int(x) * abs_int(k),
        (x * k < 0) == ((x < 0 && k > 0) || (x > 0 && k < 0)),
{
    assert(abs_int(x * k) == abs_int(x) * abs_int(k)
        && (x * k < 0) == ((x < 0 && k > 0) || (x > 0 && k < 0))) by (nonlinear_arith);
}

/// Exact division of `a` and `b` by their gcd.
proof fn lemma_gcd_quotients(a: nat, b: nat)
    requires
        a > 0 || b > 0,
    ensures
        spec_gcd(a, b) > 0,
        a == spec_gcd(a, b) * (a / spec_gcd(a, b)),
        b == spec_gcd(a, b) * (b / spec_gcd(a, b)),
        spec_gcd(a / spec_gcd(a, b), b / spec_gcd(a, b)) == 1,
{
    lemma_gcd_divides(a, b);
    let g = spec_gcd(a, b);
    lemma_fundamental_div_mod(a as int, g as int);
    lemma_fundamental_div_mod(b as int, g as int);
    let a1 = a / g;
    let b1 = b / g;
    lemma_gcd_scale(a1, b1, g);
    assert(g * spec_gcd(a1, b1) == g * 1) by {
        assert(g * a1 == a);
        assert(g * b1 == b);
    }
    assert(spec_gcd(a1, b1) == 1) by (nonlinear_arith)
        requires
            g * spec_gcd(a1, b1) == g * 1,
            g > 0,
    ;
}

/// The fraction that `fmt_fraction` shows is in lowest terms: its denominator is
/// positive and shares no factor with its numerator.
pub proof fn lemma_fraction_lowest_terms(numer: int, denom: int)
    requires
        numer != 0,
        denom != 0,
    ensures
        reduced_den(numer, denom) > 0,
        spec_gcd(abs_int(reduced_num(numer, denom)), reduced_den(numer, denom) as nat) == 1,
{
    lemma_gcd_quotients(abs_int(numer), abs_int(denom));
    let g = spec_gcd(abs_int(numer), abs_int(denom));
    assert(abs_int(denom) / g > 0) by (nonlinear_arith)
        requires
            abs_int(denom) == g * (abs_int(denom) / g),
            abs_int(denom) > 0,
            g > 0,
    ;
}

/// The fraction that `fmt_fraction` shows has the value of `numer/denom`:
/// `reduced_num * denom == numer * reduced_den`.
pub proof fn lemma_fraction_same_value(numer: int, denom: int)
    requires
        numer != 0,
        denom != 0,
    ensures
        reduced_num(numer, denom) * denom == numer * reduced_den(numer, denom),
{
    lemma_gcd_quotients(abs_int(numer), abs_int(denom));
    let g = spec_gcd(abs_int(numer), abs_int(denom)) as int;
    let a1 = abs_int(numer) as int / g;
    let b1 = abs_int(denom) as int / g;
    assert(reduced_num(numer, denom) * denom == numer * reduced_den(numer, denom)) by (nonlinear_arith)
        requires
            abs_int(numer) == g * a1,
            abs_int(denom) == g * b1,
            reduced_den(numer, denom) == b1,
            reduced_num(numer, denom) == if (numer < 0) != (denom < 0) { -a1 } else { a1 },
            abs_int(numer) == if numer < 0 { -numer } else { numer },
            abs_int(denom) == if denom < 0 { -denom } else { denom },
    ;
}

/// Multiplying numerator and denominator by the same non-zero integer does not
/// change the text of a fraction.
pub proof fn lemma_fraction_scale(numer: int, denom: int, k: int)
    requires
        k != 0,
    ensures
        fraction_text(numer * k, denom * k) == fraction_text(numer, denom),
{
    lemma_abs_mul(numer, k);
    lemma_abs_mul(denom, k);
    if denom != 0 && numer != 0 {
        assert(numer * k != 0 && denom * k != 0) by (nonlinear_arith)
            requires
                numer != 0,
                denom != 0,
                k != 0,
        ;
        let a = abs_int(numer);
        let b = abs_int(denom);
        let m = abs_int(k);
        lemma_gcd_scale(a, b, m);
        lemma_mul_is_commutative(a as int, m as int);
        lemma_mul_is_commutative(b as int, m as int);
        lemma_gcd_divides(a, b);
        let g = spec_gcd(a, b);
        lemma_fundamental_div_mod(a as int, g as int);
        lemma_fundamental_div_mod(b as int, g as int);
        assert((a * m) / (m * g) == a / g && (b * m) / (m * g) == b / g) by {
            let a1 = a / g;
            let b1 = b / g;
            assert(a * m == (m * g) * a1 && b * m == (m * g) * b1 && m * g > 0) by (nonlinear_arith)
                requires
                    a == g * a1,
                    b == g * b1,
                    m > 0,
                    g > 0,
            ;
            lemma_fundamental_div_mod_converse((a * m) as int, (m * g) as int, a1 as int, 0);
            lemma_fundamental_div_mod_converse((b * m) as int, (m * g) as int, b1 as int, 0);
        }
        assert(reduced_num(numer * k, denom * k) == reduced_num(numer, denom));
        assert(reduced_den(numer * k, denom * k) == reduced_den(numer, denom));
    } else if denom == 0 {
        assert(denom * k == 0);
    } else {
        assert(numer * k == 0);
        assert(denom * k != 0) by (nonlinear_arith)
            requires
                denom != 0,
                k != 0,
        ;
    }
}

} // verus!
