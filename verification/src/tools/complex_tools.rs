//! Complex-number tools that work on exact integers.

use vstd::prelude::*;
use vstd::string::StringExecFns;
use crate::text::int_text;
use super::{fmt_i64, ToolResult};

verus! {

/// The remainder of `n` modulo 4, in `0..4`.
pub open spec fn mod4(n: int) -> int {
    n % 4
}

/// The simplified value of `i^n` for `r = n mod 4`, as text.
pub open spec fn i_power_text(r: int) -> Seq<char> {
    if r == 0 {
        "1"@
    } else if r == 1 {
        "i"@
    } else if r == 2 {
        "-1"@
    } else {
        "-i"@
    }
}

/// The value of `i^n` for `r = n mod 4`, as (real, imaginary) parts.
pub open spec fn i_power_value(r: int) -> (int, int) {
    if r == 0 {
        (1, 0)
    } else if r == 1 {
        (0, 1)
    } else if r == 2 {
        (-1, 0)
    } else {
        (0, -1)
    }
}

/// Product of two Gaussian integers given as (real, imaginary) parts.
pub open spec fn gauss_mul(z: (int, int), w: (int, int)) -> (int, int) {
    (z.0 * w.0 - z.1 * w.1, z.0 * w.1 + z.1 * w.0)
}

/// The lines that `powers_of_i` shows for the exponent `n`.
pub open spec fn powers_of_i_lines(n: int) -> Seq<(Seq<char>, Seq<char>)> {
    seq![
        ("n ="@, int_text(n)),
        ("n mod 4:"@, int_text(mod4(n))),
        ("Result:"@, "i^"@ + int_text(n) + " = "@ + i_power_text(mod4(n))),
        ("Cycle:"@, "i, -1, -i, 1, ..."@),
    ]
}

/// `n mod 4` in `0..4` (Euclidean remainder).
fn rem_euclid4(n: i64) -> (r: i64)
    ensures
        r as int == mod4(n as int),
        0 <= r < 4,
{
    let q = n % 4;
    if q < 0 {
        q + 4
    } else {
        q
    }
}

/// Computes `i^n` from the cycle of period 4: shows `n`, `n mod 4` and the result.
pub fn powers_of_i(n: i64, result: &mut ToolResult)
    ensures
        final(result).line_texts() == powers_of_i_lines(n as int),
        final(result).warn is None,
        final(result).ready,
{
    result.clear();
    let n_text = fmt_i64(n);
    result.add("n =", n_text.as_str());
    let r = rem_euclid4(n);
    let r_text = fmt_i64(r);
    result.add("n mod 4:", r_text.as_str());
    let simplified = if r == 0 {
        "1"
    } else if r == 1 {
        "i"
    } else if r == 2 {
        "-1"
    } else {
        "-i"
    };
    let mut s = String::from_str("i^");
    s.append(n_text.as_str());
    s.append(" = ");
    s.append(simplified);
    result.add("Result:", s.as_str());
    result.add("Cycle:", "i, -1, -i, 1, ...");
    result.finish();
    proof {
        assert(final(result).line_texts() =~= powers_of_i_lines(n as int));
    }
}

/// The powers of `i` multiply as their exponents add: `i^a * i^b = i^(a+b)`.
pub proof fn lemma_i_power_add(a: int, b: int)
    ensures
        gauss_mul(i_power_value(mod4(a)), i_power_value(mod4(b))) == i_power_value(mod4(a + b)),
{
    assert(mod4(a + b) == (mod4(a) + mod4(b)) % 4) by {
        vstd::arithmetic::div_mod::lemma_add_mod_noop(a, b, 4);
    }
}

/// The powers of `i` repeat with period 4: `i^(n+4) = i^n`, and the text shown
/// for them is the same.
pub proof fn lemma_i_power_period(n: int)
    ensures
        mod4(n + 4) == mod4(n),
        i_power_value(mod4(n + 4)) == i_power_value(mod4(n)),
        i_power_text(mod4(n + 4)) == i_power_text(mod4(n)),
{
    vstd::arithmetic::div_mod::lemma_mod_add_multiples_vanish(n, 4);
}

} // verus!
