use alg2a_tools::tools::{fmt_fraction, fmt_i64, fmt_i64_pub, gcd, ToolResult};
use alg2a_tools::tools::complex_tools::powers_of_i;

#[test]
fn fmt_i64_formats_signs_and_zero() {
    assert_eq!(fmt_i64(0), "0");
    assert_eq!(fmt_i64(7), "7");
    assert_eq!(fmt_i64(-42), "-42");
    assert_eq!(fmt_i64(1234567890), "1234567890");
    assert_eq!(fmt_i64(i64::MAX), "9223372036854775807");
    assert_eq!(fmt_i64(i64::MIN), "-9223372036854775808");
    assert_eq!(fmt_i64_pub(-305), "-305");
}

#[test]
fn gcd_of_signed_values() {
    assert_eq!(gcd(12, 18), 6);
    assert_eq!(gcd(-12, 18), 6);
    assert_eq!(gcd(12, -18), 6);
    assert_eq!(gcd(0, 5), 5);
    assert_eq!(gcd(5, 0), 5);
    assert_eq!(gcd(0, 0), 0);
    assert_eq!(gcd(17, 5), 1);
    assert_eq!(gcd(i64::MAX, i64::MAX), i64::MAX);
}

#[test]
fn gcd_divides_both_and_is_greatest() {
    for a in -30i64..=30 {
        for b in -30i64..=30 {
            let g = gcd(a, b);
            if a == 0 && b == 0 {
                assert_eq!(g, 0);
                continue;
            }
            assert!(g > 0);
            assert_eq!(a % g, 0);
            assert_eq!(b % g, 0);
            for d in 1..=30 {
                if a % d == 0 && b % d == 0 {
                    assert_eq!(g % d, 0);
                }
            }
        }
    }
}

#[test]
fn fmt_fraction_reduces_and_moves_sign() {
    assert_eq!(fmt_fraction(6, 4), "3/2");
    assert_eq!(fmt_fraction(-6, 4), "-3/2");
    assert_eq!(fmt_fraction(6, -4), "-3/2");
    assert_eq!(fmt_fraction(-6, -4), "3/2");
    assert_eq!(fmt_fraction(8, 4), "2");
    assert_eq!(fmt_fraction(-8, 4), "-2");
    assert_eq!(fmt_fraction(3, 1), "3");
    assert_eq!(fmt_fraction(1, 3), "1/3");
}

#[test]
fn fmt_fraction_zero_cases() {
    assert_eq!(fmt_fraction(5, 0), "undef");
    assert_eq!(fmt_fraction(0, 0), "undef");
    assert_eq!(fmt_fraction(0, 7), "0");
    assert_eq!(fmt_fraction(0, -7), "0");
}

#[test]
fn fmt_fraction_scaling_law() {
    for n in -12i64..=12 {
        for d in -12i64..=12 {
            for k in [-3i64, -1, 2, 5] {
                assert_eq!(fmt_fraction(n * k, d * k), fmt_fraction(n, d));
            }
        }
    }
}

#[test]
fn fmt_fraction_lowest_terms_and_value() {
    for n in -20i64..=20 {
        for d in -20i64..=20 {
            if n == 0 || d == 0 {
                continue;
            }
            let s = fmt_fraction(n, d);
            let (rn, rd) = match s.split_once('/') {
                Some((a, b)) => (a.parse::<i64>().unwrap(), b.parse::<i64>().unwrap()),
                None => (s.parse::<i64>().unwrap(), 1),
            };
            assert!(rd > 0);
            assert_eq!(gcd(rn, rd), 1);
            assert_eq!(rn * d, n * rd);
        }
    }
}

#[test]
fn tool_result_lifecycle() {
    let mut r = ToolResult::new();
    assert!(r.lines.is_empty());
    assert!(r.warn.is_none());
    assert!(!r.ready);
    r.add("a:", "1");
    r.add("b:", "2");
    r.set_warn("careful");
    r.finish();
    assert_eq!(r.lines, vec![("a:".to_string(), "1".to_string()), ("b:".to_string(), "2".to_string())]);
    assert_eq!(r.warn.as_deref(), Some("careful"));
    assert!(r.ready);
    r.clear();
    assert!(r.lines.is_empty());
    assert!(r.warn.is_none());
    assert!(!r.ready);
}

fn lines_of(r: &ToolResult) -> Vec<(String, String)> {
    r.lines.clone()
}

#[test]
fn powers_of_i_cycle() {
    let expect = [(0i64, "0", "1"), (1, "1", "i"), (2, "2", "-1"), (3, "3", "-i"), (4, "0", "1"), (7, "3", "-i")];
    for (n, m, v) in expect {
        let mut r = ToolResult::new();
        r.add("stale", "line");
        powers_of_i(n, &mut r);
        let l = lines_of(&r);
        assert_eq!(l.len(), 4);
        assert_eq!(l[0], ("n =".to_string(), n.to_string()));
        assert_eq!(l[1], ("n mod 4:".to_string(), m.to_string()));
        assert_eq!(l[2], ("Result:".to_string(), format!("i^{} = {}", n, v)));
        assert_eq!(l[3], ("Cycle:".to_string(), "i, -1, -i, 1, ...".to_string()));
        assert!(r.ready);
        assert!(r.warn.is_none());
    }
}

#[test]
fn powers_of_i_negative_exponents() {
    let mut r = ToolResult::new();
    powers_of_i(-1, &mut r);
    assert_eq!(r.lines[1].1, "3");
    assert_eq!(r.lines[2].1, "i^-1 = -i");
    powers_of_i(-6, &mut r);
    assert_eq!(r.lines[1].1, "2");
    assert_eq!(r.lines[2].1, "i^-6 = -1");
    powers_of_i(i64::MIN, &mut r);
    assert_eq!(r.lines[1].1, "0");
}

#[test]
fn powers_of_i_multiply_as_exponents_add() {
    fn value(n: i64) -> (i64, i64) {
        match n.rem_euclid(4) {
            0 => (1, 0),
            1 => (0, 1),
            2 => (-1, 0),
            _ => (0, -1),
        }
    }
    for a in -9i64..=9 {
        for b in -9i64..=9 {
            let (x, y) = value(a);
            let (u, v) = value(b);
            assert_eq!((x * u - y * v, x * v + y * u), value(a + b));
            let mut r = ToolResult::new();
            powers_of_i(a + b, &mut r);
            let text = match value(a + b) {
                (1, 0) => "1",
                (0, 1) => "i",
                (-1, 0) => "-1",
                _ => "-i",
            };
            assert!(r.lines[2].1.ends_with(&format!(" = {}", text)));
        }
    }
}

#[test]
fn fmt_fraction_zero_part_beside_min() {
    assert_eq!(fmt_fraction(i64::MIN, 0), "undef");
    assert_eq!(fmt_fraction(0, i64::MIN), "0");
}
