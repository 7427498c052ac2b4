use alg2a_tools::tools::factor::{gcf3, reduce_standard_form, square_factor};

fn g3(a: i64, b: i64, c: i64) -> i64 {
    fn g(a: i64, b: i64) -> i64 {
        let (mut x, mut y) = (a.abs(), b.abs());
        while y != 0 {
            let t = y;
            y = x % y;
            x = t;
        }
        x
    }
    g(g(a, b), c)
}

#[test]
fn gcf_of_three() {
    assert_eq!(gcf3(12, 18, 0), 6);
    assert_eq!(gcf3(12, 18, 8), 2);
    assert_eq!(gcf3(0, 0, 0), 1);
    assert_eq!(gcf3(-4, 6, -10), 2);
    assert_eq!(gcf3(7, 0, 0), 7);
    assert_eq!(gcf3(5, 7, 11), 1);
}

#[test]
fn standard_form_examples() {
    assert_eq!(reduce_standard_form(-2, 4, -6), (1, -2, 3));
    assert_eq!(reduce_standard_form(0, 0, 0), (0, 0, 0));
    assert_eq!(reduce_standard_form(3, 6, 9), (1, 2, 3));
    assert_eq!(reduce_standard_form(-6, 3, 0), (2, -1, 0));
    assert_eq!(reduce_standard_form(0, -5, 10), (0, -1, 2));
    assert_eq!(reduce_standard_form(-3, 1, 7), (3, -1, -7));
}

#[test]
fn standard_form_keeps_the_line() {
    for a in -12i64..=12 {
        for b in -6i64..=6 {
            for c in -9i64..=9 {
                let (p, q, r) = reduce_standard_form(a, b, c);
                assert!(p >= 0);
                let k = if a < 0 { -gcf3(a, b, c) } else { gcf3(a, b, c) };
                assert_eq!((p * k, q * k, r * k), (a, b, c));
                if a != 0 || b != 0 || c != 0 {
                    assert_eq!(g3(p, q, r), 1);
                }
            }
        }
    }
}

#[test]
fn square_factor_examples() {
    assert_eq!(square_factor(72), (6, 2));
    assert_eq!(square_factor(9), (3, 1));
    assert_eq!(square_factor(12), (2, 3));
    assert_eq!(square_factor(0), (1, 0));
    assert_eq!(square_factor(1), (1, 1));
    assert_eq!(square_factor(50), (5, 2));
    assert_eq!(square_factor(17), (1, 17));
    assert_eq!(square_factor(180), (6, 5));
}

#[test]
fn square_factor_is_largest() {
    for n in 0u32..2000 {
        let (c, r) = square_factor(n);
        assert_eq!(c * c * r, n);
        let mut k = c + 1;
        while k * k <= n {
            assert_ne!(n % (k * k), 0);
            k += 1;
        }
    }
}

#[test]
fn gcf_divides_and_is_greatest() {
    for a in -20i64..=20 {
        for b in -12i64..=12 {
            for c in [-9i64, 0, 4, 15] {
                let g = gcf3(a, b, c);
                assert!(g >= 1);
                assert_eq!((a % g, b % g, c % g), (0, 0, 0));
                if a != 0 || b != 0 || c != 0 {
                    let best = (1..=20).filter(|d| a % d == 0 && b % d == 0 && c % d == 0).max().unwrap();
                    assert_eq!(g, best);
                }
            }
        }
    }
}
