use alg2a_tools::tools::simplifier::{g_parse, g_tokenize, mentions_functions, GError, GInstr, GToken, Span};

fn sp(start: usize, end: usize) -> Span {
    Span { start, end }
}

fn num(start: usize, end: usize) -> GToken {
    GToken::Num(sp(start, end))
}

fn parse_ok(e: &str) -> Vec<GInstr> {
    let (prog, err) = g_parse(&g_tokenize(e));
    assert_eq!(err, None, "{}", e);
    prog
}

fn parse_err(e: &str) -> Option<GError> {
    g_parse(&g_tokenize(e)).1
}

fn stack_depth(prog: &[GInstr]) -> Option<i64> {
    let mut d: i64 = 0;
    for i in prog {
        let arity = match i {
            GInstr::Const(_) | GInstr::Term(_, _) => 0,
            GInstr::Neg | GInstr::Pow(_) | GInstr::Distribute(_) => 1,
            _ => 2,
        };
        if d < arity {
            return None;
        }
        d = d - arity + 1;
    }
    Some(d)
}

#[test]
fn tokenize_polynomial() {
    let toks = g_tokenize("2x^2 + 3x - 1");
    assert_eq!(
        toks,
        vec![
            num(0, 1),
            GToken::Var,
            GToken::Caret,
            num(3, 4),
            GToken::Plus,
            num(7, 8),
            GToken::Var,
            GToken::Minus,
            num(12, 13),
        ]
    );
}

#[test]
fn tokenize_skips_noise_and_bad_numbers() {
    assert_eq!(g_tokenize("= X * 1.5"), vec![GToken::Var, GToken::Star, num(6, 9)]);
    assert_eq!(g_tokenize("1.2.3 / y"), vec![GToken::Slash]);
    assert_eq!(g_tokenize("(x)"), vec![GToken::LParen, GToken::Var, GToken::RParen]);
    assert_eq!(g_tokenize(""), vec![]);
    assert_eq!(g_tokenize("  "), vec![]);
}

#[test]
fn function_notation_is_detected() {
    assert!(mentions_functions("sin(x)"));
    assert!(mentions_functions("2*cos(0)"));
    assert!(mentions_functions("tan(1)"));
    assert!(mentions_functions("sqrt(72)"));
    assert!(mentions_functions("ln(2)"));
    assert!(mentions_functions("log(100)"));
    assert!(mentions_functions("2pi"));
    assert!(mentions_functions("Pi/2"));
    assert!(mentions_functions("PI"));
    assert!(mentions_functions("3e"));
    assert!(!mentions_functions("2x^2 + 3x - 1"));
    assert!(!mentions_functions("(x+1)(x-1)"));
    assert!(!mentions_functions("pI"));
    assert!(!mentions_functions(""));
}

#[test]
fn parse_sum_of_terms() {
    let prog = parse_ok("2x^2+3x-1");
    assert_eq!(
        prog,
        vec![
            GInstr::Term(Some(sp(0, 1)), Some(sp(3, 4))),
            GInstr::Term(Some(sp(5, 6)), None),
            GInstr::Add,
            GInstr::Const(sp(8, 9)),
            GInstr::Sub,
        ]
    );
    assert_eq!(stack_depth(&prog), Some(1));
}

#[test]
fn parse_leading_minus_and_division() {
    let prog = parse_ok("-x/2");
    assert_eq!(prog, vec![GInstr::Term(None, None), GInstr::Const(sp(3, 4)), GInstr::Div, GInstr::Neg]);
    let prog = parse_ok("x*-3");
    assert_eq!(prog, vec![GInstr::Term(None, None), GInstr::Const(sp(3, 4)), GInstr::Neg, GInstr::Mul]);
}

#[test]
fn parse_products_of_brackets() {
    let prog = parse_ok("(x+1)(x-1)");
    assert_eq!(
        prog,
        vec![
            GInstr::Term(None, None),
            GInstr::Const(sp(3, 4)),
            GInstr::Add,
            GInstr::Term(None, None),
            GInstr::Const(sp(8, 9)),
            GInstr::Sub,
            GInstr::FoilMul,
        ]
    );
    let prog = parse_ok("(x)(x)(x)");
    assert_eq!(
        prog,
        vec![
            GInstr::Term(None, None),
            GInstr::Term(None, None),
            GInstr::FoilMul,
            GInstr::Term(None, None),
            GInstr::Mul,
        ]
    );
    assert_eq!(stack_depth(&prog), Some(1));
}

#[test]
fn parse_distribution_and_powers() {
    let prog = parse_ok("3(x+1)");
    assert_eq!(
        prog,
        vec![
            GInstr::Term(None, None),
            GInstr::Const(sp(4, 5)),
            GInstr::Add,
            GInstr::Distribute(sp(0, 1)),
        ]
    );
    let prog = parse_ok("2(x)(x)");
    assert_eq!(
        prog,
        vec![GInstr::Term(None, None), GInstr::Distribute(sp(0, 1)), GInstr::Term(None, None), GInstr::FoilMul]
    );
    let prog = parse_ok("(x+1)^2");
    assert_eq!(
        prog,
        vec![GInstr::Term(None, None), GInstr::Const(sp(3, 4)), GInstr::Add, GInstr::Pow(sp(6, 7))]
    );
    // a `^` with no number after it is passed over
    let prog = parse_ok("(x)^");
    assert_eq!(prog, vec![GInstr::Term(None, None)]);
}

#[test]
fn parse_errors() {
    assert_eq!(parse_err(")"), Some(GError::UnexpectedToken));
    assert_eq!(parse_err(""), Some(GError::UnexpectedToken));
    assert_eq!(parse_err("x+"), Some(GError::UnexpectedToken));
    assert_eq!(parse_err("(x"), Some(GError::ExpectedClose));
    assert_eq!(parse_err("2(x+1"), Some(GError::ExpectedClose));
    assert_eq!(parse_err("x^"), Some(GError::ExpectedExponent));
    assert_eq!(parse_err("3x^x"), Some(GError::ExpectedExponent));
}

#[test]
fn trailing_tokens_are_ignored() {
    let prog = parse_ok("x)");
    assert_eq!(prog, vec![GInstr::Term(None, None)]);
}

#[test]
fn accepted_programs_leave_one_polynomial() {
    for e in ["x", "-x", "2x^3-4x+7", "(x+1)(x+2)(x+3)", "3(x-1)(x+1)", "x^2/4*-2", "((x))", "-(x+1)^2"] {
        let prog = parse_ok(e);
        assert_eq!(stack_depth(&prog), Some(1), "{}", e);
    }
}

#[test]
fn errors_keep_the_steps_read_before_them() {
    let (prog, err) = g_parse(&g_tokenize("x/x+"));
    assert_eq!(err, Some(GError::UnexpectedToken));
    assert_eq!(prog, vec![GInstr::Term(None, None), GInstr::Term(None, None), GInstr::Div]);
    let (prog, err) = g_parse(&g_tokenize("(x+1"));
    assert_eq!(err, Some(GError::ExpectedClose));
    assert_eq!(prog, vec![GInstr::Term(None, None), GInstr::Const(sp(3, 4)), GInstr::Add]);
    let (prog, err) = g_parse(&g_tokenize("2x^"));
    assert_eq!(err, Some(GError::ExpectedExponent));
    assert_eq!(prog, vec![]);
}

fn span_is_number(expr: &str, sp: Span) {
    let b = expr.as_bytes();
    assert!(sp.start < sp.end && sp.end <= b.len());
    let text = &b[sp.start..sp.end];
    assert!(text.iter().all(|c| c.is_ascii_digit() || *c == b'.'));
    assert!(text.iter().filter(|c| **c == b'.').count() <= 1);
}

#[test]
fn number_tokens_cover_numbers() {
    for e in ["2x^2 + 3.5x - 10", "1.2.3 + 4.", ".5(x)", "12x^3-0.25", "x==3", "\u{e9} 7"] {
        for t in g_tokenize(e) {
            if let GToken::Num(sp) = t {
                span_is_number(e, sp);
            }
        }
    }
}
