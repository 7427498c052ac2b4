use alg2a_tools::tools::fn_expr::{f_parse, f_tokenize, FError, FExpr, FToken};
use alg2a_tools::tools::simplifier::Span;

fn num(start: usize, end: usize) -> FExpr {
    FExpr::Num(Span { start, end })
}

fn ntok(start: usize, end: usize) -> FToken {
    FToken::Num(Span { start, end })
}

fn bx(e: FExpr) -> Box<FExpr> {
    Box::new(e)
}

#[test]
fn tokenize_functions_and_constants() {
    assert_eq!(
        f_tokenize("2sin(x) + PI"),
        vec![ntok(0, 1), FToken::FnSin, FToken::LParen, FToken::Var, FToken::RParen, FToken::Plus, FToken::Pi]
    );
    assert_eq!(f_tokenize("e^2"), vec![FToken::ConstE, FToken::Caret, ntok(2, 3)]);
    assert_eq!(f_tokenize("Log(10) = y"), vec![FToken::FnLog, FToken::LParen, ntok(4, 6), FToken::RParen]);
    assert_eq!(
        f_tokenize("SQRT Cos tan LN X E"),
        vec![FToken::FnSqrt, FToken::FnCos, FToken::FnTan, FToken::FnLn, FToken::Var, FToken::ConstE]
    );
}

#[test]
fn tokenize_drops_unknown_words_and_bad_numbers() {
    assert_eq!(f_tokenize("sinx"), vec![]);
    assert_eq!(f_tokenize("sIn 1.2.3"), vec![]);
    assert_eq!(f_tokenize("pI*2"), vec![FToken::Star, ntok(3, 4)]);
    assert_eq!(f_tokenize(""), vec![]);
}

#[test]
fn parse_implicit_products() {
    assert_eq!(f_parse(&f_tokenize("2sin(x)")), Ok(FExpr::Mul(bx(num(0, 1)), bx(FExpr::Sin(bx(FExpr::Var))))));
    assert_eq!(f_parse(&f_tokenize("pi x")), Ok(FExpr::Mul(bx(FExpr::Pi), bx(FExpr::Var))));
    // after a product, a further factor is not taken in
    assert_eq!(f_parse(&f_tokenize("2pi e")), Ok(FExpr::Mul(bx(num(0, 1)), bx(FExpr::Pi))));
    // a variable is not followed by an implicit product
    assert_eq!(f_parse(&f_tokenize("x pi")), Ok(FExpr::Var));
    assert_eq!(f_parse(&f_tokenize("(1+2)(3)")), Ok(FExpr::Mul(bx(FExpr::Add(bx(num(1, 2)), bx(num(3, 4)))), bx(num(6, 7)))));
}

#[test]
fn parse_functions_signs_and_powers() {
    assert_eq!(f_parse(&f_tokenize("sqrt 9")), Ok(FExpr::Sqrt(bx(num(5, 6)))));
    assert_eq!(f_parse(&f_tokenize("-pi")), Ok(FExpr::Neg(bx(FExpr::Pi))));
    assert_eq!(f_parse(&f_tokenize("2^3^2")), Ok(FExpr::Pow(bx(num(0, 1)), bx(num(2, 3)))));
    assert_eq!(
        f_parse(&f_tokenize("ln(e) - log(100)/2")),
        Ok(FExpr::Sub(
            bx(FExpr::Ln(bx(FExpr::ConstE))),
            bx(FExpr::Div(bx(FExpr::Log(bx(num(12, 15)))), bx(num(17, 18)))),
        ))
    );
    assert_eq!(f_parse(&f_tokenize("cos -pi")), Ok(FExpr::Cos(bx(FExpr::Neg(bx(FExpr::Pi))))));
    assert_eq!(f_parse(&f_tokenize("tan(1)*e")), Ok(FExpr::Mul(bx(FExpr::Tan(bx(num(4, 5)))), bx(FExpr::ConstE))));
}

#[test]
fn f_parse_errors() {
    assert_eq!(f_parse(&f_tokenize("sin(")), Err(FError::UnexpectedToken));
    assert_eq!(f_parse(&f_tokenize("*")), Err(FError::UnexpectedToken));
    assert_eq!(f_parse(&f_tokenize("")), Err(FError::UnexpectedToken));
    assert_eq!(f_parse(&f_tokenize("(1")), Err(FError::ExpectedClose));
    assert_eq!(f_parse(&f_tokenize("sin(1")), Err(FError::ExpectedClose));
    assert_eq!(f_parse(&f_tokenize("(1)(2")), Err(FError::ExpectedClose));
}

#[test]
fn f_number_tokens_cover_numbers() {
    for e in ["2sin(3.5) + 10", "1.2.3pi", "sqrt(72)", "ln(.5)e", "\u{fc} 12"] {
        let b = e.as_bytes();
        for t in f_tokenize(e) {
            if let FToken::Num(sp) = t {
                assert!(sp.start < sp.end && sp.end <= b.len());
                let text = &b[sp.start..sp.end];
                assert!(text.iter().all(|c| c.is_ascii_digit() || *c == b'.'));
                assert!(text.iter().filter(|c| **c == b'.').count() <= 1);
            }
        }
    }
}
