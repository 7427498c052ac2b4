use alg2a_tools::tools::fn_expr::FExpr;
use alg2a_tools::tools::plan::{g_error_message, parse_warning, plan_simplify, SimplifyPlan};
use alg2a_tools::tools::simplifier::{GError, GInstr, Span};

fn warning(e: &str) -> Option<String> {
    match plan_simplify(e).1 {
        SimplifyPlan::Warn(w) => Some(w),
        _ => None,
    }
}

#[test]
fn empty_and_blank_expressions() {
    assert_eq!(warning(""), Some("Enter an expression".to_string()));
    assert_eq!(warning(" \t \u{a0}\u{3000}"), Some("Enter an expression".to_string()));
    assert_eq!(warning("@@ ?"), Some("Empty expression".to_string()));
    assert_eq!(warning("ex"), Some("Empty expression".to_string()));
}

#[test]
fn trims_and_parses_polynomials() {
    let (t, plan) = plan_simplify("  2x+1 \u{2003}");
    assert_eq!(t, "2x+1");
    match plan {
        SimplifyPlan::Polynomial(prog, err) => {
            assert_eq!(err, None);
            assert_eq!(
                prog,
                vec![
                    GInstr::Term(Some(Span { start: 0, end: 1 }), None),
                    GInstr::Const(Span { start: 3, end: 4 }),
                    GInstr::Add,
                ]
            );
        }
        _ => panic!("expected a polynomial"),
    }
    match plan_simplify("(x").1 {
        SimplifyPlan::Polynomial(prog, err) => {
            assert_eq!(err, Some(GError::ExpectedClose));
            assert_eq!(prog, vec![GInstr::Term(None, None)]);
        }
        _ => panic!("expected a polynomial"),
    }
}

#[test]
fn function_notation() {
    match plan_simplify(" e ").1 {
        SimplifyPlan::Functions(tree) => assert_eq!(tree, FExpr::ConstE),
        _ => panic!("expected a tree"),
    }
    assert_eq!(warning("sin("), Some("Error: Unexpected token".to_string()));
    assert_eq!(warning("(pi"), Some("Error: Expected )".to_string()));
}

#[test]
fn warning_texts() {
    assert_eq!(parse_warning("Can't divide by poly"), "Parse error: Can't divide by poly");
    assert_eq!(parse_warning(g_error_message(GError::ExpectedExponent)), "Parse error: Expected exponent");
    assert_eq!(g_error_message(GError::UnexpectedToken), "Unexpected token");
    assert_eq!(g_error_message(GError::ExpectedOpen), "Expected (");
    assert_eq!(g_error_message(GError::ExpectedClose), "Expected )");
}
