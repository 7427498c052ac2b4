//! The front of the general simplifier: trimming the expression, choosing its
//! notation, and parsing it, or else the warning to show.

use vstd::prelude::*;
use vstd::string::{StringExecFns, StringSliceAdditionalSpecFns, StrSliceExecFns};
use super::simplifier::{g_lex, g_parse, g_tokenize, mentions_functions, p_expr, uses_functions, GError, GInstr};
use super::fn_expr::{f_lex, f_parse, f_tokenize, fp_expr, FError, FExpr};

verus! {

/// A character of Unicode's `White_Space` property.
pub open spec fn is_white_space(c: char) -> bool {
    let u = c as u32;
    ||| 9 <= u <= 13
    ||| u == 32
    ||| u == 0x85
    ||| u == 0xa0
    ||| u == 0x1680
    ||| 0x2000 <= u <= 0x200a
    ||| u == 0x2028
    ||| u == 0x2029
    ||| u == 0x202f
    ||| u == 0x205f
    ||| u == 0x3000
}

/// `s` without its leading white space.
pub open spec fn trim_start(s: Seq<char>) -> Seq<char>
    decreases s.len(),
{
    if s.len() > 0 && is_white_space(s[0]) {
        trim_start(s.drop_first())
    } else {
        s
    }
}

/// `s` without its trailing white space.
pub open spec fn trim_end(s: Seq<char>) -> Seq<char>
    decreases s.len(),
{
    if s.len() > 0 && is_white_space(s.last()) {
        trim_end(s.drop_last())
    } else {
        s
    }
}

/// `s` without leading and trailing white space.
pub open spec fn trimmed(s: Seq<char>) -> Seq<char> {
    trim_end(trim_start(s))
}

/// Removes leading and trailing white space with `str::trim`, which the
/// standard library documents as removing the characters of Unicode's
/// `White_Space` property from both ends.
#[verifier::external_body]
fn str_trim<'a>(s: &'a str) -> (r: &'a str)
    ensures
        r@ == trimmed(s@),
{
    s.trim()
}

/// The message of a syntax error of the function-aware notation.
pub open spec fn f_error_text(e: FError) -> Seq<char> {
    match e {
        FError::UnexpectedToken => "Unexpected token"@,
        FError::ExpectedClose => "Expected )"@,
    }
}

/// The message of a syntax error of a polynomial expression.
pub open spec fn g_error_text(e: GError) -> Seq<char> {
    match e {
        GError::UnexpectedToken => "Unexpected token"@,
        GError::ExpectedOpen => "Expected ("@,
        GError::ExpectedClose => "Expected )"@,
        GError::ExpectedExponent => "Expected exponent"@,
    }
}

/// The message of a syntax error of a polynomial expression.
pub fn g_error_message(e: GError) -> (r: &'static str)
    ensures
        r@ == g_error_text(e),
{
    match e {
        GError::UnexpectedToken => "Unexpected token",
        GError::ExpectedOpen => "Expected (",
        GError::ExpectedClose => "Expected )",
        GError::ExpectedExponent => "Expected exponent",
    }
}

/// The warning shown when a polynomial expression cannot be simplified.
pub fn parse_warning(msg: &str) -> (r: String)
    ensures
        r@ == "Parse error: "@ + msg@,
{
    let mut w = String::from_str("Parse error: ");
    w.append(msg);
    w
}

/// What the general simplifier is to do with an expression.
pub enum SimplifyPlan {
    /// Show this warning and nothing else.
    Warn(String),
    /// Evaluate this tree of the function-aware notation.
    Functions(FExpr),
    /// Run these steps on polynomials; when the error is there, the steps are
    /// those read before the syntax error, which is reported unless running
    /// them fails first.
    Polynomial(Vec<GInstr>, Option<GError>),
}

/// `p` is `Warn` with the text `w`.
pub open spec fn warns(p: SimplifyPlan, w: Seq<char>) -> bool {
    p matches SimplifyPlan::Warn(s) && s@ == w
}

/// The plan for the trimmed expression `text` with bytes `bytes`: an empty
/// expression asks for one; an expression in the function-aware notation is
/// parsed into a tree, or its syntax error shown; any other expression is
/// parsed into polynomial steps; an expression without tokens is empty.
pub open spec fn plan_is(text: Seq<char>, bytes: Seq<u8>, p: SimplifyPlan) -> bool {
    if text.len() == 0 {
        warns(p, "Enter an expression"@)
    } else if uses_functions(bytes) {
        let toks = f_lex(bytes, 0);
        if toks.len() == 0 {
            warns(p, "Empty expression"@)
        } else {
            match fp_expr(toks, 0) {
                Ok((e, _)) => p == SimplifyPlan::Functions(e),
                Err(x) => warns(p, "Error: "@ + f_error_text(x)),
            }
        }
    } else {
        let toks = g_lex(bytes, 0);
        if toks.len() == 0 {
            warns(p, "Empty expression"@)
        } else {
            p matches SimplifyPlan::Polynomial(prog, err) && prog@ == p_expr(toks, 0).0 && err == p_expr(toks, 0).2
        }
    }
}

/// Trims an expression and decides what the general simplifier does with it.
/// Number spans in the plan refer to the trimmed expression, which comes back
/// with it.
pub fn plan_simplify(expr: &str) -> (r: (&str, SimplifyPlan))
    ensures
        r.0@ == trimmed(expr@),
        plan_is(r.0@, r.0.spec_bytes(), r.1),
{
    let t = str_trim(expr);
    if t.unicode_len() == 0 {
        return (t, SimplifyPlan::Warn(String::from_str("Enter an expression")));
    }
    if mentions_functions(t) {
        let toks = f_tokenize(t);
        if toks.len() == 0 {
            return (t, SimplifyPlan::Warn(String::from_str("Empty expression")));
        }
        match f_parse(toks.as_slice()) {
            Ok(e) => (t, SimplifyPlan::Functions(e)),
            Err(x) => {
                let msg = match x {
                    FError::UnexpectedToken => "Unexpected token",
                    FError::ExpectedClose => "Expected )",
                };
                let mut w = String::from_str("Error: ");
                w.append(msg);
                (t, SimplifyPlan::Warn(w))
            },
        }
    } else {
        let toks = g_tokenize(t);
        if toks.len() == 0 {
            return (t, SimplifyPlan::Warn(String::from_str("Empty expression")));
        }
        let (prog, err) = g_parse(toks.as_slice());
        (t, SimplifyPlan::Polynomial(prog, err))
    }
}

} // verus!
