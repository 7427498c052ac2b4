//! The function-aware notation of the general simplifier: expressions with
//! `sin`, `cos`, `tan`, `sqrt`, `ln`, `log`, the constants `pi` and `e`, the
//! variable `x`, and implicit products such as `2pi` or `3sin(x)`. This module
//! splits such an expression into tokens and parses them into a tree; numbers
//! stay the spans of the text they were written with.

use vstd::prelude::*;
use vstd::string::StringSliceAdditionalSpecFns;
use super::simplifier::{Span, is_num_byte, num_end, dots, lemma_num_end, num_span};

verus! {

/// A token of the function-aware notation.
#[derive(Clone, Copy, PartialEq, Eq, Structural, Debug)]
pub enum FToken {
    /// A number, written with the bytes of the span.
    Num(Span),
    Var,
    Pi,
    ConstE,
    FnSin,
    FnCos,
    FnTan,
    FnSqrt,
    FnLn,
    FnLog,
    Plus,
    Minus,
    Star,
    Slash,
    Caret,
    LParen,
    RParen,
}

/// An ASCII letter.
pub open spec fn is_letter(c: u8) -> bool {
    (65 <= c && c <= 90) || (97 <= c && c <= 122)
}

/// End of the run of letters that starts at `i`.
pub open spec fn word_end(s: Seq<u8>, i: int) -> int
    decreases s.len() - i,
{
    if 0 <= i < s.len() && is_letter(s[i]) {
        word_end(s, i + 1)
    } else {
        i
    }
}

/// The run of letters from `i` stays in bounds and stops at a non-letter.
pub proof fn lemma_word_end(s: Seq<u8>, i: int)
    requires
        0 <= i <= s.len(),
    ensures
        i <= word_end(s, i) <= s.len(),
        forall|k: int| i <= k < word_end(s, i) ==> is_letter(s[k]),
        word_end(s, i) < s.len() ==> !is_letter(s[word_end(s, i)]),
    decreases s.len() - i,
{
    if i < s.len() && is_letter(s[i]) {
        lemma_word_end(s, i + 1);
    }
}

/// The token a word stands for: a function or constant name written in lower
/// case, capitalised, or in upper case (`sin`, `Sin`, `SIN`), `e`/`E`, or
/// `x`/`X`. Other words stand for nothing.
pub open spec fn word_token(w: Seq<u8>) -> Option<FToken> {
    if w == seq![115u8, 105u8, 110u8] || w == seq![83u8, 105u8, 110u8] || w == seq![83u8, 73u8, 78u8] {
        Some(FToken::FnSin)
    } else if w == seq![99u8, 111u8, 115u8] || w == seq![67u8, 111u8, 115u8] || w == seq![67u8, 79u8, 83u8] {
        Some(FToken::FnCos)
    } else if w == seq![116u8, 97u8, 110u8] || w == seq![84u8, 97u8, 110u8] || w == seq![84u8, 65u8, 78u8] {
        Some(FToken::FnTan)
    } else if w == seq![115u8, 113u8, 114u8, 116u8] || w == seq![83u8, 113u8, 114u8, 116u8] || w == seq![
        83u8,
        81u8,
        82u8,
        84u8,
    ] {
        Some(FToken::FnSqrt)
    } else if w == seq![108u8, 110u8] || w == seq![76u8, 110u8] || w == seq![76u8, 78u8] {
        Some(FToken::FnLn)
    } else if w == seq![108u8, 111u8, 103u8] || w == seq![76u8, 111u8, 103u8] || w == seq![76u8, 79u8, 71u8] {
        Some(FToken::FnLog)
    } else if w == seq![112u8, 105u8] || w == seq![80u8, 105u8] || w == seq![80u8, 73u8] {
        Some(FToken::Pi)
    } else if w == seq![101u8] || w == seq![69u8] {
        Some(FToken::ConstE)
    } else if w == seq![120u8] || w == seq![88u8] {
        Some(FToken::Var)
    } else {
        None
    }
}

/// The token of a single operator or bracket byte.
pub open spec fn op_token(c: u8) -> Option<FToken> {
    if c == 43u8 {
        Some(FToken::Plus)
    } else if c == 45u8 {
        Some(FToken::Minus)
    } else if c == 42u8 {
        Some(FToken::Star)
    } else if c == 47u8 {
        Some(FToken::Slash)
    } else if c == 94u8 {
        Some(FToken::Caret)
    } else if c == 40u8 {
        Some(FToken::LParen)
    } else if c == 41u8 {
        Some(FToken::RParen)
    } else {
        None
    }
}

/// The tokens of `s` from byte `i` on. A run of digits and points is a number,
/// dropped when it holds more than one point; a run of letters is a word (see
/// `word_token`); spaces, `=` and other bytes are skipped.
pub open spec fn f_lex(s: Seq<u8>, i: int) -> Seq<FToken>
    decreases s.len() - i,
{
    if i < 0 || i >= s.len() {
        seq![]
    } else {
        let c = s[i];
        if is_num_byte(c) {
            let j = num_end(s, i);
            proof {
                lemma_num_end(s, i);
            }
            (if dots(s, i, j) <= 1 { seq![FToken::Num(Span { start: i as usize, end: j as usize })] } else { seq![] })
                + f_lex(s, j)
        } else if is_letter(c) {
            let j = word_end(s, i);
            proof {
                lemma_word_end(s, i);
            }
            (match word_token(s.subrange(i, j)) {
                Some(tk) => seq![tk],
                None => seq![],
            }) + f_lex(s, j)
        } else {
            match op_token(c) {
                Some(tk) => seq![tk] + f_lex(s, i + 1),
                None => f_lex(s, i + 1),
            }
        }
    }
}

/// Whether the bytes `a` are the bytes `b`.
fn same_bytes(a: &[u8], b: &[u8]) -> (r: bool)
    ensures
        r == (a@ == b@),
{
    if a.len() != b.len() {
        return false;
    }
    let mut i: usize = 0;
    while i < a.len()
        invariant
            a@.len() == b@.len(),
            i <= a@.len(),
            forall|k: int| 0 <= k < i ==> a@[k] == b@[k],
        decreases a@.len() - i,
    {
        if a[i] != b[i] {
            assert(a@[i as int] != b@[i as int]);
            return false;
        }
        i = i + 1;
    }
    assert(a@ =~= b@);
    true
}

/// Whether `w` is one of the three spellings.
fn spelled(w: &[u8], a: &[u8], b: &[u8], c: &[u8]) -> (r: bool)
    ensures
        r == (w@ == a@ || w@ == b@ || w@ == c@),
{
    same_bytes(w, a) || same_bytes(w, b) || same_bytes(w, c)
}

/// The token a word stands for (see `word_token`).
fn word_to_token(w: &[u8]) -> (o: Option<FToken>)
    ensures
        o == word_token(w@),
{
    let sin_l: [u8; 3] = [115, 105, 110];
    let sin_c: [u8; 3] = [83, 105, 110];
    let sin_u: [u8; 3] = [83, 73, 78];
    let cos_l: [u8; 3] = [99, 111, 115];
    let cos_c: [u8; 3] = [67, 111, 115];
    let cos_u: [u8; 3] = [67, 79, 83];
    let tan_l: [u8; 3] = [116, 97, 110];
    let tan_c: [u8; 3] = [84, 97, 110];
    let tan_u: [u8; 3] = [84, 65, 78];
    let sqrt_l: [u8; 4] = [115, 113, 114, 116];
    let sqrt_c: [u8; 4] = [83, 113, 114, 116];
    let sqrt_u: [u8; 4] = [83, 81, 82, 84];
    let ln_l: [u8; 2] = [108, 110];
    let ln_c: [u8; 2] = [76, 110];
    let ln_u: [u8; 2] = [76, 78];
    let log_l: [u8; 3] = [108, 111, 103];
    let log_c: [u8; 3] = [76, 111, 103];
    let log_u: [u8; 3] = [76, 79, 71];
    let pi_l: [u8; 2] = [112, 105];
    let pi_c: [u8; 2] = [80, 105];
    let pi_u: [u8; 2] = [80, 73];
    let e_l: [u8; 1] = [101];
    let e_u: [u8; 1] = [69];
    let x_l: [u8; 1] = [120];
    let x_u: [u8; 1] = [88];
    proof {
        assert(sin_l@ =~= seq![115u8, 105u8, 110u8]);
        assert(sin_c@ =~= seq![83u8, 105u8, 110u8]);
        assert(sin_u@ =~= seq![83u8, 73u8, 78u8]);
        assert(cos_l@ =~= seq![99u8, 111u8, 115u8]);
        assert(cos_c@ =~= seq![67u8, 111u8, 115u8]);
        assert(cos_u@ =~= seq![67u8, 79u8, 83u8]);
        assert(tan_l@ =~= seq![116u8, 97u8, 110u8]);
        assert(tan_c@ =~= seq![84u8, 97u8, 110u8]);
        assert(tan_u@ =~= seq![84u8, 65u8, 78u8]);
        assert(sqrt_l@ =~= seq![115u8, 113u8, 114u8, 116u8]);
        assert(sqrt_c@ =~= seq![83u8, 113u8, 114u8, 116u8]);
        assert(sqrt_u@ =~= seq![83u8, 81u8, 82u8, 84u8]);
        assert(ln_l@ =~= seq![108u8, 110u8]);
        assert(ln_c@ =~= seq![76u8, 110u8]);
        assert(ln_u@ =~= seq![76u8, 78u8]);
        assert(log_l@ =~= seq![108u8, 111u8, 103u8]);
        assert(log_c@ =~= seq![76u8, 111u8, 103u8]);
        assert(log_u@ =~= seq![76u8, 79u8, 71u8]);
        assert(pi_l@ =~= seq![112u8, 105u8]);
        assert(pi_c@ =~= seq![80u8, 105u8]);
        assert(pi_u@ =~= seq![80u8, 73u8]);
        assert(e_l@ =~= seq![101u8]);
        assert(e_u@ =~= seq![69u8]);
        assert(x_l@ =~= seq![120u8]);
        assert(x_u@ =~= seq![88u8]);
    }
    if spelled(w, sin_l.as_slice(), sin_c.as_slice(), sin_u.as_slice()) {
        Some(FToken::FnSin)
    } else if spelled(w, cos_l.as_slice(), cos_c.as_slice(), cos_u.as_slice()) {
        Some(FToken::FnCos)
    } else if spelled(w, tan_l.as_slice(), tan_c.as_slice(), tan_u.as_slice()) {
        Some(FToken::FnTan)
    } else if spelled(w, sqrt_l.as_slice(), sqrt_c.as_slice(), sqrt_u.as_slice()) {
        Some(FToken::FnSqrt)
    } else if spelled(w, ln_l.as_slice(), ln_c.as_slice(), ln_u.as_slice()) {
        Some(FToken::FnLn)
    } else if spelled(w, log_l.as_slice(), log_c.as_slice(), log_u.as_slice()) {
        Some(FToken::FnLog)
    } else if spelled(w, pi_l.as_slice(), pi_c.as_slice(), pi_u.as_slice()) {
        Some(FToken::Pi)
    } else if same_bytes(w, e_l.as_slice()) || same_bytes(w, e_u.as_slice()) {
        Some(FToken::ConstE)
    } else if same_bytes(w, x_l.as_slice()) || same_bytes(w, x_u.as_slice()) {
        Some(FToken::Var)
    } else {
        None
    }
}

/// Every number token of `toks` covers a number of `s`.
pub open spec fn f_spans_ok(s: Seq<u8>, toks: Seq<FToken>) -> bool {
    forall|k: int|
        0 <= k < toks.len() ==> match #[trigger] toks[k] {
            FToken::Num(sp) => num_span(s, sp),
            _ => true,
        }
}

/// The number tokens of an expression cover numbers of it: each span lies
/// within the text and holds only digits and at most one point.
pub proof fn lemma_f_lex_spans(s: Seq<u8>, i: int)
    requires
        0 <= i <= s.len(),
        s.len() <= usize::MAX,
    ensures
        f_spans_ok(s, f_lex(s, i)),
    decreases s.len() - i,
{
    if i < s.len() {
        let c = s[i];
        let (head, j): (Seq<FToken>, int) = if is_num_byte(c) {
            let j = num_end(s, i);
            lemma_num_end(s, i);
            lemma_num_end(s, i + 1);
            (if dots(s, i, j) <= 1 { seq![FToken::Num(Span { start: i as usize, end: j as usize })] } else { seq![] }, j)
        } else if is_letter(c) {
            let j = word_end(s, i);
            lemma_word_end(s, i);
            lemma_word_end(s, i + 1);
            (match word_token(s.subrange(i, j)) {
                Some(tk) => seq![tk],
                None => seq![],
            }, j)
        } else {
            (match op_token(c) {
                Some(tk) => seq![tk],
                None => seq![],
            }, i + 1)
        };
        assert(f_lex(s, i) == head + f_lex(s, j));
        lemma_f_lex_spans(s, j);
        let rest = f_lex(s, j);
        assert forall|k: int| 0 <= k < (head + rest).len() implies match #[trigger] (head + rest)[k] {
            FToken::Num(sp) => num_span(s, sp),
            _ => true,
        } by {
            if k >= head.len() {
                assert((head + rest)[k] == rest[k - head.len()]);
            }
        }
    }
}

/// Splits an expression of the function-aware notation into tokens. Each
/// number token covers a number of the expression.
pub fn f_tokenize(expr: &str) -> (toks: Vec<FToken>)
    ensures
        toks@ == f_lex(expr.spec_bytes(), 0),
        f_spans_ok(expr.spec_bytes(), toks@),
{
    let bytes = expr.as_bytes();
    let n = bytes.len();
    proof {
        lemma_f_lex_spans(expr.spec_bytes(), 0);
    }
    let mut toks: Vec<FToken> = Vec::new();
    let mut i: usize = 0;
    while i < n
        invariant
            n == bytes@.len(),
            bytes@ == expr.spec_bytes(),
            i <= n,
            toks@ + f_lex(bytes@, i as int) == f_lex(bytes@, 0),
        decreases n - i,
    {
        let c = bytes[i];
        let ghost before = toks@;
        let ghost start = i as int;
        if (48 <= c && c <= 57) || c == 46 {
            let s0 = i;
            let mut ndots: usize = 0;
            while i < n && ((48 <= bytes[i] && bytes[i] <= 57) || bytes[i] == 46)
                invariant
                    n == bytes@.len(),
                    s0 <= i <= n,
                    ndots == dots(bytes@, s0 as int, i as int),
                    ndots <= i - s0,
                    num_end(bytes@, s0 as int) == num_end(bytes@, i as int),
                decreases n - i,
            {
                if bytes[i] == 46 {
                    ndots = ndots + 1;
                }
                i = i + 1;
            }
            proof {
                lemma_num_end(bytes@, s0 as int);
            }
            if ndots <= 1 {
                toks.push(FToken::Num(Span { start: s0, end: i }));
            }
            proof {
                assert(toks@ + f_lex(bytes@, i as int) =~= before + f_lex(bytes@, start));
            }
        } else if (65 <= c && c <= 90) || (97 <= c && c <= 122) {
            let s0 = i;
            while i < n && ((65 <= bytes[i] && bytes[i] <= 90) || (97 <= bytes[i] && bytes[i] <= 122))
                invariant
                    n == bytes@.len(),
                    s0 <= i <= n,
                    word_end(bytes@, s0 as int) == word_end(bytes@, i as int),
                decreases n - i,
            {
                i = i + 1;
            }
            proof {
                lemma_word_end(bytes@, s0 as int);
            }
            let w = vstd::slice::slice_subrange(bytes, s0, i);
            match word_to_token(w) {
                Some(tk) => {
                    toks.push(tk);
                },
                None => {},
            }
            proof {
                assert(w@ =~= bytes@.subrange(start, i as int));
                assert(toks@ + f_lex(bytes@, i as int) =~= before + f_lex(bytes@, start));
            }
        } else {
            let t: Option<FToken> = if c == 43 {
                Some(FToken::Plus)
            } else if c == 45 {
                Some(FToken::Minus)
            } else if c == 42 {
                Some(FToken::Star)
            } else if c == 47 {
                Some(FToken::Slash)
            } else if c == 94 {
                Some(FToken::Caret)
            } else if c == 40 {
                Some(FToken::LParen)
            } else if c == 41 {
                Some(FToken::RParen)
            } else {
                None
            };
            match t {
                Some(tk) => {
                    toks.push(tk);
                },
                None => {},
            }
            i = i + 1;
            proof {
                assert(toks@ + f_lex(bytes@, i as int) =~= before + f_lex(bytes@, start));
            }
        }
    }
    proof {
        assert(toks@ =~= toks@ + f_lex(bytes@, i as int));
    }
    toks
}


/// An expression tree of the function-aware notation.
#[derive(PartialEq, Eq, Debug)]
pub enum FExpr {
    /// A number, written with the bytes of the span.
    Num(Span),
    Var,
    Pi,
    ConstE,
    Neg(Box<FExpr>),
    Add(Box<FExpr>, Box<FExpr>),
    Sub(Box<FExpr>, Box<FExpr>),
    Mul(Box<FExpr>, Box<FExpr>),
    Div(Box<FExpr>, Box<FExpr>),
    Pow(Box<FExpr>, Box<FExpr>),
    Sin(Box<FExpr>),
    Cos(Box<FExpr>),
    Tan(Box<FExpr>),
    Sqrt(Box<FExpr>),
    Ln(Box<FExpr>),
    Log(Box<FExpr>),
}

/// Why an expression of the function-aware notation does not parse.
#[derive(Clone, Copy, PartialEq, Eq, Structural, Debug)]
pub enum FError {
    UnexpectedToken,
    ExpectedClose,
}

/// The token at `i`, if any.
pub open spec fn ftok(t: Seq<FToken>, i: int) -> Option<FToken> {
    if 0 <= i < t.len() {
        Some(t[i])
    } else {
        None
    }
}

/// A token that may follow a number or constant to form an implicit product.
pub open spec fn starts_factor(k: FToken) -> bool {
    match k {
        FToken::FnSin | FToken::FnCos | FToken::FnTan | FToken::FnSqrt | FToken::FnLn | FToken::FnLog
        | FToken::Var | FToken::LParen | FToken::Pi | FToken::ConstE => true,
        _ => false,
    }
}

/// A number or constant, which an implicit product may follow.
pub open spec fn is_atom(e: FExpr) -> bool {
    match e {
        FExpr::Num(_) | FExpr::Pi | FExpr::ConstE => true,
        _ => false,
    }
}

// The grammar. Each parser gives the tree it read and the position after it,
// or the error that stopped it.

/// expr := ['-'] term (('+' | '-') term)*
pub open spec fn fp_expr(t: Seq<FToken>, pos: int) -> Result<(FExpr, int), FError>
    decreases rem_f(t, pos), 7nat,
{
    let neg = ftok(t, pos) == Some(FToken::Minus);
    let p0 = if neg { pos + 1 } else { pos };
    match fp_term(t, p0) {
        Err(e) => Err(e),
        Ok((a, p1)) => {
            let left = if neg { FExpr::Neg(Box::new(a)) } else { a };
            if p1 < pos {
                Ok((left, p1))
            } else {
                fp_expr_rest(t, p1, left)
            }
        },
    }
}

/// The `(('+' | '-') term)*` tail of an expression, applied to `left`.
pub open spec fn fp_expr_rest(t: Seq<FToken>, pos: int, left: FExpr) -> Result<(FExpr, int), FError>
    decreases rem_f(t, pos), 6nat,
{
    if ftok(t, pos) == Some(FToken::Plus) || ftok(t, pos) == Some(FToken::Minus) {
        match fp_term(t, pos + 1) {
            Err(e) => Err(e),
            Ok((r, p1)) => {
                let e = if ftok(t, pos) == Some(FToken::Plus) {
                    FExpr::Add(Box::new(left), Box::new(r))
                } else {
                    FExpr::Sub(Box::new(left), Box::new(r))
                };
                if p1 <= pos {
                    Ok((e, p1))
                } else {
                    fp_expr_rest(t, p1, e)
                }
            },
        }
    } else {
        Ok((left, pos))
    }
}

/// term := power (('*' | '/') power | implicit product)*
pub open spec fn fp_term(t: Seq<FToken>, pos: int) -> Result<(FExpr, int), FError>
    decreases rem_f(t, pos), 5nat,
{
    match fp_power(t, pos) {
        Err(e) => Err(e),
        Ok((a, p1)) => if p1 < pos {
            Ok((a, p1))
        } else {
            fp_term_rest(t, p1, a)
        },
    }
}

/// The tail of a term, applied to `left`: `*` or `/` and a power, or, right
/// after a number or constant, a power that starts with a function, the
/// variable, a bracket or a constant, multiplied in.
pub open spec fn fp_term_rest(t: Seq<FToken>, pos: int, left: FExpr) -> Result<(FExpr, int), FError>
    decreases rem_f(t, pos), 4nat,
{
    match ftok(t, pos) {
        Some(k) => {
            if k == FToken::Star || k == FToken::Slash {
                match fp_power(t, pos + 1) {
                    Err(e) => Err(e),
                    Ok((r, p1)) => {
                        let e = if k == FToken::Star {
                            FExpr::Mul(Box::new(left), Box::new(r))
                        } else {
                            FExpr::Div(Box::new(left), Box::new(r))
                        };
                        if p1 <= pos {
                            Ok((e, p1))
                        } else {
                            fp_term_rest(t, p1, e)
                        }
                    },
                }
            } else if starts_factor(k) && is_atom(left) {
                match fp_power(t, pos) {
                    Err(e) => Err(e),
                    Ok((r, p1)) => {
                        let e = FExpr::Mul(Box::new(left), Box::new(r));
                        if p1 <= pos {
                            Ok((e, p1))
                        } else {
                            fp_term_rest(t, p1, e)
                        }
                    },
                }
            } else {
                Ok((left, pos))
            }
        },
        None => Ok((left, pos)),
    }
}

/// power := primary ['^' primary]
pub open spec fn fp_power(t: Seq<FToken>, pos: int) -> Result<(FExpr, int), FError>
    decreases rem_f(t, pos), 3nat,
{
    match fp_primary(t, pos) {
        Err(e) => Err(e),
        Ok((b, p1)) => {
            if ftok(t, p1) == Some(FToken::Caret) && p1 >= pos {
                match fp_primary(t, p1 + 1) {
                    Err(e) => Err(e),
                    Ok((x, p2)) => Ok((FExpr::Pow(Box::new(b), Box::new(x)), p2)),
                }
            } else {
                Ok((b, p1))
            }
        },
    }
}

/// The tree of a function applied to its argument.
pub open spec fn apply_fn(k: FToken, a: FExpr) -> FExpr {
    match k {
        FToken::FnSin => FExpr::Sin(Box::new(a)),
        FToken::FnCos => FExpr::Cos(Box::new(a)),
        FToken::FnTan => FExpr::Tan(Box::new(a)),
        FToken::FnSqrt => FExpr::Sqrt(Box::new(a)),
        FToken::FnLn => FExpr::Ln(Box::new(a)),
        _ => FExpr::Log(Box::new(a)),
    }
}

/// A function name.
pub open spec fn is_fn(k: FToken) -> bool {
    match k {
        FToken::FnSin | FToken::FnCos | FToken::FnTan | FToken::FnSqrt | FToken::FnLn | FToken::FnLog => true,
        _ => false,
    }
}

/// primary := number | 'pi' | 'e' | 'x' | '-' primary | '(' expr ')' ['(' expr ')']
///          | function fn_arg
pub open spec fn fp_primary(t: Seq<FToken>, pos: int) -> Result<(FExpr, int), FError>
    decreases rem_f(t, pos), 2nat,
{
    match ftok(t, pos) {
        Some(FToken::Num(n)) => Ok((FExpr::Num(n), pos + 1)),
        Some(FToken::Pi) => Ok((FExpr::Pi, pos + 1)),
        Some(FToken::ConstE) => Ok((FExpr::ConstE, pos + 1)),
        Some(FToken::Var) => Ok((FExpr::Var, pos + 1)),
        Some(FToken::Minus) => match fp_primary(t, pos + 1) {
            Err(e) => Err(e),
            Ok((i, p)) => Ok((FExpr::Neg(Box::new(i)), p)),
        },
        Some(FToken::LParen) => match fp_expr(t, pos + 1) {
            Err(e) => Err(e),
            Ok((inner, p1)) => {
                if ftok(t, p1) != Some(FToken::RParen) {
                    Err(FError::ExpectedClose)
                } else if ftok(t, p1 + 1) == Some(FToken::LParen) && p1 >= pos {
                    match fp_expr(t, p1 + 2) {
                        Err(e) => Err(e),
                        Ok((right, p2)) => if ftok(t, p2) != Some(FToken::RParen) {
                            Err(FError::ExpectedClose)
                        } else {
                            Ok((FExpr::Mul(Box::new(inner), Box::new(right)), p2 + 1))
                        },
                    }
                } else {
                    Ok((inner, p1 + 1))
                }
            },
        },
        Some(k) => if is_fn(k) {
            match fp_fn_arg(t, pos + 1) {
                Err(e) => Err(e),
                Ok((a, p)) => Ok((apply_fn(k, a), p)),
            }
        } else {
            Err(FError::UnexpectedToken)
        },
        None => Err(FError::UnexpectedToken),
    }
}

/// fn_arg := '(' expr ')' | primary
pub open spec fn fp_fn_arg(t: Seq<FToken>, pos: int) -> Result<(FExpr, int), FError>
    decreases rem_f(t, pos), 3nat,
{
    if ftok(t, pos) == Some(FToken::LParen) {
        match fp_expr(t, pos + 1) {
            Err(e) => Err(e),
            Ok((inner, p1)) => if ftok(t, p1) != Some(FToken::RParen) {
                Err(FError::ExpectedClose)
            } else {
                Ok((inner, p1 + 1))
            },
        }
    } else {
        fp_primary(t, pos)
    }
}

/// Tokens left from `pos` on (more than all of them for a position before the start).
pub open spec fn rem_f(t: Seq<FToken>, pos: int) -> nat {
    if pos < t.len() {
        (t.len() - pos) as nat
    } else {
        0
    }
}


/// What a parser call must deliver: on success the grammar's tree and
/// position, in bounds, past `pos` when `strict`; on failure the grammar's
/// error.
spec fn fparsed(
    t: Seq<FToken>,
    pos: int,
    s: Result<(FExpr, int), FError>,
    r: Result<(FExpr, usize), FError>,
    strict: bool,
) -> bool {
    match r {
        Ok((e, p)) => s == Ok::<(FExpr, int), FError>((e, p as int)) && pos <= p <= t.len() && (strict ==> pos < p),
        Err(x) => s == Err::<(FExpr, int), FError>(x),
    }
}

/// The token at `i`, if any.
fn ftok_at(t: &[FToken], i: usize) -> (o: Option<FToken>)
    ensures
        o == ftok(t@, i as int),
        t@.len() <= usize::MAX,
{
    if i < t.len() {
        Some(t[i])
    } else {
        None
    }
}

fn factor_start(k: FToken) -> (b: bool)
    ensures
        b == starts_factor(k),
{
    match k {
        FToken::FnSin | FToken::FnCos | FToken::FnTan | FToken::FnSqrt | FToken::FnLn | FToken::FnLog
        | FToken::Var | FToken::LParen | FToken::Pi | FToken::ConstE => true,
        _ => false,
    }
}

fn atom(e: &FExpr) -> (b: bool)
    ensures
        b == is_atom(*e),
{
    match e {
        FExpr::Num(_) | FExpr::Pi | FExpr::ConstE => true,
        _ => false,
    }
}

fn fn_token(k: FToken) -> (b: bool)
    ensures
        b == is_fn(k),
{
    match k {
        FToken::FnSin | FToken::FnCos | FToken::FnTan | FToken::FnSqrt | FToken::FnLn | FToken::FnLog => true,
        _ => false,
    }
}

fn apply(k: FToken, a: FExpr) -> (e: FExpr)
    ensures
        e == apply_fn(k, a),
{
    match k {
        FToken::FnSin => FExpr::Sin(Box::new(a)),
        FToken::FnCos => FExpr::Cos(Box::new(a)),
        FToken::FnTan => FExpr::Tan(Box::new(a)),
        FToken::FnSqrt => FExpr::Sqrt(Box::new(a)),
        FToken::FnLn => FExpr::Ln(Box::new(a)),
        _ => FExpr::Log(Box::new(a)),
    }
}

fn fparse_expr(t: &[FToken], pos: usize) -> (r: Result<(FExpr, usize), FError>)
    requires
        pos <= t@.len(),
    ensures
        fparsed(t@, pos as int, fp_expr(t@, pos as int), r, true),
    decreases rem_f(t@, pos as int), 7nat,
{
    let neg = matches!(ftok_at(t, pos), Some(FToken::Minus));
    let p0 = if neg { pos + 1 } else { pos };
    match fparse_term(t, p0) {
        Err(e) => Err(e),
        Ok((a, p1)) => {
            let left = if neg { FExpr::Neg(Box::new(a)) } else { a };
            fparse_expr_rest(t, p1, left)
        },
    }
}

fn fparse_expr_rest(t: &[FToken], pos: usize, left: FExpr) -> (r: Result<(FExpr, usize), FError>)
    requires
        pos <= t@.len(),
    ensures
        fparsed(t@, pos as int, fp_expr_rest(t@, pos as int, left), r, false),
    decreases rem_f(t@, pos as int), 6nat,
{
    let k = ftok_at(t, pos);
    let is_plus = matches!(k, Some(FToken::Plus));
    let is_minus = matches!(k, Some(FToken::Minus));
    if is_plus || is_minus {
        match fparse_term(t, pos + 1) {
            Err(e) => Err(e),
            Ok((r, p1)) => {
                let e = if is_plus {
                    FExpr::Add(Box::new(left), Box::new(r))
                } else {
                    FExpr::Sub(Box::new(left), Box::new(r))
                };
                fparse_expr_rest(t, p1, e)
            },
        }
    } else {
        Ok((left, pos))
    }
}

fn fparse_term(t: &[FToken], pos: usize) -> (r: Result<(FExpr, usize), FError>)
    requires
        pos <= t@.len(),
    ensures
        fparsed(t@, pos as int, fp_term(t@, pos as int), r, true),
    decreases rem_f(t@, pos as int), 5nat,
{
    match fparse_power(t, pos) {
        Err(e) => Err(e),
        Ok((a, p1)) => fparse_term_rest(t, p1, a),
    }
}

fn fparse_term_rest(t: &[FToken], pos: usize, left: FExpr) -> (r: Result<(FExpr, usize), FError>)
    requires
        pos <= t@.len(),
    ensures
        fparsed(t@, pos as int, fp_term_rest(t@, pos as int, left), r, false),
    decreases rem_f(t@, pos as int), 4nat,
{
    match ftok_at(t, pos) {
        Some(k) => {
            let is_star = matches!(k, FToken::Star);
            let is_slash = matches!(k, FToken::Slash);
            if is_star || is_slash {
                match fparse_power(t, pos + 1) {
                    Err(e) => Err(e),
                    Ok((r, p1)) => {
                        let e = if is_star {
                            FExpr::Mul(Box::new(left), Box::new(r))
                        } else {
                            FExpr::Div(Box::new(left), Box::new(r))
                        };
                        fparse_term_rest(t, p1, e)
                    },
                }
            } else if factor_start(k) && atom(&left) {
                match fparse_power(t, pos) {
                    Err(e) => Err(e),
                    Ok((r, p1)) => {
                        let e = FExpr::Mul(Box::new(left), Box::new(r));
                        fparse_term_rest(t, p1, e)
                    },
                }
            } else {
                Ok((left, pos))
            }
        },
        None => Ok((left, pos)),
    }
}

fn fparse_power(t: &[FToken], pos: usize) -> (r: Result<(FExpr, usize), FError>)
    requires
        pos <= t@.len(),
    ensures
        fparsed(t@, pos as int, fp_power(t@, pos as int), r, true),
    decreases rem_f(t@, pos as int), 3nat,
{
    match fparse_primary(t, pos) {
        Err(e) => Err(e),
        Ok((b, p1)) => {
            if matches!(ftok_at(t, p1), Some(FToken::Caret)) {
                match fparse_primary(t, p1 + 1) {
                    Err(e) => Err(e),
                    Ok((x, p2)) => Ok((FExpr::Pow(Box::new(b), Box::new(x)), p2)),
                }
            } else {
                Ok((b, p1))
            }
        },
    }
}

#[verifier::spinoff_prover]
fn fparse_primary(t: &[FToken], pos: usize) -> (r: Result<(FExpr, usize), FError>)
    requires
        pos <= t@.len(),
    ensures
        fparsed(t@, pos as int, fp_primary(t@, pos as int), r, true),
    decreases rem_f(t@, pos as int), 2nat,
{
    match ftok_at(t, pos) {
        Some(FToken::Num(n)) => Ok((FExpr::Num(n), pos + 1)),
        Some(FToken::Pi) => Ok((FExpr::Pi, pos + 1)),
        Some(FToken::ConstE) => Ok((FExpr::ConstE, pos + 1)),
        Some(FToken::Var) => Ok((FExpr::Var, pos + 1)),
        Some(FToken::Minus) => match fparse_primary(t, pos + 1) {
            Err(e) => Err(e),
            Ok((i, p)) => Ok((FExpr::Neg(Box::new(i)), p)),
        },
        Some(FToken::LParen) => match fparse_expr(t, pos + 1) {
            Err(e) => Err(e),
            Ok((inner, p1)) => {
                if !matches!(ftok_at(t, p1), Some(FToken::RParen)) {
                    Err(FError::ExpectedClose)
                } else if matches!(ftok_at(t, p1 + 1), Some(FToken::LParen)) {
                    match fparse_expr(t, p1 + 2) {
                        Err(e) => Err(e),
                        Ok((right, p2)) => if !matches!(ftok_at(t, p2), Some(FToken::RParen)) {
                            Err(FError::ExpectedClose)
                        } else {
                            Ok((FExpr::Mul(Box::new(inner), Box::new(right)), p2 + 1))
                        },
                    }
                } else {
                    Ok((inner, p1 + 1))
                }
            },
        },
        Some(k) => if fn_token(k) {
            match fparse_fn_arg(t, pos + 1) {
                Err(e) => Err(e),
                Ok((a, p)) => Ok((apply(k, a), p)),
            }
        } else {
            Err(FError::UnexpectedToken)
        },
        None => Err(FError::UnexpectedToken),
    }
}

fn fparse_fn_arg(t: &[FToken], pos: usize) -> (r: Result<(FExpr, usize), FError>)
    requires
        pos <= t@.len(),
    ensures
        fparsed(t@, pos as int, fp_fn_arg(t@, pos as int), r, true),
    decreases rem_f(t@, pos as int), 3nat,
{
    if matches!(ftok_at(t, pos), Some(FToken::LParen)) {
        match fparse_expr(t, pos + 1) {
            Err(e) => Err(e),
            Ok((inner, p1)) => if !matches!(ftok_at(t, p1), Some(FToken::RParen)) {
                Err(FError::ExpectedClose)
            } else {
                Ok((inner, p1 + 1))
            },
        }
    } else {
        fparse_primary(t, pos)
    }
}

/// Parses an expression of the function-aware notation into a tree, or the
/// error that stops it. Tokens after a complete expression are ignored.
pub fn f_parse(toks: &[FToken]) -> (r: Result<FExpr, FError>)
    ensures
        match (r, fp_expr(toks@, 0)) {
            (Ok(e), Ok((e2, _))) => e == e2,
            (Err(x), Err(y)) => x == y,
            _ => false,
        },
{
    match fparse_expr(toks, 0) {
        Ok((e, _)) => Ok(e),
        Err(x) => Err(x),
    }
}

/// A number, `pi` or `e` followed directly by a function name, the variable,
/// an opening bracket, `pi` or `e` is multiplied by the power that token
/// starts, and the term goes on after it.
pub proof fn lemma_implicit_product(t: Seq<FToken>, pos: int, left: FExpr)
    requires
        left is Num || left == FExpr::Pi || left == FExpr::ConstE,
        ftok(t, pos) == Some(FToken::FnSin) || ftok(t, pos) == Some(FToken::FnCos)
            || ftok(t, pos) == Some(FToken::FnTan) || ftok(t, pos) == Some(FToken::FnSqrt)
            || ftok(t, pos) == Some(FToken::FnLn) || ftok(t, pos) == Some(FToken::FnLog)
            || ftok(t, pos) == Some(FToken::Var) || ftok(t, pos) == Some(FToken::LParen)
            || ftok(t, pos) == Some(FToken::Pi) || ftok(t, pos) == Some(FToken::ConstE),
    ensures
        fp_term_rest(t, pos, left) == (match fp_power(t, pos) {
            Err(e) => Err(e),
            Ok((r, p1)) => if p1 <= pos {
                Ok((FExpr::Mul(Box::new(left), Box::new(r)), p1))
            } else {
                fp_term_rest(t, p1, FExpr::Mul(Box::new(left), Box::new(r)))
            },
        }),
{
}

/// A number followed by a function applied to a number is their product,
/// and all three tokens are read: `2 sqrt 9` is `2 * sqrt(9)`.
pub proof fn lemma_number_times_function(n: Span, k: FToken, m: Span)
    requires
        k == FToken::FnSin || k == FToken::FnCos || k == FToken::FnTan || k == FToken::FnSqrt
            || k == FToken::FnLn || k == FToken::FnLog,
    ensures
        fp_expr(seq![FToken::Num(n), k, FToken::Num(m)], 0) == Ok::<(FExpr, int), FError>((
            FExpr::Mul(Box::new(FExpr::Num(n)), Box::new(apply_fn(k, FExpr::Num(m)))),
            3int,
        )),
        k == FToken::FnSqrt ==> fp_expr(seq![FToken::Num(n), k, FToken::Num(m)], 0) == Ok::<(FExpr, int), FError>((
            FExpr::Mul(Box::new(FExpr::Num(n)), Box::new(FExpr::Sqrt(Box::new(FExpr::Num(m))))),
            3int,
        )),
{
    let t = seq![FToken::Num(n), k, FToken::Num(m)];
    let f = apply_fn(k, FExpr::Num(m));
    let prod = FExpr::Mul(Box::new(FExpr::Num(n)), Box::new(f));
    assert(fp_primary(t, 0) == Ok::<(FExpr, int), FError>((FExpr::Num(n), 1int)));
    assert(fp_power(t, 0) == Ok::<(FExpr, int), FError>((FExpr::Num(n), 1int)));
    assert(fp_primary(t, 2) == Ok::<(FExpr, int), FError>((FExpr::Num(m), 3int)));
    assert(fp_fn_arg(t, 2) == Ok::<(FExpr, int), FError>((FExpr::Num(m), 3int)));
    assert(fp_primary(t, 1) == Ok::<(FExpr, int), FError>((f, 3int)));
    assert(fp_power(t, 1) == Ok::<(FExpr, int), FError>((f, 3int)));
    assert(fp_term_rest(t, 3, prod) == Ok::<(FExpr, int), FError>((prod, 3int)));
    assert(fp_term_rest(t, 1, FExpr::Num(n)) == Ok::<(FExpr, int), FError>((prod, 3int)));
    assert(fp_term(t, 0) == Ok::<(FExpr, int), FError>((prod, 3int)));
    assert(fp_expr_rest(t, 3, prod) == Ok::<(FExpr, int), FError>((prod, 3int)));
}

/// A number followed by the variable, `pi` or `e` is their product, and every
/// token is read: `3x`, `2pi`, `2e`.
pub proof fn lemma_number_times_atom(n: Span)
    ensures
        fp_expr(seq![FToken::Num(n), FToken::Var], 0) == Ok::<(FExpr, int), FError>((
            FExpr::Mul(Box::new(FExpr::Num(n)), Box::new(FExpr::Var)), 2int)),
        fp_expr(seq![FToken::Num(n), FToken::Pi], 0) == Ok::<(FExpr, int), FError>((
            FExpr::Mul(Box::new(FExpr::Num(n)), Box::new(FExpr::Pi)), 2int)),
        fp_expr(seq![FToken::Num(n), FToken::ConstE], 0) == Ok::<(FExpr, int), FError>((
            FExpr::Mul(Box::new(FExpr::Num(n)), Box::new(FExpr::ConstE)), 2int)),
{
    number_then_atom(n, FToken::Var, FExpr::Var);
    number_then_atom(n, FToken::Pi, FExpr::Pi);
    number_then_atom(n, FToken::ConstE, FExpr::ConstE);
}

proof fn number_then_atom(n: Span, k: FToken, v: FExpr)
    requires
        (k == FToken::Var && v == FExpr::Var) || (k == FToken::Pi && v == FExpr::Pi)
            || (k == FToken::ConstE && v == FExpr::ConstE),
    ensures
        fp_expr(seq![FToken::Num(n), k], 0) == Ok::<(FExpr, int), FError>((
            FExpr::Mul(Box::new(FExpr::Num(n)), Box::new(v)), 2int)),
{
    let a = FExpr::Num(n);
    let t = seq![FToken::Num(n), k];
    let p = FExpr::Mul(Box::new(a), Box::new(v));
    assert(fp_primary(t, 0) == Ok::<(FExpr, int), FError>((a, 1int)));
    assert(fp_power(t, 0) == Ok::<(FExpr, int), FError>((a, 1int)));
    assert(fp_primary(t, 1) == Ok::<(FExpr, int), FError>((v, 2int)));
    assert(fp_power(t, 1) == Ok::<(FExpr, int), FError>((v, 2int)));
    assert(fp_term_rest(t, 2, p) == Ok::<(FExpr, int), FError>((p, 2int)));
    assert(fp_term_rest(t, 1, a) == Ok::<(FExpr, int), FError>((p, 2int)));
    assert(fp_term(t, 0) == Ok::<(FExpr, int), FError>((p, 2int)));
    assert(fp_expr_rest(t, 2, p) == Ok::<(FExpr, int), FError>((p, 2int)));
}

/// A number followed by a bracketed number is their product, and every token
/// is read: `4(5)` is `4 * 5`.
pub proof fn lemma_number_times_bracket(n: Span, m: Span)
    ensures
        fp_expr(seq![FToken::Num(n), FToken::LParen, FToken::Num(m), FToken::RParen], 0)
            == Ok::<(FExpr, int), FError>((FExpr::Mul(Box::new(FExpr::Num(n)), Box::new(FExpr::Num(m))), 4int)),
{
    let a = FExpr::Num(n);
    let t4 = seq![FToken::Num(n), FToken::LParen, FToken::Num(m), FToken::RParen];
    let b = FExpr::Num(m);
    let p4 = FExpr::Mul(Box::new(a), Box::new(b));
    {
        assert(fp_power(t4, 0) == Ok::<(FExpr, int), FError>((a, 1int)));
        assert(fp_power(t4, 2) == Ok::<(FExpr, int), FError>((b, 3int)));
        assert(fp_term_rest(t4, 3, b) == Ok::<(FExpr, int), FError>((b, 3int)));
        assert(fp_term(t4, 2) == Ok::<(FExpr, int), FError>((b, 3int)));
        assert(fp_expr_rest(t4, 3, b) == Ok::<(FExpr, int), FError>((b, 3int)));
        assert(fp_expr(t4, 2) == Ok::<(FExpr, int), FError>((b, 3int)));
        assert(fp_primary(t4, 1) == Ok::<(FExpr, int), FError>((b, 4int)));
        assert(fp_power(t4, 1) == Ok::<(FExpr, int), FError>((b, 4int)));
        assert(fp_term_rest(t4, 4, p4) == Ok::<(FExpr, int), FError>((p4, 4int)));
        assert(fp_term_rest(t4, 1, a) == Ok::<(FExpr, int), FError>((p4, 4int)));
        assert(fp_term(t4, 0) == Ok::<(FExpr, int), FError>((p4, 4int)));
        assert(fp_expr_rest(t4, 4, p4) == Ok::<(FExpr, int), FError>((p4, 4int)));
    }
}

/// `a + b`, `a - b`, `a * b` and `a / b` of two numbers are the sum,
/// difference, product and quotient of the numbers; every token is read.
pub proof fn lemma_binary_numbers(a: Span, op: FToken, b: Span)
    requires
        op == FToken::Plus || op == FToken::Minus || op == FToken::Star || op == FToken::Slash,
    ensures
        fp_expr(seq![FToken::Num(a), op, FToken::Num(b)], 0) == Ok::<(FExpr, int), FError>((
            if op == FToken::Plus {
                FExpr::Add(Box::new(FExpr::Num(a)), Box::new(FExpr::Num(b)))
            } else if op == FToken::Minus {
                FExpr::Sub(Box::new(FExpr::Num(a)), Box::new(FExpr::Num(b)))
            } else if op == FToken::Star {
                FExpr::Mul(Box::new(FExpr::Num(a)), Box::new(FExpr::Num(b)))
            } else {
                FExpr::Div(Box::new(FExpr::Num(a)), Box::new(FExpr::Num(b)))
            },
            3int,
        )),
{
    let t = seq![FToken::Num(a), op, FToken::Num(b)];
    let x = FExpr::Num(a);
    let y = FExpr::Num(b);
    assert(fp_power(t, 0) == Ok::<(FExpr, int), FError>((x, 1int)));
    assert(fp_power(t, 2) == Ok::<(FExpr, int), FError>((y, 3int)));
    if op == FToken::Plus || op == FToken::Minus {
        assert(fp_term_rest(t, 1, x) == Ok::<(FExpr, int), FError>((x, 1int)));
        assert(fp_term(t, 0) == Ok::<(FExpr, int), FError>((x, 1int)));
        assert(fp_term_rest(t, 3, y) == Ok::<(FExpr, int), FError>((y, 3int)));
        assert(fp_term(t, 2) == Ok::<(FExpr, int), FError>((y, 3int)));
        let e = if op == FToken::Plus {
            FExpr::Add(Box::new(x), Box::new(y))
        } else {
            FExpr::Sub(Box::new(x), Box::new(y))
        };
        assert(fp_expr_rest(t, 3, e) == Ok::<(FExpr, int), FError>((e, 3int)));
        assert(fp_expr_rest(t, 1, x) == Ok::<(FExpr, int), FError>((e, 3int)));
    } else {
        let e = if op == FToken::Star {
            FExpr::Mul(Box::new(x), Box::new(y))
        } else {
            FExpr::Div(Box::new(x), Box::new(y))
        };
        assert(fp_term_rest(t, 3, e) == Ok::<(FExpr, int), FError>((e, 3int)));
        assert(fp_term_rest(t, 1, x) == Ok::<(FExpr, int), FError>((e, 3int)));
        assert(fp_term(t, 0) == Ok::<(FExpr, int), FError>((e, 3int)));
        assert(fp_expr_rest(t, 3, e) == Ok::<(FExpr, int), FError>((e, 3int)));
    }
}

} // verus!
