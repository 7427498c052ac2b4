//! The general expression simplifier's text side: recognising the
//! function-aware notation, splitting an expression into tokens, and parsing
//! polynomial expressions into the sequence of algebra steps to carry out.
//! Numbers are kept as the spans of the text they were written with.

use vstd::prelude::*;
use vstd::string::StringSliceAdditionalSpecFns;

verus! {

/// A range `start..end` of the expression's bytes.
#[derive(Clone, Copy, PartialEq, Eq, Structural, Debug)]
pub struct Span {
    pub start: usize,
    pub end: usize,
}

/// A token of a polynomial expression.
#[derive(Clone, Copy, PartialEq, Eq, Structural, Debug)]
pub enum GToken {
    /// A number, written with the bytes of the span.
    Num(Span),
    Var,
    Plus,
    Minus,
    Star,
    Slash,
    Caret,
    LParen,
    RParen,
}

/// A byte of a number: a digit or the decimal point.
pub open spec fn is_num_byte(c: u8) -> bool {
    (48 <= c && c <= 57) || c == 46
}

/// End of the run of number bytes that starts at `i`.
pub open spec fn num_end(s: Seq<u8>, i: int) -> int
    decreases s.len() - i,
{
    if 0 <= i < s.len() && is_num_byte(s[i]) {
        num_end(s, i + 1)
    } else {
        i
    }
}

/// Number of decimal points among the bytes `i..j`.
pub open spec fn dots(s: Seq<u8>, i: int, j: int) -> nat
    decreases j - i,
{
    if i >= j {
        0
    } else {
        dots(s, i, j - 1) + if s[j - 1] == 46u8 { 1nat } else { 0nat }
    }
}

/// The run of number bytes from `i` stays in bounds and stops at a non-number byte.
pub proof fn lemma_num_end(s: Seq<u8>, i: int)
    requires
        0 <= i <= s.len(),
    ensures
        i <= num_end(s, i) <= s.len(),
        forall|k: int| i <= k < num_end(s, i) ==> is_num_byte(s[k]),
        num_end(s, i) < s.len() ==> !is_num_byte(s[num_end(s, i)]),
    decreases s.len() - i,
{
    if i < s.len() && is_num_byte(s[i]) {
        lemma_num_end(s, i + 1);
    }
}

/// The tokens of `s` from byte `i` on. Spaces, `=` and unknown bytes are
/// skipped; a run of digits and points is a number, dropped when it holds more
/// than one point; `x` or `X` is the variable.
pub open spec fn g_lex(s: Seq<u8>, i: int) -> Seq<GToken>
    decreases s.len() - i,
{
    if i < 0 || i >= s.len() {
        seq![]
    } else {
        let c = s[i];
        if is_num_byte(c) {
            let j = num_end(s, i);
            proof {
                lemma_num_end(s, i);
            }
            (if dots(s, i, j) <= 1 { seq![GToken::Num(Span { start: i as usize, end: j as usize })] } else { seq![] })
                + g_lex(s, j)
        } else {
            let t: Option<GToken> = if c == 120u8 || c == 88u8 {
                Some(GToken::Var)
            } else if c == 43u8 {
                Some(GToken::Plus)
            } else if c == 45u8 {
                Some(GToken::Minus)
            } else if c == 42u8 {
                Some(GToken::Star)
            } else if c == 47u8 {
                Some(GToken::Slash)
            } else if c == 94u8 {
                Some(GToken::Caret)
            } else if c == 40u8 {
                Some(GToken::LParen)
            } else if c == 41u8 {
                Some(GToken::RParen)
            } else {
                None
            };
            match t {
                Some(tk) => seq![tk] + g_lex(s, i + 1),
                None => g_lex(s, i + 1),
            }
        }
    }
}

/// `sp` lies within `s` and covers a number: digits and at most one point.
pub open spec fn num_span(s: Seq<u8>, sp: Span) -> bool {
    &&& sp.start < sp.end <= s.len()
    &&& forall|k: int| sp.start <= k < sp.end ==> is_num_byte(#[trigger] s[k])
    &&& dots(s, sp.start as int, sp.end as int) <= 1
}

/// Every number token of `toks` covers a number of `s`.
pub open spec fn g_spans_ok(s: Seq<u8>, toks: Seq<GToken>) -> bool {
    forall|k: int|
        0 <= k < toks.len() ==> match #[trigger] toks[k] {
            GToken::Num(sp) => num_span(s, sp),
            _ => true,
        }
}

/// The number tokens of an expression cover numbers of it: each span lies
/// within the text and holds only digits and at most one point.
pub proof fn lemma_g_lex_spans(s: Seq<u8>, i: int)
    requires
        0 <= i <= s.len(),
        s.len() <= usize::MAX,
    ensures
        g_spans_ok(s, g_lex(s, i)),
    decreases s.len() - i,
{
    if i < s.len() {
        let c = s[i];
        if is_num_byte(c) {
            let j = num_end(s, i);
            lemma_num_end(s, i);
            lemma_num_end(s, i + 1);
            lemma_g_lex_spans(s, j);
            let head: Seq<GToken> = if dots(s, i, j) <= 1 {
                seq![GToken::Num(Span { start: i as usize, end: j as usize })]
            } else {
                seq![]
            };
            let rest = g_lex(s, j);
            assert(g_lex(s, i) == head + rest);
            assert forall|k: int| 0 <= k < (head + rest).len() implies match #[trigger] (head + rest)[k] {
                GToken::Num(sp) => num_span(s, sp),
                _ => true,
            } by {
                if k >= head.len() {
                    assert((head + rest)[k] == rest[k - head.len()]);
                }
            }
        } else {
            lemma_g_lex_spans(s, i + 1);
            let rest = g_lex(s, i + 1);
            assert forall|k: int| 0 <= k < g_lex(s, i).len() implies match #[trigger] g_lex(s, i)[k] {
                GToken::Num(sp) => num_span(s, sp),
                _ => true,
            } by {
                if g_lex(s, i).len() == rest.len() + 1 {
                    if k >= 1 {
                        assert(g_lex(s, i)[k] == rest[k - 1]);
                    }
                } else {
                    assert(g_lex(s, i) == rest);
                }
            }
        }
    }
}

/// Splits a polynomial expression into tokens. Each number token covers a
/// number of the expression.
pub fn g_tokenize(expr: &str) -> (toks: Vec<GToken>)
    ensures
        toks@ == g_lex(expr.spec_bytes(), 0),
        g_spans_ok(expr.spec_bytes(), toks@),
{
    let bytes = expr.as_bytes();
    let n = bytes.len();
    proof {
        lemma_g_lex_spans(expr.spec_bytes(), 0);
    }
    let mut toks: Vec<GToken> = Vec::new();
    let mut i: usize = 0;
    while i < n
        invariant
            n == bytes@.len(),
            bytes@ == expr.spec_bytes(),
            i <= n,
            toks@ + g_lex(bytes@, i as int) == g_lex(bytes@, 0),
        decreases n - i,
    {
        let c = bytes[i];
        if (48 <= c && c <= 57) || c == 46 {
            let start = i;
            let mut ndots: usize = 0;
            while i < n && ((48 <= bytes[i] && bytes[i] <= 57) || bytes[i] == 46)
                invariant
                    n == bytes@.len(),
                    start <= i <= n,
                    ndots == dots(bytes@, start as int, i as int),
                    ndots <= i - start,
                    forall|k: int| start <= k < i ==> is_num_byte(bytes@[k]),
                    num_end(bytes@, start as int) == num_end(bytes@, i as int),
                decreases n - i,
            {
                if bytes[i] == 46 {
                    ndots = ndots + 1;
                }
                i = i + 1;
            }
            proof {
                lemma_num_end(bytes@, start as int);
                assert(num_end(bytes@, i as int) == i);
            }
            let ghost before = toks@;
            if ndots <= 1 {
                toks.push(GToken::Num(Span { start: start, end: i }));
            }
            proof {
                assert(g_lex(bytes@, start as int) == (if dots(bytes@, start as int, i as int) <= 1 {
                    seq![GToken::Num(Span { start: start, end: i })]
                } else {
                    seq![]
                }) + g_lex(bytes@, i as int));
                if ndots <= 1 {
                    assert(toks@ + g_lex(bytes@, i as int) =~= before + g_lex(bytes@, start as int));
                } else {
                    assert(toks@ + g_lex(bytes@, i as int) =~= before + g_lex(bytes@, start as int));
                }
            }
        } else {
            let t: Option<GToken> = if c == 120 || c == 88 {
                Some(GToken::Var)
            } else if c == 43 {
                Some(GToken::Plus)
            } else if c == 45 {
                Some(GToken::Minus)
            } else if c == 42 {
                Some(GToken::Star)
            } else if c == 47 {
                Some(GToken::Slash)
            } else if c == 94 {
                Some(GToken::Caret)
            } else if c == 40 {
                Some(GToken::LParen)
            } else if c == 41 {
                Some(GToken::RParen)
            } else {
                None
            };
            let ghost before = toks@;
            match t {
                Some(tk) => {
                    toks.push(tk);
                },
                None => {},
            }
            i = i + 1;
            proof {
                assert(toks@ + g_lex(bytes@, i as int) =~= before + g_lex(bytes@, (i - 1) as int));
            }
        }
    }
    proof {
        assert(toks@ =~= toks@ + g_lex(bytes@, i as int));
    }
    toks
}


/// `pat` occurs in `s` at some position.
pub open spec fn has_sub(s: Seq<u8>, pat: Seq<u8>) -> bool {
    exists|i: int| 0 <= i && i + pat.len() <= s.len() && #[trigger] s.subrange(i, i + pat.len()) == pat
}

/// Whether the expression uses the function-aware notation: one of `sin`, `cos`,
/// `tan`, `sqrt`, `ln`, `log`, `pi`, `Pi`, `PI`, or the letter `e`.
pub open spec fn uses_functions(s: Seq<u8>) -> bool {
    ||| has_sub(s, seq![115u8, 105u8, 110u8])
    ||| has_sub(s, seq![99u8, 111u8, 115u8])
    ||| has_sub(s, seq![116u8, 97u8, 110u8])
    ||| has_sub(s, seq![115u8, 113u8, 114u8, 116u8])
    ||| has_sub(s, seq![108u8, 110u8])
    ||| has_sub(s, seq![108u8, 111u8, 103u8])
    ||| has_sub(s, seq![112u8, 105u8])
    ||| has_sub(s, seq![80u8, 105u8])
    ||| has_sub(s, seq![80u8, 73u8])
    ||| has_sub(s, seq![101u8])
}

/// Whether `pat` occurs in `s`.
fn contains_bytes(s: &[u8], pat: &[u8]) -> (b: bool)
    ensures
        b == has_sub(s@, pat@),
{
    let n = s.len();
    let m = pat.len();
    if m > n {
        return false;
    }
    let mut i: usize = 0;
    while i <= n - m
        invariant
            m <= n,
            n == s@.len(),
            m == pat@.len(),
            i <= n - m + 1,
            forall|k: int| 0 <= k < i ==> #[trigger] s@.subrange(k, k + m) != pat@,
        decreases n - m + 1 - i,
    {
        let mut j: usize = 0;
        let mut same = true;
        while j < m
            invariant
                m <= n,
                n == s@.len(),
                m == pat@.len(),
                i + m <= n,
                j <= m,
                same == (forall|q: int| 0 <= q < j ==> s@[i + q] == pat@[q]),
            decreases m - j,
        {
            if s[i + j] != pat[j] {
                same = false;
            }
            j = j + 1;
        }
        if same {
            proof {
                assert(s@.subrange(i as int, i + m) =~= pat@);
            }
            return true;
        }
        proof {
            let q = choose|q: int| 0 <= q < m && s@[i + q] != pat@[q];
            assert(s@.subrange(i as int, i + m)[q] != pat@[q]);
        }
        i = i + 1;
    }
    proof {
        assert forall|k: int| 0 <= k && k + pat@.len() <= s@.len() implies #[trigger] s@.subrange(k, k + pat@.len()) != pat@ by {
            assert(k < i);
        }
    }
    false
}

/// Whether the expression uses the function-aware notation (see
/// `uses_functions`).
pub fn mentions_functions(expr: &str) -> (b: bool)
    ensures
        b == uses_functions(expr.spec_bytes()),
{
    let s = expr.as_bytes();
    let pats: [&[u8]; 10] = [
        [115u8, 105u8, 110u8].as_slice(),
        [99u8, 111u8, 115u8].as_slice(),
        [116u8, 97u8, 110u8].as_slice(),
        [115u8, 113u8, 114u8, 116u8].as_slice(),
        [108u8, 110u8].as_slice(),
        [108u8, 111u8, 103u8].as_slice(),
        [112u8, 105u8].as_slice(),
        [80u8, 105u8].as_slice(),
        [80u8, 73u8].as_slice(),
        [101u8].as_slice(),
    ];
    let r0 = contains_bytes(s, pats[0]);
    let r1 = contains_bytes(s, pats[1]);
    let r2 = contains_bytes(s, pats[2]);
    let r3 = contains_bytes(s, pats[3]);
    let r4 = contains_bytes(s, pats[4]);
    let r5 = contains_bytes(s, pats[5]);
    let r6 = contains_bytes(s, pats[6]);
    let r7 = contains_bytes(s, pats[7]);
    let r8 = contains_bytes(s, pats[8]);
    let r9 = contains_bytes(s, pats[9]);
    proof {
        assert(pats[0]@ =~= seq![115u8, 105u8, 110u8]);
        assert(pats[1]@ =~= seq![99u8, 111u8, 115u8]);
        assert(pats[2]@ =~= seq![116u8, 97u8, 110u8]);
        assert(pats[3]@ =~= seq![115u8, 113u8, 114u8, 116u8]);
        assert(pats[4]@ =~= seq![108u8, 110u8]);
        assert(pats[5]@ =~= seq![108u8, 111u8, 103u8]);
        assert(pats[6]@ =~= seq![112u8, 105u8]);
        assert(pats[7]@ =~= seq![80u8, 105u8]);
        assert(pats[8]@ =~= seq![80u8, 73u8]);
        assert(pats[9]@ =~= seq![101u8]);
    }
    r0 || r1 || r2 || r3 || r4 || r5 || r6 || r7 || r8 || r9
}


/// One step of simplifying a polynomial expression, to run on a stack of
/// polynomials in the order the parser met the constructs.
#[derive(Clone, Copy, PartialEq, Eq, Structural, Debug)]
pub enum GInstr {
    /// Push the constant written in the span.
    Const(Span),
    /// Push the term `c x^e`; the coefficient is 1 and the exponent 1 when absent.
    Term(Option<Span>, Option<Span>),
    /// Negate the top.
    Neg,
    /// Add the top to the one below, combining like terms.
    Add,
    /// Subtract the top from the one below, combining like terms.
    Sub,
    /// Multiply the two top polynomials.
    Mul,
    /// Divide the one below by the top, which must be a non-zero constant.
    Div,
    /// Raise the top to the power written in the span.
    Pow(Span),
    /// Multiply the top by the number written in the span (distribution).
    Distribute(Span),
    /// Multiply the two top polynomials, showing the FOIL products.
    FoilMul,
}

/// Why a polynomial expression does not parse.
#[derive(Clone, Copy, PartialEq, Eq, Structural, Debug)]
pub enum GError {
    UnexpectedToken,
    ExpectedOpen,
    ExpectedClose,
    ExpectedExponent,
}

/// Tokens left from `pos` on (more than all of them for a position before the start).
pub open spec fn rem(t: Seq<GToken>, pos: int) -> nat {
    if pos < t.len() {
        (t.len() - pos) as nat
    } else {
        0
    }
}

/// The token at `i`, if any.
pub open spec fn tok(t: Seq<GToken>, i: int) -> Option<GToken> {
    if 0 <= i < t.len() {
        Some(t[i])
    } else {
        None
    }
}

/// An optional `^` and its exponent after a variable: the exponent's span, the
/// position after it, and the error when `^` is not followed by a number.
pub open spec fn p_exponent(t: Seq<GToken>, pos: int) -> (Option<Span>, int, Option<GError>) {
    if tok(t, pos) == Some(GToken::Caret) {
        match tok(t, pos + 1) {
            Some(GToken::Num(e)) => (Some(e), pos + 2, None),
            _ => (None, pos + 1, Some(GError::ExpectedExponent)),
        }
    } else {
        (None, pos, None)
    }
}

// The grammar. Each parser returns the steps it emits, the position after what
// it read, and the error that stopped it, if any (the steps are then those
// emitted before the error).

/// expr := ['-'] term (('+' | '-') term)*
pub open spec fn p_expr(t: Seq<GToken>, pos: int) -> (Seq<GInstr>, int, Option<GError>)
    decreases rem(t, pos), 9nat,
{
    let neg = tok(t, pos) == Some(GToken::Minus);
    let p0 = if neg { pos + 1 } else { pos };
    let a = p_term(t, p0);
    if a.2 is Some {
        a
    } else {
        let prog = if neg { a.0.push(GInstr::Neg) } else { a.0 };
        if a.1 < pos {
            (prog, a.1, None)
        } else {
            let b = p_expr_rest(t, a.1);
            (prog + b.0, b.1, b.2)
        }
    }
}

/// The `(('+' | '-') term)*` tail of an expression.
pub open spec fn p_expr_rest(t: Seq<GToken>, pos: int) -> (Seq<GInstr>, int, Option<GError>)
    decreases rem(t, pos), 8nat,
{
    if tok(t, pos) == Some(GToken::Plus) || tok(t, pos) == Some(GToken::Minus) {
        let op = if tok(t, pos) == Some(GToken::Plus) { GInstr::Add } else { GInstr::Sub };
        let a = p_term(t, pos + 1);
        if a.2 is Some {
            a
        } else if a.1 <= pos {
            (a.0.push(op), a.1, None)
        } else {
            let b = p_expr_rest(t, a.1);
            (a.0.push(op) + b.0, b.1, b.2)
        }
    } else {
        (seq![], pos, None)
    }
}

/// term := power (('*' | '/') power)*
pub open spec fn p_term(t: Seq<GToken>, pos: int) -> (Seq<GInstr>, int, Option<GError>)
    decreases rem(t, pos), 7nat,
{
    let a = p_power(t, pos);
    if a.2 is Some {
        a
    } else if a.1 < pos {
        a
    } else {
        let b = p_term_rest(t, a.1);
        (a.0 + b.0, b.1, b.2)
    }
}

/// The `(('*' | '/') power)*` tail of a term.
pub open spec fn p_term_rest(t: Seq<GToken>, pos: int) -> (Seq<GInstr>, int, Option<GError>)
    decreases rem(t, pos), 6nat,
{
    if tok(t, pos) == Some(GToken::Star) || tok(t, pos) == Some(GToken::Slash) {
        let op = if tok(t, pos) == Some(GToken::Star) { GInstr::Mul } else { GInstr::Div };
        let a = p_power(t, pos + 1);
        if a.2 is Some {
            a
        } else if a.1 <= pos {
            (a.0.push(op), a.1, None)
        } else {
            let b = p_term_rest(t, a.1);
            (a.0.push(op) + b.0, b.1, b.2)
        }
    } else {
        (seq![], pos, None)
    }
}

/// power := primary ['^' number]; a `^` without a number after it is skipped.
pub open spec fn p_power(t: Seq<GToken>, pos: int) -> (Seq<GInstr>, int, Option<GError>)
    decreases rem(t, pos), 5nat,
{
    let a = p_primary(t, pos);
    if a.2 is Some {
        a
    } else if tok(t, a.1) == Some(GToken::Caret) {
        match tok(t, a.1 + 1) {
            Some(GToken::Num(e)) => (a.0.push(GInstr::Pow(e)), a.1 + 2, None),
            _ => (a.0, a.1 + 1, None),
        }
    } else {
        a
    }
}

/// primary := number 'x' ['^' number] | number paren [paren] | number
///          | 'x' ['^' number] | paren [paren [paren]] | '-' primary
pub open spec fn p_primary(t: Seq<GToken>, pos: int) -> (Seq<GInstr>, int, Option<GError>)
    decreases rem(t, pos), 4nat,
{
    match tok(t, pos) {
        Some(GToken::Num(n)) => p_num_primary(t, pos, n),
        Some(GToken::Var) => {
            let e = p_exponent(t, pos + 1);
            if e.2 is Some {
                (seq![], e.1, e.2)
            } else {
                (seq![GInstr::Term(None, e.0)], e.1, None)
            }
        },
        Some(GToken::LParen) => p_group(t, pos),
        Some(GToken::Minus) => {
            let a = p_primary(t, pos + 1);
            if a.2 is Some {
                a
            } else {
                (a.0.push(GInstr::Neg), a.1, None)
            }
        },
        _ => (seq![], pos, Some(GError::UnexpectedToken)),
    }
}

/// A primary after the number `n` at `pos`: `n x ['^' number]`, `n paren [paren]`, or `n`.
pub open spec fn p_num_primary(t: Seq<GToken>, pos: int, n: Span) -> (Seq<GInstr>, int, Option<GError>)
    decreases rem(t, pos), 3nat,
{
    if tok(t, pos + 1) == Some(GToken::Var) {
        let e = p_exponent(t, pos + 2);
        if e.2 is Some {
            (seq![], e.1, e.2)
        } else {
            (seq![GInstr::Term(Some(n), e.0)], e.1, None)
        }
    } else if tok(t, pos + 1) == Some(GToken::LParen) {
        p_distribution(t, pos, n)
    } else {
        (seq![GInstr::Const(n)], pos + 1, None)
    }
}

/// The distribution after the number `n` at `pos`: `n paren [paren]`.
pub open spec fn p_distribution(t: Seq<GToken>, pos: int, n: Span) -> (Seq<GInstr>, int, Option<GError>)
    decreases rem(t, pos), 2nat,
{
    let a = p_paren(t, pos + 1);
    if a.2 is Some {
        a
    } else {
        let pa = a.0.push(GInstr::Distribute(n));
        if tok(t, a.1) == Some(GToken::LParen) && a.1 >= pos {
            let b = p_paren(t, a.1);
            if b.2 is Some {
                (pa + b.0, b.1, b.2)
            } else {
                (pa + b.0.push(GInstr::FoilMul), b.1, None)
            }
        } else {
            (pa, a.1, None)
        }
    }
}

/// A primary of bracketed factors from `pos`: paren [paren [paren]].
pub open spec fn p_group(t: Seq<GToken>, pos: int) -> (Seq<GInstr>, int, Option<GError>)
    decreases rem(t, pos), 3nat,
{
    let a = p_paren(t, pos);
    if a.2 is Some {
        a
    } else if tok(t, a.1) == Some(GToken::LParen) && a.1 >= pos {
        let b = p_paren(t, a.1);
        if b.2 is Some {
            (a.0 + b.0, b.1, b.2)
        } else {
            let ab = a.0 + b.0.push(GInstr::FoilMul);
            if tok(t, b.1) == Some(GToken::LParen) && b.1 >= pos {
                let c = p_paren(t, b.1);
                if c.2 is Some {
                    (ab + c.0, c.1, c.2)
                } else {
                    (ab + c.0.push(GInstr::Mul), c.1, None)
                }
            } else {
                (ab, b.1, None)
            }
        }
    } else {
        a
    }
}

/// paren := '(' expr ')'
pub open spec fn p_paren(t: Seq<GToken>, pos: int) -> (Seq<GInstr>, int, Option<GError>)
    decreases rem(t, pos), 1nat,
{
    if tok(t, pos) != Some(GToken::LParen) {
        (seq![], pos, Some(GError::ExpectedOpen))
    } else {
        let a = p_expr(t, pos + 1);
        if a.2 is Some {
            a
        } else if tok(t, a.1) != Some(GToken::RParen) {
            (a.0, a.1, Some(GError::ExpectedClose))
        } else {
            (a.0, a.1 + 1, None)
        }
    }
}


/// What a parser call must return: on success the grammar's position, in
/// bounds; on failure the grammar's error.
pub open spec fn parsed(t: Seq<GToken>, pos: int, s: (Seq<GInstr>, int, Option<GError>), r: Result<usize, GError>) -> bool {
    match r {
        Ok(p) => s.2 is None && p == s.1 && pos <= p <= t.len(),
        Err(e) => s.2 == Some(e),
    }
}

/// The token at `i`, if any.
fn tok_at(t: &[GToken], i: usize) -> (o: Option<GToken>)
    ensures
        o == tok(t@, i as int),
        t@.len() <= usize::MAX,
{
    if i < t.len() {
        Some(t[i])
    } else {
        None
    }
}

fn parse_exponent(t: &[GToken], pos: usize) -> (r: (Option<Span>, usize, Option<GError>))
    requires
        pos <= t@.len(),
    ensures
        r.0 == p_exponent(t@, pos as int).0,
        r.1 == p_exponent(t@, pos as int).1,
        r.2 == p_exponent(t@, pos as int).2,
        pos <= r.1 <= t@.len(),
{
    if matches!(tok_at(t, pos), Some(GToken::Caret)) {
        match tok_at(t, pos + 1) {
            Some(GToken::Num(e)) => (Some(e), pos + 2, None),
            _ => (None, pos + 1, Some(GError::ExpectedExponent)),
        }
    } else {
        (None, pos, None)
    }
}

#[verifier::spinoff_prover]
fn parse_expr(t: &[GToken], pos: usize, prog: &mut Vec<GInstr>) -> (r: Result<usize, GError>)
    requires
        pos <= t@.len(),
    ensures
        parsed(t@, pos as int, p_expr(t@, pos as int), r),
        final(prog)@ == old(prog)@ + p_expr(t@, pos as int).0,
    decreases rem(t@, pos as int), 9nat,
{
    let ghost before = prog@;
    let neg = matches!(tok_at(t, pos), Some(GToken::Minus));
    assert(neg == (tok(t@, pos as int) == Some(GToken::Minus)));
    let p0 = if neg { pos + 1 } else { pos };
    let ghost a = p_term(t@, p0 as int);
    assert(p_expr(t@, pos as int) == (if a.2 is Some { a } else if a.1 < pos { (if neg { a.0.push(GInstr::Neg) } else { a.0 }, a.1, None) } else {
        let b = p_expr_rest(t@, a.1);
        ((if neg { a.0.push(GInstr::Neg) } else { a.0 }) + b.0, b.1, b.2)
    }));
    let p1 = match parse_term(t, p0, prog) {
        Err(e) => {
            assert(p_expr(t@, pos as int) == a);
            return Err(e);
        },
        Ok(p1) => p1,
    };
    let ghost head = if neg { a.0.push(GInstr::Neg) } else { a.0 };
    if neg {
        prog.push(GInstr::Neg);
    }
    assert(prog@ =~= before + head);
    let ghost b = p_expr_rest(t@, p1 as int);
    let r = parse_expr_rest(t, p1, prog);
    assert(p_expr(t@, pos as int) == (head + b.0, b.1, b.2));
    assert(prog@ =~= before + (head + b.0));
    r
}

fn parse_expr_rest(t: &[GToken], pos: usize, prog: &mut Vec<GInstr>) -> (r: Result<usize, GError>)
    requires
        pos <= t@.len(),
    ensures
        parsed(t@, pos as int, p_expr_rest(t@, pos as int), r),
        final(prog)@ == old(prog)@ + p_expr_rest(t@, pos as int).0,
    decreases rem(t@, pos as int), 8nat,
{
    let ghost before = prog@;
    let k = tok_at(t, pos);
    let is_plus = matches!(k, Some(GToken::Plus));
    let is_minus = matches!(k, Some(GToken::Minus));
    if is_plus || is_minus {
        let op = if is_plus { GInstr::Add } else { GInstr::Sub };
        match parse_term(t, pos + 1, prog) {
            Err(e) => Err(e),
            Ok(p1) => {
                prog.push(op);
                let r = parse_expr_rest(t, p1, prog);
                proof {
                    assert(prog@ =~= before + p_expr_rest(t@, pos as int).0);
                }
                r
            },
        }
    } else {
        proof {
            assert(prog@ =~= before + p_expr_rest(t@, pos as int).0);
        }
        Ok(pos)
    }
}

fn parse_term(t: &[GToken], pos: usize, prog: &mut Vec<GInstr>) -> (r: Result<usize, GError>)
    requires
        pos <= t@.len(),
    ensures
        parsed(t@, pos as int, p_term(t@, pos as int), r),
        final(prog)@ == old(prog)@ + p_term(t@, pos as int).0,
    decreases rem(t@, pos as int), 7nat,
{
    let ghost before = prog@;
    match parse_power(t, pos, prog) {
        Err(e) => Err(e),
        Ok(p1) => {
            let r = parse_term_rest(t, p1, prog);
            proof {
                assert(prog@ =~= before + p_term(t@, pos as int).0);
            }
            r
        },
    }
}

fn parse_term_rest(t: &[GToken], pos: usize, prog: &mut Vec<GInstr>) -> (r: Result<usize, GError>)
    requires
        pos <= t@.len(),
    ensures
        parsed(t@, pos as int, p_term_rest(t@, pos as int), r),
        final(prog)@ == old(prog)@ + p_term_rest(t@, pos as int).0,
    decreases rem(t@, pos as int), 6nat,
{
    let ghost before = prog@;
    let k = tok_at(t, pos);
    let is_star = matches!(k, Some(GToken::Star));
    let is_slash = matches!(k, Some(GToken::Slash));
    if is_star || is_slash {
        let op = if is_star { GInstr::Mul } else { GInstr::Div };
        match parse_power(t, pos + 1, prog) {
            Err(e) => Err(e),
            Ok(p1) => {
                prog.push(op);
                let r = parse_term_rest(t, p1, prog);
                proof {
                    assert(prog@ =~= before + p_term_rest(t@, pos as int).0);
                }
                r
            },
        }
    } else {
        proof {
            assert(prog@ =~= before + p_term_rest(t@, pos as int).0);
        }
        Ok(pos)
    }
}

fn parse_power(t: &[GToken], pos: usize, prog: &mut Vec<GInstr>) -> (r: Result<usize, GError>)
    requires
        pos <= t@.len(),
    ensures
        parsed(t@, pos as int, p_power(t@, pos as int), r),
        final(prog)@ == old(prog)@ + p_power(t@, pos as int).0,
    decreases rem(t@, pos as int), 5nat,
{
    let ghost before = prog@;
    match parse_primary(t, pos, prog) {
        Err(e) => Err(e),
        Ok(p1) => {
            if matches!(tok_at(t, p1), Some(GToken::Caret)) {
                match tok_at(t, p1 + 1) {
                    Some(GToken::Num(e)) => {
                        prog.push(GInstr::Pow(e));
                        proof {
                            assert(prog@ =~= before + p_power(t@, pos as int).0);
                        }
                        Ok(p1 + 2)
                    },
                    _ => Ok(p1 + 1),
                }
            } else {
                Ok(p1)
            }
        },
    }
}

fn parse_primary(t: &[GToken], pos: usize, prog: &mut Vec<GInstr>) -> (r: Result<usize, GError>)
    requires
        pos <= t@.len(),
    ensures
        parsed(t@, pos as int, p_primary(t@, pos as int), r),
        final(prog)@ == old(prog)@ + p_primary(t@, pos as int).0,
    decreases rem(t@, pos as int), 4nat,
{
    let ghost before = prog@;
    match tok_at(t, pos) {
        Some(GToken::Num(n)) => parse_num_primary(t, pos, n, prog),
        Some(GToken::Var) => {
            let (e, p, err) = parse_exponent(t, pos + 1);
            match err {
                Some(x) => {
                    proof {
                        assert(prog@ =~= before + p_primary(t@, pos as int).0);
                    }
                    Err(x)
                },
                None => {
                    prog.push(GInstr::Term(None, e));
                    proof {
                        assert(prog@ =~= before + p_primary(t@, pos as int).0);
                    }
                    Ok(p)
                },
            }
        },
        Some(GToken::LParen) => parse_group(t, pos, prog),
        Some(GToken::Minus) => {
            let r = parse_primary(t, pos + 1, prog);
            match r {
                Err(e) => Err(e),
                Ok(p1) => {
                    prog.push(GInstr::Neg);
                    proof {
                        assert(prog@ =~= before + p_primary(t@, pos as int).0);
                    }
                    Ok(p1)
                },
            }
        },
        _ => {
            proof {
                assert(prog@ =~= before + p_primary(t@, pos as int).0);
            }
            Err(GError::UnexpectedToken)
        },
    }
}

/// A primary that starts with the number `n`: a term `n x^e`, a distribution
/// `n(...)` with an optional second bracket, or the constant.
#[verifier::spinoff_prover]
fn parse_num_primary(t: &[GToken], pos: usize, n: Span, prog: &mut Vec<GInstr>) -> (r: Result<usize, GError>)
    requires
        pos < t@.len(),
    ensures
        parsed(t@, pos as int, p_num_primary(t@, pos as int, n), r),
        final(prog)@ == old(prog)@ + p_num_primary(t@, pos as int, n).0,
    decreases rem(t@, pos as int), 3nat,
{
    let ghost before = prog@;
    // Reading the length bounds the positions below by usize::MAX.
    let _len = t.len();
    let k1 = tok_at(t, pos + 1);
    if matches!(k1, Some(GToken::Var)) {
        let (e, p, err) = parse_exponent(t, pos + 2);
        match err {
            Some(x) => {
                assert(p_num_primary(t@, pos as int, n) == (Seq::<GInstr>::empty(), p as int, Some(x)));
                assert(prog@ =~= before + Seq::<GInstr>::empty());
                Err(x)
            },
            None => {
                prog.push(GInstr::Term(Some(n), e));
                assert(p_num_primary(t@, pos as int, n) == (seq![GInstr::Term(Some(n), e)], p as int, None::<GError>));
                assert(prog@ =~= before + seq![GInstr::Term(Some(n), e)]);
                Ok(p)
            },
        }
    } else if matches!(k1, Some(GToken::LParen)) {
        parse_distribution(t, pos, n, prog)
    } else {
        prog.push(GInstr::Const(n));
        assert(p_num_primary(t@, pos as int, n) == (seq![GInstr::Const(n)], pos + 1, None::<GError>));
        assert(prog@ =~= before + seq![GInstr::Const(n)]);
        Ok(pos + 1)
    }
}

/// The distribution `n(...)` after the number `n` at `pos`, with an optional
/// second bracket multiplied in.
#[verifier::spinoff_prover]
fn parse_distribution(t: &[GToken], pos: usize, n: Span, prog: &mut Vec<GInstr>) -> (r: Result<usize, GError>)
    requires
        pos + 1 < t@.len(),
        t@[pos + 1] == GToken::LParen,
    ensures
        parsed(t@, pos as int, p_distribution(t@, pos as int, n), r),
        final(prog)@ == old(prog)@ + p_distribution(t@, pos as int, n).0,
    decreases rem(t@, pos as int), 2nat,
{
    let ghost before = prog@;
    // Reading the length bounds the positions below by usize::MAX.
    let _len = t.len();
    let ghost a = p_paren(t@, pos + 1);
    let p1 = match parse_paren(t, pos + 1, prog) {
        Err(e) => {
            assert(p_distribution(t@, pos as int, n) == a);
            return Err(e);
        },
        Ok(p1) => p1,
    };
    prog.push(GInstr::Distribute(n));
    let ghost pa = a.0.push(GInstr::Distribute(n));
    assert(prog@ =~= before + pa);
    if !matches!(tok_at(t, p1), Some(GToken::LParen)) {
        assert(p_distribution(t@, pos as int, n) == (pa, p1 as int, None::<GError>));
        return Ok(p1);
    }
    let ghost b = p_paren(t@, p1 as int);
    match parse_paren(t, p1, prog) {
        Err(e) => {
            assert(p_distribution(t@, pos as int, n) == (pa + b.0, b.1, b.2));
            assert(prog@ =~= before + (pa + b.0));
            Err(e)
        },
        Ok(p2) => {
            prog.push(GInstr::FoilMul);
            assert(p_distribution(t@, pos as int, n) == (pa + b.0.push(GInstr::FoilMul), b.1, None::<GError>));
            assert(prog@ =~= before + (pa + b.0.push(GInstr::FoilMul)));
            Ok(p2)
        },
    }
}

/// A primary that starts with a bracket: up to three bracketed factors.
#[verifier::spinoff_prover]
fn parse_group(t: &[GToken], pos: usize, prog: &mut Vec<GInstr>) -> (r: Result<usize, GError>)
    requires
        pos < t@.len(),
    ensures
        parsed(t@, pos as int, p_group(t@, pos as int), r),
        final(prog)@ == old(prog)@ + p_group(t@, pos as int).0,
    decreases rem(t@, pos as int), 3nat,
{
    let ghost before = prog@;
    let ghost a = p_paren(t@, pos as int);
    let p1 = match parse_paren(t, pos, prog) {
        Err(e) => {
            assert(p_group(t@, pos as int) == a);
            return Err(e);
        },
        Ok(p1) => p1,
    };
    if !matches!(tok_at(t, p1), Some(GToken::LParen)) {
        assert(p_group(t@, pos as int) == a);
        return Ok(p1);
    }
    let ghost b = p_paren(t@, p1 as int);
    let p2 = match parse_paren(t, p1, prog) {
        Err(e) => {
            assert(p_group(t@, pos as int) == (a.0 + b.0, b.1, b.2));
            assert(prog@ =~= before + (a.0 + b.0));
            return Err(e);
        },
        Ok(p2) => p2,
    };
    prog.push(GInstr::FoilMul);
    let ghost ab = a.0 + b.0.push(GInstr::FoilMul);
    assert(prog@ =~= before + ab);
    if !matches!(tok_at(t, p2), Some(GToken::LParen)) {
        assert(p_group(t@, pos as int) == (ab, b.1, None::<GError>));
        return Ok(p2);
    }
    let ghost c = p_paren(t@, p2 as int);
    match parse_paren(t, p2, prog) {
        Err(e) => {
            assert(p_group(t@, pos as int) == (ab + c.0, c.1, c.2));
            assert(prog@ =~= before + (ab + c.0));
            Err(e)
        },
        Ok(p3) => {
            prog.push(GInstr::Mul);
            assert(p_group(t@, pos as int) == (ab + c.0.push(GInstr::Mul), c.1, None::<GError>));
            assert(prog@ =~= before + (ab + c.0.push(GInstr::Mul)));
            Ok(p3)
        },
    }
}

fn parse_paren(t: &[GToken], pos: usize, prog: &mut Vec<GInstr>) -> (r: Result<usize, GError>)
    requires
        pos <= t@.len(),
    ensures
        parsed(t@, pos as int, p_paren(t@, pos as int), r),
        final(prog)@ == old(prog)@ + p_paren(t@, pos as int).0,
    decreases rem(t@, pos as int), 1nat,
{
    if !matches!(tok_at(t, pos), Some(GToken::LParen)) {
        return Err(GError::ExpectedOpen);
    }
    match parse_expr(t, pos + 1, prog) {
        Err(e) => Err(e),
        Ok(p1) => {
            if matches!(tok_at(t, p1), Some(GToken::RParen)) {
                Ok(p1 + 1)
            } else {
                Err(GError::ExpectedClose)
            }
        },
    }
}

/// Parses a polynomial expression into the steps that simplify it. On a
/// syntax error, the error comes back with the steps of the constructs read
/// before it, in the order they were read. Tokens after a complete expression
/// are ignored. A program without error runs on an empty stack and leaves one
/// polynomial.
pub fn g_parse(toks: &[GToken]) -> (r: (Vec<GInstr>, Option<GError>))
    ensures
        r.0@ == p_expr(toks@, 0).0,
        r.1 == p_expr(toks@, 0).2,
        r.1 is None ==> depth_after(r.0@, 0) == Some(1int),
{
    let mut prog: Vec<GInstr> = Vec::new();
    let res = parse_expr(toks, 0, &mut prog);
    proof {
        assert(prog@ =~= p_expr(toks@, 0).0);
    }
    match res {
        Ok(_) => {
            proof {
                lemma_parse_balanced(toks@);
            }
            (prog, None)
        },
        Err(e) => (prog, Some(e)),
    }
}


/// How many polynomials an instruction takes from the stack; each one puts
/// one back.
pub open spec fn arity(i: GInstr) -> int {
    match i {
        GInstr::Const(_) | GInstr::Term(_, _) => 0,
        GInstr::Neg | GInstr::Pow(_) | GInstr::Distribute(_) => 1,
        _ => 2,
    }
}

/// The depth of the stack after running `prog` from depth `d`, or `None` when
/// an instruction finds fewer polynomials than it takes.
pub open spec fn depth_after(prog: Seq<GInstr>, d: int) -> Option<int>
    decreases prog.len(),
{
    if prog.len() == 0 {
        Some(d)
    } else if d < arity(prog[0]) {
        None
    } else {
        depth_after(prog.subrange(1, prog.len() as int), d - arity(prog[0]) + 1)
    }
}

/// Running two programs one after the other.
pub proof fn lemma_depth_concat(a: Seq<GInstr>, b: Seq<GInstr>, d: int)
    ensures
        depth_after(a + b, d) == (match depth_after(a, d) {
            Some(e) => depth_after(b, e),
            None => None,
        }),
    decreases a.len(),
{
    if a.len() == 0 {
        assert(a + b =~= b);
    } else {
        assert((a + b).subrange(1, (a + b).len() as int) =~= a.subrange(1, a.len() as int) + b);
        assert((a + b)[0] == a[0]);
        lemma_depth_concat(a.subrange(1, a.len() as int), b, d - arity(a[0]) + 1);
    }
}

proof fn lemma_depth_push(a: Seq<GInstr>, i: GInstr, d: int)
    ensures
        depth_after(a.push(i), d) == (match depth_after(a, d) {
            Some(e) => if e < arity(i) { None } else { Some(e - arity(i) + 1) },
            None => None,
        }),
{
    assert(a.push(i) =~= a + seq![i]);
    lemma_depth_concat(a, seq![i], d);
    let e = depth_after(a, d);
    if e is Some {
        assert(seq![i].subrange(1, 1) =~= Seq::<GInstr>::empty());
        assert(depth_after(Seq::<GInstr>::empty(), e->0 - arity(i) + 1) == Some(e->0 - arity(i) + 1));
    }
}

proof fn lemma_depth_single(i: GInstr, d: int)
    ensures
        depth_after(seq![i], d) == (if d < arity(i) { None } else { Some(d - arity(i) + 1) }),
{
    assert(seq![i] =~= Seq::<GInstr>::empty().push(i));
    lemma_depth_push(Seq::<GInstr>::empty(), i, d);
}

proof fn lemma_expr_depth(t: Seq<GToken>, pos: int, d: int)
    requires
        d >= 0,
        p_expr(t, pos).2 is None,
    ensures
        depth_after(p_expr(t, pos).0, d) == Some(d + 1),
    decreases rem(t, pos), 9nat,
{
    let neg = tok(t, pos) == Some(GToken::Minus);
    let p0 = if neg { pos + 1 } else { pos };
    let a = p_term(t, p0);
    lemma_term_depth(t, p0, d);
    let prog = if neg { a.0.push(GInstr::Neg) } else { a.0 };
    lemma_depth_push(a.0, GInstr::Neg, d);
    if a.1 >= pos {
        lemma_expr_rest_depth(t, a.1, d + 1);
        lemma_depth_concat(prog, p_expr_rest(t, a.1).0, d);
    }
}

proof fn lemma_expr_rest_depth(t: Seq<GToken>, pos: int, d: int)
    requires
        d >= 1,
        p_expr_rest(t, pos).2 is None,
    ensures
        depth_after(p_expr_rest(t, pos).0, d) == Some(d),
    decreases rem(t, pos), 8nat,
{
    if tok(t, pos) == Some(GToken::Plus) || tok(t, pos) == Some(GToken::Minus) {
        let op = if tok(t, pos) == Some(GToken::Plus) { GInstr::Add } else { GInstr::Sub };
        let a = p_term(t, pos + 1);
        lemma_term_depth(t, pos + 1, d);
        lemma_depth_push(a.0, op, d);
        if a.1 > pos {
            lemma_expr_rest_depth(t, a.1, d);
            lemma_depth_concat(a.0.push(op), p_expr_rest(t, a.1).0, d);
        }
    } else {
        assert(depth_after(Seq::<GInstr>::empty(), d) == Some(d));
    }
}

proof fn lemma_term_depth(t: Seq<GToken>, pos: int, d: int)
    requires
        d >= 0,
        p_term(t, pos).2 is None,
    ensures
        depth_after(p_term(t, pos).0, d) == Some(d + 1),
    decreases rem(t, pos), 7nat,
{
    let a = p_power(t, pos);
    lemma_power_depth(t, pos, d);
    if a.1 >= pos {
        lemma_term_rest_depth(t, a.1, d + 1);
        lemma_depth_concat(a.0, p_term_rest(t, a.1).0, d);
    }
}

proof fn lemma_term_rest_depth(t: Seq<GToken>, pos: int, d: int)
    requires
        d >= 1,
        p_term_rest(t, pos).2 is None,
    ensures
        depth_after(p_term_rest(t, pos).0, d) == Some(d),
    decreases rem(t, pos), 6nat,
{
    if tok(t, pos) == Some(GToken::Star) || tok(t, pos) == Some(GToken::Slash) {
        let op = if tok(t, pos) == Some(GToken::Star) { GInstr::Mul } else { GInstr::Div };
        let a = p_power(t, pos + 1);
        lemma_power_depth(t, pos + 1, d);
        lemma_depth_push(a.0, op, d);
        if a.1 > pos {
            lemma_term_rest_depth(t, a.1, d);
            lemma_depth_concat(a.0.push(op), p_term_rest(t, a.1).0, d);
        }
    } else {
        assert(depth_after(Seq::<GInstr>::empty(), d) == Some(d));
    }
}

proof fn lemma_power_depth(t: Seq<GToken>, pos: int, d: int)
    requires
        d >= 0,
        p_power(t, pos).2 is None,
    ensures
        depth_after(p_power(t, pos).0, d) == Some(d + 1),
    decreases rem(t, pos), 5nat,
{
    let a = p_primary(t, pos);
    lemma_primary_depth(t, pos, d);
    if tok(t, a.1) == Some(GToken::Caret) {
        match tok(t, a.1 + 1) {
            Some(GToken::Num(e)) => {
                lemma_depth_push(a.0, GInstr::Pow(e), d);
            },
            _ => {},
        }
    }
}

proof fn lemma_primary_depth(t: Seq<GToken>, pos: int, d: int)
    requires
        d >= 0,
        p_primary(t, pos).2 is None,
    ensures
        depth_after(p_primary(t, pos).0, d) == Some(d + 1),
    decreases rem(t, pos), 4nat,
{
    match tok(t, pos) {
        Some(GToken::Num(n)) => {
            lemma_num_primary_depth(t, pos, n, d);
        },
        Some(GToken::Var) => {
            let e = p_exponent(t, pos + 1);
            lemma_depth_single(GInstr::Term(None, e.0), d);
        },
        Some(GToken::LParen) => {
            lemma_group_depth(t, pos, d);
        },
        Some(GToken::Minus) => {
            let a = p_primary(t, pos + 1);
            lemma_primary_depth(t, pos + 1, d);
            lemma_depth_push(a.0, GInstr::Neg, d);
        },
        _ => {},
    }
}

proof fn lemma_num_primary_depth(t: Seq<GToken>, pos: int, n: Span, d: int)
    requires
        d >= 0,
        p_num_primary(t, pos, n).2 is None,
    ensures
        depth_after(p_num_primary(t, pos, n).0, d) == Some(d + 1),
    decreases rem(t, pos), 3nat,
{
    if tok(t, pos + 1) == Some(GToken::Var) {
        let e = p_exponent(t, pos + 2);
        lemma_depth_single(GInstr::Term(Some(n), e.0), d);
    } else if tok(t, pos + 1) == Some(GToken::LParen) {
        lemma_distribution_depth(t, pos, n, d);
    } else {
        lemma_depth_single(GInstr::Const(n), d);
    }
}

proof fn lemma_distribution_depth(t: Seq<GToken>, pos: int, n: Span, d: int)
    requires
        d >= 0,
        p_distribution(t, pos, n).2 is None,
    ensures
        depth_after(p_distribution(t, pos, n).0, d) == Some(d + 1),
    decreases rem(t, pos), 2nat,
{
    let a = p_paren(t, pos + 1);
    lemma_paren_depth(t, pos + 1, d);
    let pa = a.0.push(GInstr::Distribute(n));
    lemma_depth_push(a.0, GInstr::Distribute(n), d);
    if tok(t, a.1) == Some(GToken::LParen) && a.1 >= pos {
        let b = p_paren(t, a.1);
        lemma_paren_depth(t, a.1, d + 1);
        lemma_depth_push(b.0, GInstr::FoilMul, d + 1);
        lemma_depth_concat(pa, b.0.push(GInstr::FoilMul), d);
    }
}

proof fn lemma_group_depth(t: Seq<GToken>, pos: int, d: int)
    requires
        d >= 0,
        p_group(t, pos).2 is None,
    ensures
        depth_after(p_group(t, pos).0, d) == Some(d + 1),
    decreases rem(t, pos), 3nat,
{
    let a = p_paren(t, pos);
    lemma_paren_depth(t, pos, d);
    if tok(t, a.1) == Some(GToken::LParen) && a.1 >= pos {
        let b = p_paren(t, a.1);
        lemma_paren_depth(t, a.1, d + 1);
        lemma_depth_push(b.0, GInstr::FoilMul, d + 1);
        let ab = a.0 + b.0.push(GInstr::FoilMul);
        lemma_depth_concat(a.0, b.0.push(GInstr::FoilMul), d);
        if tok(t, b.1) == Some(GToken::LParen) && b.1 >= pos {
            let c = p_paren(t, b.1);
            lemma_paren_depth(t, b.1, d + 1);
            lemma_depth_push(c.0, GInstr::Mul, d + 1);
            lemma_depth_concat(ab, c.0.push(GInstr::Mul), d);
        }
    }
}

proof fn lemma_paren_depth(t: Seq<GToken>, pos: int, d: int)
    requires
        d >= 0,
        p_paren(t, pos).2 is None,
    ensures
        depth_after(p_paren(t, pos).0, d) == Some(d + 1),
    decreases rem(t, pos), 1nat,
{
    lemma_expr_depth(t, pos + 1, d);
}

/// Every program the parser accepts runs on an empty stack without an
/// instruction ever finding too few polynomials, and leaves exactly one: the
/// simplified expression.
pub proof fn lemma_parse_balanced(t: Seq<GToken>)
    requires
        p_expr(t, 0).2 is None,
    ensures
        depth_after(p_expr(t, 0).0, 0) == Some(1int),
{
    lemma_expr_depth(t, 0, 0);
}

/// An expression that does not open with `-` starts its program with the
/// steps of its first primary.
proof fn lemma_leading_step(t: Seq<GToken>)
    requires
        p_primary(t, 0).2 is None,
        p_primary(t, 0).0.len() > 0,
        tok(t, 0) != Some(GToken::Minus),
    ensures
        p_expr(t, 0).0.len() > 0,
        p_expr(t, 0).0[0] == p_primary(t, 0).0[0],
{
    let a = p_primary(t, 0);
    let pw = p_power(t, 0);
    assert(pw.2 is None && pw.0.len() > 0 && pw.0[0] == a.0[0]);
    let tm = p_term(t, 0);
    if pw.1 >= 0 {
        let b = p_term_rest(t, pw.1);
        assert((pw.0 + b.0)[0] == pw.0[0]);
    }
    assert(tm.0.len() > 0 && tm.0[0] == a.0[0]);
    if tm.2 is None && tm.1 >= 0 {
        let b = p_expr_rest(t, tm.1);
        assert((tm.0 + b.0)[0] == tm.0[0]);
    }
}

/// The program of an expression starts with the monomial the expression
/// opens with: `x` is the term of coefficient 1 and exponent 1, `x^k` the
/// term of coefficient 1 and exponent `k`, `c x` and `c x^k` the same terms
/// with coefficient `c`, and a number followed by neither `x` nor a bracket
/// is that constant.
pub proof fn lemma_leading_monomial(t: Seq<GToken>, c: Span, k: Span)
    ensures
        t.len() >= 3 && t[0] == GToken::Var && t[1] == GToken::Caret && t[2] == GToken::Num(k) ==> {
            &&& p_expr(t, 0).0.len() > 0
            &&& p_expr(t, 0).0[0] == GInstr::Term(None, Some(k))
        },
        t.len() >= 1 && t[0] == GToken::Var && tok(t, 1) != Some(GToken::Caret) ==> {
            &&& p_expr(t, 0).0.len() > 0
            &&& p_expr(t, 0).0[0] == GInstr::Term(None, None)
        },
        t.len() >= 4 && t[0] == GToken::Num(c) && t[1] == GToken::Var && t[2] == GToken::Caret
            && t[3] == GToken::Num(k) ==> {
            &&& p_expr(t, 0).0.len() > 0
            &&& p_expr(t, 0).0[0] == GInstr::Term(Some(c), Some(k))
        },
        t.len() >= 2 && t[0] == GToken::Num(c) && t[1] == GToken::Var && tok(t, 2) != Some(GToken::Caret) ==> {
            &&& p_expr(t, 0).0.len() > 0
            &&& p_expr(t, 0).0[0] == GInstr::Term(Some(c), None)
        },
        t.len() >= 1 && t[0] == GToken::Num(c) && tok(t, 1) != Some(GToken::Var)
            && tok(t, 1) != Some(GToken::LParen) ==> {
            &&& p_expr(t, 0).0.len() > 0
            &&& p_expr(t, 0).0[0] == GInstr::Const(c)
        },
{
    if t.len() >= 1 && (t[0] == GToken::Var || t[0] == GToken::Num(c)) {
        let a = p_primary(t, 0);
        if t[0] == GToken::Var {
            let e = p_exponent(t, 1);
            if tok(t, 1) == Some(GToken::Caret) && t.len() >= 3 && t[2] == GToken::Num(k) {
                assert(e == (Some(k), 3int, None::<GError>));
                assert(a.0 == seq![GInstr::Term(None, Some(k))]);
            } else if tok(t, 1) != Some(GToken::Caret) {
                assert(a.0 == seq![GInstr::Term(None, None)]);
            }
            if a.2 is None {
                lemma_leading_step(t);
            }
        } else {
            let e = p_exponent(t, 2);
            if tok(t, 1) == Some(GToken::Var) {
                if t.len() >= 4 && t[2] == GToken::Caret && t[3] == GToken::Num(k) {
                    assert(e == (Some(k), 4int, None::<GError>));
                    assert(a.0 == seq![GInstr::Term(Some(c), Some(k))]);
                } else if tok(t, 2) != Some(GToken::Caret) {
                    assert(a.0 == seq![GInstr::Term(Some(c), None)]);
                }
            } else if tok(t, 1) != Some(GToken::LParen) {
                assert(a.0 == seq![GInstr::Const(c)]);
            }
            if a.2 is None && a.0.len() > 0 {
                lemma_leading_step(t);
            }
        }
    }
}

/// `x^k + c` is pushing the monomial of degree `k`, pushing `c`, and adding;
/// every token is read.
pub proof fn lemma_power_plus_constant(k: Span, c: Span)
    ensures
        p_expr(seq![GToken::Var, GToken::Caret, GToken::Num(k), GToken::Plus, GToken::Num(c)], 0)
            == (seq![GInstr::Term(None, Some(k)), GInstr::Const(c), GInstr::Add], 5int, None::<GError>),
{
    let t = seq![GToken::Var, GToken::Caret, GToken::Num(k), GToken::Plus, GToken::Num(c)];
    assert(p_exponent(t, 1) == (Some(k), 3int, None::<GError>));
    assert(p_primary(t, 0) == (seq![GInstr::Term(None, Some(k))], 3int, None::<GError>));
    assert(p_power(t, 0) == p_primary(t, 0));
    assert(p_term_rest(t, 3) == (Seq::<GInstr>::empty(), 3int, None::<GError>));
    assert(p_term(t, 0) == (seq![GInstr::Term(None, Some(k))], 3int, None::<GError>));
    assert(p_primary(t, 4) == (seq![GInstr::Const(c)], 5int, None::<GError>));
    assert(p_power(t, 4) == p_primary(t, 4));
    assert(p_term_rest(t, 5) == (Seq::<GInstr>::empty(), 5int, None::<GError>));
    assert(p_term(t, 4) == (seq![GInstr::Const(c)], 5int, None::<GError>));
    assert(p_expr_rest(t, 5) == (Seq::<GInstr>::empty(), 5int, None::<GError>));
    assert(p_expr_rest(t, 3) == (seq![GInstr::Const(c), GInstr::Add], 5int, None::<GError>));
}

/// `a + b`, `a - b`, `a * b` and `a / b` of two numbers push both constants and
/// then add, subtract, multiply or divide them; every token is read.
pub proof fn lemma_binary_constants(a: Span, op: GToken, b: Span)
    requires
        op == GToken::Plus || op == GToken::Minus || op == GToken::Star || op == GToken::Slash,
    ensures
        p_expr(seq![GToken::Num(a), op, GToken::Num(b)], 0) == (seq![
            GInstr::Const(a),
            GInstr::Const(b),
            if op == GToken::Plus { GInstr::Add } else if op == GToken::Minus { GInstr::Sub }
                else if op == GToken::Star { GInstr::Mul } else { GInstr::Div },
        ], 3int, None::<GError>),
{
    let t = seq![GToken::Num(a), op, GToken::Num(b)];
    assert(tok(t, 1) == Some(op) && tok(t, 3) == None::<GToken>);
    assert(p_num_primary(t, 0, a) == (seq![GInstr::Const(a)], 1int, None::<GError>));
    assert(p_num_primary(t, 2, b) == (seq![GInstr::Const(b)], 3int, None::<GError>));
    assert(p_primary(t, 0) == (seq![GInstr::Const(a)], 1int, None::<GError>));
    assert(p_power(t, 0) == p_primary(t, 0));
    assert(p_primary(t, 2) == (seq![GInstr::Const(b)], 3int, None::<GError>));
    assert(p_power(t, 2) == p_primary(t, 2));
    assert(p_term_rest(t, 3) == (Seq::<GInstr>::empty(), 3int, None::<GError>));
    assert(p_expr_rest(t, 3) == (Seq::<GInstr>::empty(), 3int, None::<GError>));
    if op == GToken::Plus || op == GToken::Minus {
        assert(p_term_rest(t, 1) == (Seq::<GInstr>::empty(), 1int, None::<GError>));
        assert(p_term(t, 0) == (seq![GInstr::Const(a)], 1int, None::<GError>));
        assert(p_term(t, 2) == (seq![GInstr::Const(b)], 3int, None::<GError>));
    } else {
        let opi = if op == GToken::Star { GInstr::Mul } else { GInstr::Div };
        assert(p_term_rest(t, 1) == (seq![GInstr::Const(b), opi], 3int, None::<GError>));
        assert(p_term(t, 0) == (seq![GInstr::Const(a), GInstr::Const(b), opi], 3int, None::<GError>));
    }
}

} // verus!
