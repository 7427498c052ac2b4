//! The texts of the reference cards, one line per row.

use vstd::prelude::*;
use crate::app_state::screen::Screen;

verus! {

/// The lines of the card that a screen shows; no lines for other screens.
pub open spec fn spec_card(s: Screen) -> Seq<Seq<char>> {
    match s {
        Screen::RefFieldAxioms => seq![
            "CLOSURE"@,
            "  a+b and a*b are real numbers"@,
            "COMMUTATIVE"@,
            "  a + b = b + a"@,
            "  a * b = b * a"@,
            "ASSOCIATIVE"@,
            "  (a + b) + c = a + (b + c)"@,
            "  (a * b) * c = a * (b * c)"@,
            "IDENTITY"@,
            "  a + 0 = a"@,
            "  a * 1 = a"@,
            "INVERSES"@,
            "  a + (-a) = 0"@,
            "  a * (1/a) = 1   (a != 0)"@,
            "DISTRIBUTIVE"@,
            "  a(b + c) = ab + ac"@,
            "  (a + b)c = ac + bc"@,
        ],
        Screen::RefFormulas => seq![
            "SLOPE"@,
            "  m = (y2 - y1) / (x2 - x1)"@,
            "LINEAR FORMS"@,
            "  Slope-int:  y = mx + b"@,
            "  Pt-slope:   y - y1 = m(x - x1)"@,
            "  Standard:   Ax + By = C"@,
            "QUADRATIC FORMULA"@,
            "  x = (-b +/- sqrt(b^2-4ac)) / 2a"@,
            "DISCRIMINANT D = b^2 - 4ac"@,
            "  D > 0: two real roots"@,
            "  D = 0: one real root"@,
            "  D < 0: two complex roots"@,
            "VERTEX"@,
            "  h = -b / 2a,  k = f(h)"@,
            "  y = a(x - h)^2 + k"@,
            "COMPLETING THE SQUARE"@,
            "  x^2 + bx = (x + b/2)^2 - (b/2)^2"@,
            "IMAGINARY UNIT"@,
            "  i = sqrt(-1),  i^2 = -1"@,
            "  i^3 = -i,  i^4 = 1 (cycle of 4)"@,
        ],
        Screen::RefProperties => seq![
            "EQUALITY"@,
            "  Reflexive:  a = a"@,
            "  Symmetric:  a = b -> b = a"@,
            "  Transitive: a=b, b=c -> a=c"@,
            "  Add/Sub:    a = b -> a+c = b+c"@,
            "  Mult/Div:   a = b -> ac = bc"@,
            "ORDER"@,
            "  a < b -> a + c < b + c"@,
            "  a < b, c > 0 -> ac < bc"@,
            "  a < b, c < 0 -> ac > bc (FLIP)"@,
            "ZERO AND ONE"@,
            "  a * 0 = 0"@,
            "  ab = 0 -> a = 0 or b = 0"@,
            "  -1 * a = -a"@,
            "FRACTIONS"@,
            "  a/b + c/d = (ad + bc)/bd"@,
            "  (a/b)(c/d) = ac/bd"@,
            "  (a/b)/(c/d) = ad/bc"@,
        ],
        Screen::RefQuadRef => seq![
            "FORMS"@,
            "  Standard: y = ax^2 + bx + c"@,
            "  Vertex:   y = a(x - h)^2 + k"@,
            "COMPLETE THE SQUARE"@,
            "  1. Factor a from x^2, x terms"@,
            "  2. Add and subtract (b/2a)^2"@,
            "  3. Write as a(x - h)^2 + k"@,
            "QUADRATIC FORMULA"@,
            "  x = (-b +/- sqrt(D)) / 2a"@,
            "COMPLEX ROOTS (D < 0)"@,
            "  x = -b/2a +/- (sqrt(-D)/2a) i"@,
            "CONJUGATES"@,
            "  (a + bi)(a - bi) = a^2 + b^2"@,
            "COMPLEX DIVISION"@,
            "  Multiply top and bottom by the"@,
            "  conjugate of the denominator:"@,
            "  (a+bi)/(c+di) ="@,
            "  (a+bi)(c-di) / (c^2 + d^2)"@,
        ],
        _ => seq![],
    }
}

/// The lines of the card that `screen` shows; no lines for other screens.
pub fn card_lines(screen: &Screen) -> (r: &'static [&'static str])
    ensures
        r@.map_values(|l: &str| l@) == spec_card(*screen),
{
    let r: &'static [&'static str] = match screen {
        Screen::RefFieldAxioms => &[
            "CLOSURE",
            "  a+b and a*b are real numbers",
            "COMMUTATIVE",
            "  a + b = b + a",
            "  a * b = b * a",
            "ASSOCIATIVE",
            "  (a + b) + c = a + (b + c)",
            "  (a * b) * c = a * (b * c)",
            "IDENTITY",
            "  a + 0 = a",
            "  a * 1 = a",
            "INVERSES",
            "  a + (-a) = 0",
            "  a * (1/a) = 1   (a != 0)",
            "DISTRIBUTIVE",
            "  a(b + c) = ab + ac",
            "  (a + b)c = ac + bc",
        ],
        Screen::RefFormulas => &[
            "SLOPE",
            "  m = (y2 - y1) / (x2 - x1)",
            "LINEAR FORMS",
            "  Slope-int:  y = mx + b",
            "  Pt-slope:   y - y1 = m(x - x1)",
            "  Standard:   Ax + By = C",
            "QUADRATIC FORMULA",
            "  x = (-b +/- sqrt(b^2-4ac)) / 2a",
            "DISCRIMINANT D = b^2 - 4ac",
            "  D > 0: two real roots",
            "  D = 0: one real root",
            "  D < 0: two complex roots",
            "VERTEX",
            "  h = -b / 2a,  k = f(h)",
            "  y = a(x - h)^2 + k",
            "COMPLETING THE SQUARE",
            "  x^2 + bx = (x + b/2)^2 - (b/2)^2",
            "IMAGINARY UNIT",
            "  i = sqrt(-1),  i^2 = -1",
            "  i^3 = -i,  i^4 = 1 (cycle of 4)",
        ],
        Screen::RefProperties => &[
            "EQUALITY",
            "  Reflexive:  a = a",
            "  Symmetric:  a = b -> b = a",
            "  Transitive: a=b, b=c -> a=c",
            "  Add/Sub:    a = b -> a+c = b+c",
            "  Mult/Div:   a = b -> ac = bc",
            "ORDER",
            "  a < b -> a + c < b + c",
            "  a < b, c > 0 -> ac < bc",
            "  a < b, c < 0 -> ac > bc (FLIP)",
            "ZERO AND ONE",
            "  a * 0 = 0",
            "  ab = 0 -> a = 0 or b = 0",
            "  -1 * a = -a",
            "FRACTIONS",
            "  a/b + c/d = (ad + bc)/bd",
            "  (a/b)(c/d) = ac/bd",
            "  (a/b)/(c/d) = ad/bc",
        ],
        Screen::RefQuadRef => &[
            "FORMS",
            "  Standard: y = ax^2 + bx + c",
            "  Vertex:   y = a(x - h)^2 + k",
            "COMPLETE THE SQUARE",
            "  1. Factor a from x^2, x terms",
            "  2. Add and subtract (b/2a)^2",
            "  3. Write as a(x - h)^2 + k",
            "QUADRATIC FORMULA",
            "  x = (-b +/- sqrt(D)) / 2a",
            "COMPLEX ROOTS (D < 0)",
            "  x = -b/2a +/- (sqrt(-D)/2a) i",
            "CONJUGATES",
            "  (a + bi)(a - bi) = a^2 + b^2",
            "COMPLEX DIVISION",
            "  Multiply top and bottom by the",
            "  conjugate of the denominator:",
            "  (a+bi)/(c+di) =",
            "  (a+bi)(c-di) / (c^2 + d^2)",
        ],
        _ => &[],
    };
    proof {
        assert(r@.map_values(|l: &str| l@) =~= spec_card(*screen));
    }
    r
}

} // verus!
