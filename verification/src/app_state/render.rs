//! What each screen shows, as a display list.

use vstd::prelude::*;
use vstd::string::StringExecFns;
use crate::constants::{CONTENT_Y, FOOTER_Y, FOOTER_H, ROW_H, W, HEADER_H, LABEL_X, INPUT_X, INPUT_W, RESULT_X};
use crate::reference::draw_ref_card;
use crate::ui::draw::{
    DrawOp, Color, clear_screen, draw_header, draw_footer, draw_line, draw_input_field, draw_sep,
    draw_result_line, draw_warn_line, extends, added, is_fill, is_text, screen_rect, point,
    lemma_extends_trans, lemma_extends_refl,
};
use crate::ui::menu::{Menu, menu_drawn};
use crate::reference::ref_card_drawn;
use crate::cards::{card_lines, spec_card};
use crate::ui::draw::{row_rect, rect, field_text, field_value_x};
use crate::ui::input::shown_text;
use vstd::utf8::encode_utf8;
use super::screen::{Screen, spec_is_menu, spec_is_ref, spec_input_count, spec_tool_title, spec_tool_labels, tool_info, lemma_input_count_bounds, spec_max_items, spec_menu_target};
use super::AppState;

verus! {

/// Title of a menu or reference screen.
pub open spec fn spec_menu_title(s: Screen) -> Seq<char> {
    match s {
        Screen::MainMenu => "Alg2A Tools"@,
        Screen::LinearMenu => "Linear Functions"@,
        Screen::QuadMenu => "Quadratic Functions"@,
        Screen::SystemsMenu => "Systems & Equations"@,
        Screen::ComplexMenu => "Complex Numbers"@,
        Screen::RefMenu => "Reference Cards"@,
        Screen::PolyMenu => "Polynomials"@,
        Screen::SimplifierMenu => "Simplifier"@,
        Screen::RefFieldAxioms => "Reference: Field Axioms"@,
        Screen::RefFormulas => "Reference: Key Formulas"@,
        Screen::RefProperties => "Reference: Alg Properties"@,
        Screen::RefQuadRef => "Reference: Quad Quick Ref"@,
        _ => ""@,
    }
}

/// Items of a menu screen.
pub open spec fn spec_menu_items(s: Screen) -> Seq<Seq<char>> {
    match s {
        Screen::MainMenu => seq![
            "Linear Functions"@,
            "Quadratic Fns"@,
            "Systems & Eq"@,
            "Complex Nums"@,
            "Polynomials"@,
            "Simplifier"@,
            "Reference"@,
        ],
        Screen::LinearMenu => seq!["2 Pts to Equation"@, "Form Converter"@, "Slope Calc"@, "Intercepts"@, "Parallel/Perp"@],
        Screen::QuadMenu => seq!["Vertex Form Conv"@, "Quad Analyzer"@, "Vertex to Std Form"@],
        Screen::SystemsMenu => seq!["2x2 System Solver"@, "Abs Value Solver"@, "Inequality Solver"@],
        Screen::ComplexMenu => seq!["Complex Arithmetic"@, "Powers of i"@, "Conjugate & Modulus"@],
        Screen::RefMenu => seq!["Field Axioms"@, "Key Formulas"@, "Alg Properties"@, "Quad Quick Ref"@],
        Screen::PolyMenu => seq![
            "FOIL Expand"@,
            "Factor Trinomial"@,
            "Diff of Squares"@,
            "Perfect Square?"@,
            "GCF Factor"@,
            "Poly Eval"@,
            "Synth Div"@,
            "Sum/Diff Cubes"@,
        ],
        Screen::SimplifierMenu => seq![
            "General Simplify"@,
            "Mul Monomials"@,
            "Div Monomials"@,
            "Power of Power"@,
            "Power of Prod"@,
            "Neg Exponent"@,
            "Combine Like"@,
            "Distribute"@,
            "Binomial Power"@,
            "Identities"@,
        ],
        _ => seq![],
    }
}

/// The label under which a screen is listed in the menu that leads to it.
pub open spec fn spec_listed_as(s: Screen) -> Seq<char> {
    match s {
        Screen::LinearMenu => "Linear Functions"@,
        Screen::QuadMenu => "Quadratic Fns"@,
        Screen::SystemsMenu => "Systems & Eq"@,
        Screen::ComplexMenu => "Complex Nums"@,
        Screen::PolyMenu => "Polynomials"@,
        Screen::SimplifierMenu => "Simplifier"@,
        Screen::RefMenu => "Reference"@,
        Screen::TwoPtsLine => "2 Pts to Equation"@,
        Screen::FormConvert => "Form Converter"@,
        Screen::SlopeCalc => "Slope Calc"@,
        Screen::InterceptFinder => "Intercepts"@,
        Screen::ParPerpSlope => "Parallel/Perp"@,
        Screen::VertexConvert => "Vertex Form Conv"@,
        Screen::QuadAnalyzer => "Quad Analyzer"@,
        Screen::VertexToStd => "Vertex to Std Form"@,
        Screen::SystemSolver => "2x2 System Solver"@,
        Screen::AbsValueSolver => "Abs Value Solver"@,
        Screen::InequalSolver => "Inequality Solver"@,
        Screen::ComplexArith => "Complex Arithmetic"@,
        Screen::PowersOfI => "Powers of i"@,
        Screen::ConjModulus => "Conjugate & Modulus"@,
        Screen::RefFieldAxioms => "Field Axioms"@,
        Screen::RefFormulas => "Key Formulas"@,
        Screen::RefProperties => "Alg Properties"@,
        Screen::RefQuadRef => "Quad Quick Ref"@,
        Screen::FoilExpand => "FOIL Expand"@,
        Screen::FactorTri => "Factor Trinomial"@,
        Screen::DiffSquares => "Diff of Squares"@,
        Screen::PerfectSq => "Perfect Square?"@,
        Screen::GcfFactor => "GCF Factor"@,
        Screen::PolyEval => "Poly Eval"@,
        Screen::SynthDiv => "Synth Div"@,
        Screen::SumDiffCubes => "Sum/Diff Cubes"@,
        Screen::ExprSimplify => "General Simplify"@,
        Screen::SimpMulMono => "Mul Monomials"@,
        Screen::SimpDivMono => "Div Monomials"@,
        Screen::SimpPowPow => "Power of Power"@,
        Screen::SimpPowProd => "Power of Prod"@,
        Screen::SimpNegExp => "Neg Exponent"@,
        Screen::SimpCombine => "Combine Like"@,
        Screen::SimpDistrib => "Distribute"@,
        Screen::SimpBinPow => "Binomial Power"@,
        Screen::SimpIdentity => "Identities"@,
        Screen::MainMenu => ""@,
    }
}

/// Every item of every menu opens the screen it names: the item shown at
/// position `i` is the label of the screen that `OK` opens from it.
pub proof fn lemma_menu_item_opens_its_screen(s: Screen, i: int)
    requires
        spec_is_menu(s),
        0 <= i < spec_max_items(s),
    ensures
        spec_menu_target(s, i) is Some,
        spec_menu_items(s).len() == spec_max_items(s),
        spec_menu_items(s)[i] == spec_listed_as(spec_menu_target(s, i).unwrap()),
{
}

/// Title and items of a menu screen; the title of a reference screen.
pub fn menu_content(screen: &Screen) -> (r: (&'static str, &'static [&'static str]))
    ensures
        r.0@ == spec_menu_title(*screen),
        r.1@.map_values(|l: &str| l@) == spec_menu_items(*screen),
        spec_is_menu(*screen) ==> r.1@.len() == super::screen::spec_max_items(*screen),
{
    let r: (&'static str, &'static [&'static str]) = match screen {
        Screen::MainMenu => ("Alg2A Tools", &["Linear Functions", "Quadratic Fns", "Systems & Eq",
            "Complex Nums", "Polynomials", "Simplifier", "Reference"]),
        Screen::LinearMenu => ("Linear Functions", &["2 Pts to Equation", "Form Converter", "Slope Calc",
            "Intercepts", "Parallel/Perp"]),
        Screen::QuadMenu => ("Quadratic Functions", &["Vertex Form Conv", "Quad Analyzer", "Vertex to Std Form"]),
        Screen::SystemsMenu => ("Systems & Equations", &["2x2 System Solver", "Abs Value Solver", "Inequality Solver"]),
        Screen::ComplexMenu => ("Complex Numbers", &["Complex Arithmetic", "Powers of i", "Conjugate & Modulus"]),
        Screen::RefMenu => ("Reference Cards", &["Field Axioms", "Key Formulas", "Alg Properties", "Quad Quick Ref"]),
        Screen::PolyMenu => ("Polynomials", &["FOIL Expand", "Factor Trinomial", "Diff of Squares",
            "Perfect Square?", "GCF Factor", "Poly Eval", "Synth Div", "Sum/Diff Cubes"]),
        Screen::SimplifierMenu => ("Simplifier", &["General Simplify", "Mul Monomials", "Div Monomials",
            "Power of Power", "Power of Prod", "Neg Exponent",
            "Combine Like", "Distribute", "Binomial Power", "Identities"]),
        Screen::RefFieldAxioms => ("Reference: Field Axioms", &[]),
        Screen::RefFormulas => ("Reference: Key Formulas", &[]),
        Screen::RefProperties => ("Reference: Alg Properties", &[]),
        Screen::RefQuadRef => ("Reference: Quad Quick Ref", &[]),
        _ => ("", &[]),
    };
    proof {
        assert(r.1@.map_values(|l: &str| l@) =~= spec_menu_items(*screen));
    }
    r
}

/// The line above the fields of the tools that have an operation choice.
pub open spec fn op_info(s: AppState) -> Option<Seq<char>> {
    match s.screen {
        Screen::InequalSolver => Some(
            "Op: "@ + (if s.inequal_op == 0 {
                "< (less)"@
            } else if s.inequal_op == 1 {
                "> (greater)"@
            } else if s.inequal_op == 2 {
                "<= (leq)"@
            } else {
                ">= (geq)"@
            }) + "  (L/R change)"@,
        ),
        Screen::ComplexArith => Some(
            "Op: "@ + (if s.complex_op == 0 {
                "+ (add)"@
            } else if s.complex_op == 1 {
                "- (sub)"@
            } else if s.complex_op == 2 {
                "x (mul)"@
            } else {
                "/ (div)"@
            }) + "  (L/R change)"@,
        ),
        Screen::SumDiffCubes => Some(
            "Op: "@ + (if s.cubes_op == 0 { "+ (sum)"@ } else { "- (diff)"@ }) + "  (L/R change)"@,
        ),
        Screen::SimpBinPow => Some(
            "Power: "@ + (if s.bin_pow_n == 0 { "^2 (square)"@ } else { "^3 (cube)"@ }) + "  (L/R change)"@,
        ),
        _ => None,
    }
}

/// The operation line names the operation chosen, in the order the choices
/// go round with `Right`: add, subtract, multiply, divide for complex
/// arithmetic; less, greater, at most, at least for inequalities; sum then
/// difference for cubes; square then cube for binomial powers. A choice past
/// the last shows the last.
pub proof fn lemma_op_line_names_choice(s: AppState)
    ensures
        s.screen == Screen::ComplexArith ==> op_info(s) == Some(
            "Op: "@ + seq!["+ (add)"@, "- (sub)"@, "x (mul)"@, "/ (div)"@][
                if s.complex_op < 3 { s.complex_op as int } else { 3 }] + "  (L/R change)"@),
        s.screen == Screen::InequalSolver ==> op_info(s) == Some(
            "Op: "@ + seq!["< (less)"@, "> (greater)"@, "<= (leq)"@, ">= (geq)"@][
                if s.inequal_op < 3 { s.inequal_op as int } else { 3 }] + "  (L/R change)"@),
        s.screen == Screen::SumDiffCubes ==> op_info(s) == Some(
            "Op: "@ + seq!["+ (sum)"@, "- (diff)"@][if s.cubes_op == 0 { 0int } else { 1 }] + "  (L/R change)"@),
        s.screen == Screen::SimpBinPow ==> op_info(s) == Some(
            "Power: "@ + seq!["^2 (square)"@, "^3 (cube)"@][if s.bin_pow_n == 0 { 0int } else { 1 }] + "  (L/R change)"@),
        op_info(s) is Some <==> (s.screen == Screen::ComplexArith || s.screen == Screen::InequalSolver
            || s.screen == Screen::SumDiffCubes || s.screen == Screen::SimpBinPow),
{
}

/// The line above the fields of the tools that have an operation choice.
fn op_info_line(state: &AppState) -> (r: Option<String>)
    ensures
        r is Some <==> op_info(*state) is Some,
        r is Some ==> r->0@ == op_info(*state)->0,
{
    match state.screen {
        Screen::InequalSolver => {
            let name = if state.inequal_op == 0 {
                "< (less)"
            } else if state.inequal_op == 1 {
                "> (greater)"
            } else if state.inequal_op == 2 {
                "<= (leq)"
            } else {
                ">= (geq)"
            };
            let mut info = String::from_str("Op: ");
            info.append(name);
            info.append("  (L/R change)");
            Some(info)
        },
        Screen::ComplexArith => {
            let name = if state.complex_op == 0 {
                "+ (add)"
            } else if state.complex_op == 1 {
                "- (sub)"
            } else if state.complex_op == 2 {
                "x (mul)"
            } else {
                "/ (div)"
            };
            let mut info = String::from_str("Op: ");
            info.append(name);
            info.append("  (L/R change)");
            Some(info)
        },
        Screen::SumDiffCubes => {
            let mut info = String::from_str("Op: ");
            info.append(if state.cubes_op == 0 { "+ (sum)" } else { "- (diff)" });
            info.append("  (L/R change)");
            Some(info)
        },
        Screen::SimpBinPow => {
            let mut info = String::from_str("Power: ");
            info.append(if state.bin_pow_n == 0 { "^2 (square)" } else { "^3 (cube)" });
            info.append("  (L/R change)");
            Some(info)
        },
        _ => None,
    }
}

/// Key hint under a tool screen.
pub open spec fn tool_hint() -> Seq<char> {
    "Up/Dn=Field  EXE=Calc  -=Sign  .=Dot  Back=Back"@
}

/// Row of the first input field: under the operation line when there is one.
pub open spec fn field_start(s: AppState) -> int {
    if op_info(s) is Some {
        CONTENT_Y + ROW_H
    } else {
        CONTENT_Y as int
    }
}

/// Steps before the fields: background, title bar, and the operation line.
pub open spec fn fields_off(s: AppState) -> int {
    if op_info(s) is Some {
        5
    } else {
        3
    }
}

/// Steps the first `i` fields take: four each, and one more for the active one.
pub open spec fn fields_len(s: AppState, i: int) -> int {
    4 * i + if s.active_input < i { 1int } else { 0int }
}

/// An input field drawn at step `off` after `base`, at row `y`: its row, its
/// label, its box (highlighted when `active`), its value right-aligned (`0`
/// when empty), and the cursor when active.
pub open spec fn field_drawn(
    base: Seq<DrawOp>,
    ops: Seq<DrawOp>,
    off: int,
    y: int,
    label: Seq<char>,
    value: Seq<char>,
    active: bool,
) -> bool {
    let fbg = if active { Color::Highlight } else { Color::InputBg };
    &&& is_fill(added(base, ops, off), row_rect(y), Color::Bg)
    &&& is_text(added(base, ops, off + 1), label, point(LABEL_X as int, y + 1), Color::Text, Color::Bg)
    &&& is_fill(added(base, ops, off + 2), rect(INPUT_X as int, y + 1, INPUT_W as int, ROW_H - 2), fbg)
    &&& is_text(
        added(base, ops, off + 3),
        field_text(value),
        point(field_value_x(encode_utf8(field_text(value)).len() as usize as int), y + 2),
        Color::Text,
        fbg,
    )
    &&& active ==> is_fill(added(base, ops, off + 4), rect(INPUT_X + INPUT_W - 2, y + 3, 1, ROW_H - 8), Color::Text)
}

/// Row of the first result line, under the separator.
pub open spec fn result_y0(s: AppState) -> int {
    field_start(s) + spec_input_count(s.screen) * ROW_H + 4
}

/// Result lines passed over: the general simplifier scrolls its steps.
pub open spec fn result_skip(s: AppState) -> int {
    if s.screen == Screen::ExprSimplify {
        s.scroll as int
    } else {
        0
    }
}

/// How many rows from `y0` on fit above the footer.
pub open spec fn rows_fit(y0: int) -> int {
    if y0 > FOOTER_Y {
        0
    } else {
        (FOOTER_Y - y0) / (ROW_H as int)
    }
}

/// How many result lines are shown: those after the skipped ones, as many as fit.
pub open spec fn shown_count(s: AppState) -> int {
    let n = s.result.lines@.len() as int;
    let sk = result_skip(s);
    if sk >= n {
        0
    } else if n - sk < rows_fit(result_y0(s)) {
        n - sk
    } else {
        rows_fit(result_y0(s))
    }
}

/// The `j`-th result line shown.
pub open spec fn shown_line(s: AppState, j: int) -> (String, String) {
    s.result.lines@[result_skip(s) + j]
}

/// Whether the warning fits under the shown result lines.
pub open spec fn warn_shown(s: AppState) -> bool {
    s.result.warn is Some && result_y0(s) + shown_count(s) * ROW_H + ROW_H <= FOOTER_Y
}

/// Steps the results take: the separator, three per shown line, two for the warning.
pub open spec fn results_len(s: AppState) -> int {
    if s.result.ready {
        1 + 3 * shown_count(s) + if warn_shown(s) { 2int } else { 0int }
    } else {
        0
    }
}

/// A result line drawn at step `off` after `base`, at row `y`.
pub open spec fn result_drawn(base: Seq<DrawOp>, ops: Seq<DrawOp>, off: int, y: int, line: (String, String)) -> bool {
    &&& is_fill(added(base, ops, off), row_rect(y), Color::Bg)
    &&& is_text(added(base, ops, off + 1), line.0@, point(LABEL_X as int, y + 1), Color::Dim, Color::Bg)
    &&& is_text(added(base, ops, off + 2), line.1@, point(RESULT_X as int, y + 1), Color::Result, Color::Bg)
}

/// The display list of a tool screen, after `base`: background; title bar;
/// the operation line when the tool has one; the input fields with their
/// labels and values, the active one highlighted; once computed, a separator,
/// the result lines that fit (after the skipped ones) and the warning if it
/// fits; and the key hint.
pub open spec fn tool_screen_drawn(base: Seq<DrawOp>, ops: Seq<DrawOp>, s: AppState) -> bool {
    let num = spec_input_count(s.screen) as int;
    let r = fields_off(s) + fields_len(s, num);
    &&& extends(base, ops, r + results_len(s) + 2)
    &&& is_fill(added(base, ops, 0), screen_rect(), Color::Bg)
    &&& is_fill(added(base, ops, 1), rect(0, 0, W as int, HEADER_H as int), Color::Header)
    &&& is_text(added(base, ops, 2), spec_tool_title(s.screen), point(5, 3), Color::HeaderTxt, Color::Header)
    &&& op_info(s) is Some ==> {
        &&& is_fill(added(base, ops, 3), row_rect(CONTENT_Y as int), Color::Bg)
        &&& is_text(added(base, ops, 4), op_info(s)->0, point(LABEL_X as int, CONTENT_Y + 1), Color::Dim, Color::Bg)
    }
    &&& forall|i: int|
        0 <= i < num ==> field_drawn(
            base,
            ops,
            fields_off(s) + fields_len(s, i),
            field_start(s) + i * ROW_H,
            #[trigger] spec_tool_labels(s.screen)[i],
            shown_text(s.inputs@[i]@),
            i == s.active_input,
        )
    &&& s.result.ready ==> {
        &&& is_fill(added(base, ops, r), rect(0, result_y0(s) - 2, W as int, 1), Color::Sep)
        &&& forall|j: int|
            0 <= j < shown_count(s) ==> result_drawn(base, ops, r + 1 + 3 * j, result_y0(s) + j * ROW_H, #[trigger] shown_line(s, j))
        &&& warn_shown(s) ==> {
            let y = result_y0(s) + shown_count(s) * ROW_H;
            &&& is_fill(added(base, ops, r + 1 + 3 * shown_count(s)), row_rect(y), Color::Bg)
            &&& is_text(added(base, ops, r + 2 + 3 * shown_count(s)), s.result.warn->0@, point(LABEL_X as int, y + 1), Color::Warn, Color::Bg)
        }
    }
    &&& is_fill(added(base, ops, r + results_len(s)), rect(0, FOOTER_Y as int, W as int, FOOTER_H as int), Color::Footer)
    &&& is_text(added(base, ops, r + results_len(s) + 1), tool_hint(), point(5, FOOTER_Y + 1), Color::FooterTxt, Color::Footer)
}

/// A tool screen: title, the operation line when the tool has one, the input
/// fields with the active one highlighted, then, once computed, a separator,
/// the result lines that fit above the footer (the general simplifier skips
/// the first `scroll` of them) and the warning if it fits, and the key hint.
fn render_tool_screen(state: &AppState, ops: &mut Vec<DrawOp>)
    requires
        forall|i: int| 0 <= i < spec_input_count(state.screen) ==> (#[trigger] state.inputs@[i]).len <= 16,
    ensures
        tool_screen_drawn(old(ops)@, final(ops)@, *state),
{
    let ghost base = old(ops)@;
    let ghost s = *state;
    let (title, labels) = tool_info(&state.screen);
    let num = labels.len();
    proof {
        lemma_input_count_bounds(state.screen);
    }
    clear_screen(ops);
    let ghost s1 = ops@;
    draw_header(ops, title);
    let ghost s2 = ops@;
    proof {
        lemma_extends_trans(base, s1, s2, 1, 2);
    }

    let field_start_y: u16 = match op_info_line(state) {
        Some(info) => {
            draw_line(ops, CONTENT_Y, info.as_str(), Color::Dim, Color::Bg);
            CONTENT_Y + ROW_H
        },
        None => CONTENT_Y,
    };
    let ghost s3 = ops@;
    proof {
        if op_info(s) is Some {
            lemma_extends_trans(base, s2, s3, 3, 2);
        } else {
            assert(s3 == s2);
        }
        assert(extends(base, s3, fields_off(s)));
        assert(field_start_y as int == field_start(s));
    }

    let mut i: usize = 0;
    while i < num
        invariant
            num == spec_input_count(s.screen) <= 6,
            s == *state,
            i <= num,
            field_start_y as int == field_start(s),
            forall|j: int| 0 <= j < num ==> (#[trigger] state.inputs@[j]).len <= 16,
            labels@.len() == num,
            labels@.map_values(|l: &str| l@) == spec_tool_labels(s.screen),
            extends(base, s3, fields_off(s)),
            extends(base, ops@, fields_off(s) + fields_len(s, i as int)),
            forall|k: int| 0 <= k < fields_off(s) ==> #[trigger] added(base, ops@, k) == added(base, s3, k),
            forall|j: int|
                0 <= j < i ==> field_drawn(
                    base,
                    ops@,
                    fields_off(s) + fields_len(s, j),
                    field_start(s) + j * ROW_H,
                    #[trigger] spec_tool_labels(s.screen)[j],
                    shown_text(s.inputs@[j]@),
                    j == s.active_input,
                ),
        decreases num - i,
    {
        let ghost prev = ops@;
        let ghost oi = i as int;
        let y: u16 = field_start_y + (i as u16) * ROW_H;
        let val = state.inputs[i].as_str();
        let active = i == state.active_input;
        draw_input_field(ops, y, labels[i], val, active);
        proof {
            let n_prev = fields_off(s) + fields_len(s, oi);
            let step = if active { 5int } else { 4int };
            lemma_extends_trans(base, prev, ops@, n_prev, step);
            assert(labels@[oi]@ == spec_tool_labels(s.screen)[oi]) by {
                assert(labels@.map_values(|l: &str| l@)[oi] == labels@[oi]@);
            }
            assert(fields_len(s, oi + 1) == fields_len(s, oi) + step);
            assert(y as int == field_start(s) + oi * ROW_H);
            assert forall|k: int| 0 <= k < fields_off(s) implies #[trigger] added(base, ops@, k) == added(base, s3, k) by {
                assert(added(base, ops@, k) == added(base, prev, k));
            }
            assert forall|j: int| 0 <= j < oi + 1 implies field_drawn(
                base,
                ops@,
                fields_off(s) + fields_len(s, j),
                field_start(s) + j * ROW_H,
                #[trigger] spec_tool_labels(s.screen)[j],
                shown_text(s.inputs@[j]@),
                j == s.active_input,
            ) by {
                if j < oi {
                    let off = fields_off(s) + fields_len(s, j);
                    let jstep = if j == s.active_input { 5int } else { 4int };
                    assert(fields_len(s, j) + jstep <= fields_len(s, oi));
                    assert(added(base, ops@, off) == added(base, prev, off));
                    assert(added(base, ops@, off + 1) == added(base, prev, off + 1));
                    assert(added(base, ops@, off + 2) == added(base, prev, off + 2));
                    assert(added(base, ops@, off + 3) == added(base, prev, off + 3));
                    if j == s.active_input {
                        assert(added(base, ops@, off + 4) == added(base, prev, off + 4));
                    }
                } else {
                    assert(j == oi);
                    assert(added(prev, ops@, 0) == added(base, ops@, n_prev));
                    assert(added(prev, ops@, 1) == added(base, ops@, n_prev + 1));
                    assert(added(prev, ops@, 2) == added(base, ops@, n_prev + 2));
                    assert(added(prev, ops@, 3) == added(base, ops@, n_prev + 3));
                    if active {
                        assert(added(prev, ops@, 4) == added(base, ops@, n_prev + 4));
                    }
                }
            }
        }
        i = i + 1;
    }
    let ghost s4 = ops@;
    let ghost r = fields_off(s) + fields_len(s, num as int);

    if state.result.ready {
        let result_start: u16 = field_start_y + (num as u16) * ROW_H + 2;
        draw_sep(ops, result_start);
        let ghost s5 = ops@;
        proof {
            lemma_extends_trans(base, s4, s5, r, 1);
        }
        let mut ry: u16 = result_start + 2;
        let skip: usize = if state.screen == Screen::ExprSimplify { state.scroll } else { 0 };
        let mut shown: usize = 0;
        let n = state.result.lines.len();
        let mut k: usize = 0;
        while k < n && (shown < skip || ry + ROW_H <= FOOTER_Y)
            invariant
                s == *state,
                r == fields_off(s) + fields_len(s, num as int),
                num == spec_input_count(s.screen) <= 6,
                n == s.result.lines@.len(),
                skip as int == result_skip(s),
                k <= n,
                shown as int == (if k < skip { k as int } else { skip as int }),
                ry as int == result_y0(s) + (k - shown) * ROW_H,
                ry <= FOOTER_Y,
                k - shown <= rows_fit(result_y0(s)),
                result_y0(s) <= FOOTER_Y,
                extends(base, s5, r + 1),
                extends(base, ops@, r + 1 + 3 * (k - shown)),
                forall|q: int| 0 <= q < r + 1 ==> #[trigger] added(base, ops@, q) == added(base, s5, q),
                forall|j: int|
                    0 <= j < k - shown ==> result_drawn(base, ops@, r + 1 + 3 * j, result_y0(s) + j * ROW_H, #[trigger] shown_line(s, j)),
            decreases n - k,
        {
            if shown < skip {
                shown = shown + 1;
            } else {
                let ghost prev = ops@;
                let ghost d = k - shown;
                let line = &state.result.lines[k];
                draw_result_line(ops, ry, line.0.as_str(), line.1.as_str());
                proof {
                    lemma_extends_trans(base, prev, ops@, r + 1 + 3 * d, 3);
                    assert(shown_line(s, d) == s.result.lines@[k as int]);
                    assert((FOOTER_Y - result_y0(s)) / (ROW_H as int) >= d + 1);
                    assert forall|q: int| 0 <= q < r + 1 implies #[trigger] added(base, ops@, q) == added(base, s5, q) by {
                        assert(added(base, ops@, q) == added(base, prev, q));
                    }
                    assert forall|j: int| 0 <= j < d + 1 implies result_drawn(base, ops@, r + 1 + 3 * j, result_y0(s) + j * ROW_H, #[trigger] shown_line(s, j)) by {
                        if j < d {
                            assert(added(base, ops@, r + 1 + 3 * j) == added(base, prev, r + 1 + 3 * j));
                            assert(added(base, ops@, r + 2 + 3 * j) == added(base, prev, r + 2 + 3 * j));
                            assert(added(base, ops@, r + 3 + 3 * j) == added(base, prev, r + 3 + 3 * j));
                        } else {
                            assert(added(prev, ops@, 0) == added(base, ops@, r + 1 + 3 * d));
                            assert(added(prev, ops@, 1) == added(base, ops@, r + 2 + 3 * d));
                            assert(added(prev, ops@, 2) == added(base, ops@, r + 3 + 3 * d));
                        }
                    }
                }
                ry = ry + ROW_H;
            }
            k = k + 1;
        }
        proof {
            assert(k - shown == shown_count(s));
        }
        let ghost s6 = ops@;
        match &state.result.warn {
            Some(w) => {
                if ry + ROW_H <= FOOTER_Y {
                    draw_warn_line(ops, ry, w.as_str());
                    proof {
                        lemma_extends_trans(base, s6, ops@, r + 1 + 3 * shown_count(s), 2);
                    }
                }
            },
            None => {},
        }
        proof {
            let s7 = ops@;
            assert(extends(base, s7, r + results_len(s)));
            assert forall|q: int| 0 <= q < r + 1 + 3 * shown_count(s) implies #[trigger] added(base, s7, q) == added(base, s6, q) by {
                if s7 != s6 {
                    lemma_extends_trans(base, s6, s7, r + 1 + 3 * shown_count(s), 2);
                }
            }
        }
    }
    let ghost s8 = ops@;
    draw_footer(ops, "Up/Dn=Field  EXE=Calc  -=Sign  .=Dot  Back=Back");
    proof {
        lemma_extends_trans(base, s8, ops@, r + results_len(s), 2);
        assert(added(base, ops@, 0) == added(base, s2, 0));
        assert(added(base, ops@, 1) == added(base, s2, 1));
        assert(added(base, ops@, 2) == added(base, s2, 2));
        assert(added(base, s2, 1) == added(s1, s2, 0));
        assert(added(base, s2, 2) == added(s1, s2, 1));
    }
}

/// The display list of the current screen: a menu with the selection
/// highlighted, the card of a reference screen from the scroll position, or a
/// tool screen.
pub fn render_screen(state: &AppState, ops: &mut Vec<DrawOp>)
    requires
        !spec_is_menu(state.screen) && !spec_is_ref(state.screen) ==> forall|i: int|
            0 <= i < spec_input_count(state.screen) ==> (#[trigger] state.inputs@[i]).len <= 16,
        spec_is_ref(state.screen) ==> state.scroll * 100 <= usize::MAX,
    ensures
        spec_is_menu(state.screen) ==> menu_drawn(
            old(ops)@,
            final(ops)@,
            spec_menu_title(state.screen),
            spec_menu_items(state.screen),
            state.menu_sel as int,
        ),
        spec_is_ref(state.screen) ==> ref_card_drawn(
            old(ops)@,
            final(ops)@,
            spec_menu_title(state.screen),
            spec_card(state.screen),
            state.scroll as int,
        ),
        !spec_is_menu(state.screen) && !spec_is_ref(state.screen) ==> tool_screen_drawn(old(ops)@, final(ops)@, *state),
{
    if super::screen::is_menu_screen(&state.screen) {
        let (title, items) = menu_content(&state.screen);
        let mut m = Menu::new(title, items);
        m.selected = state.menu_sel;
        m.draw(ops);
    } else if super::screen::is_ref_screen(&state.screen) {
        let (title, _) = menu_content(&state.screen);
        draw_ref_card(ops, title, card_lines(&state.screen), state.scroll);
    } else {
        render_tool_screen(state, ops);
    }
}

} // verus!
