use alg2a_tools::app_state::{dispatch, nav_to_key, Action, AppState, Event, Key};
use alg2a_tools::app_state::screen::{is_menu_screen, is_ref_screen, max_items, menu_target, parent_screen, tool_info, Screen};

const ALL: [Screen; 44] = [
    Screen::MainMenu, Screen::LinearMenu, Screen::QuadMenu, Screen::SystemsMenu, Screen::ComplexMenu,
    Screen::RefMenu, Screen::TwoPtsLine, Screen::FormConvert, Screen::SlopeCalc, Screen::InterceptFinder,
    Screen::ParPerpSlope, Screen::VertexConvert, Screen::QuadAnalyzer, Screen::VertexToStd,
    Screen::SystemSolver, Screen::AbsValueSolver, Screen::InequalSolver, Screen::ComplexArith,
    Screen::PowersOfI, Screen::ConjModulus, Screen::RefFieldAxioms, Screen::RefFormulas,
    Screen::RefProperties, Screen::RefQuadRef, Screen::SimplifierMenu, Screen::ExprSimplify,
    Screen::SimpMulMono, Screen::SimpDivMono, Screen::SimpPowPow, Screen::SimpPowProd, Screen::SimpNegExp,
    Screen::SimpCombine, Screen::SimpDistrib, Screen::SimpBinPow, Screen::SimpIdentity, Screen::PolyMenu,
    Screen::FoilExpand, Screen::FactorTri, Screen::DiffSquares, Screen::PerfectSq, Screen::GcfFactor,
    Screen::PolyEval, Screen::SynthDiv, Screen::SumDiffCubes,
];

fn at(screen: Screen) -> AppState {
    let mut s = AppState::new();
    s.go_to(screen);
    s.dirty = false;
    s
}

fn text(s: &AppState, i: usize) -> String {
    s.inputs[i].as_str().to_string()
}

#[test]
fn new_state_is_main_menu() {
    let s = AppState::new();
    assert_eq!(s.screen, Screen::MainMenu);
    assert_eq!(s.menu_sel, 0);
    assert!(s.dirty);
    assert!(!s.result.ready);
    for i in 0..6 {
        assert_eq!(text(&s, i), "");
    }
}

#[test]
fn go_to_resets() {
    let mut s = at(Screen::TwoPtsLine);
    s.inputs[0].push_digit(5);
    s.active_input = 2;
    s.scroll = 3;
    s.menu_sel = 4;
    s.result.add("x", "y");
    s.result.finish();
    s.complex_op = 2;
    s.go_to(Screen::LinearMenu);
    assert_eq!(s.screen, Screen::LinearMenu);
    assert_eq!(s.menu_sel, 0);
    assert_eq!(s.active_input, 0);
    assert_eq!(s.scroll, 0);
    assert!(s.dirty);
    assert!(s.result.lines.is_empty() && !s.result.ready);
    assert_eq!(text(&s, 0), "");
    assert_eq!(s.complex_op, 2);
}

#[test]
fn back_twice_reaches_main() {
    for sc in ALL {
        assert_eq!(parent_screen(&parent_screen(&sc)), Screen::MainMenu);
        let mut s = at(sc);
        dispatch(&mut s, Event::Back);
        dispatch(&mut s, Event::Back);
        assert_eq!(s.screen, Screen::MainMenu);
    }
}

#[test]
fn menu_items_lead_to_children() {
    for sc in ALL {
        if !is_menu_screen(&sc) {
            assert_eq!(max_items(&sc), 0);
            continue;
        }
        for sel in 0..12usize {
            match menu_target(&sc, sel) {
                Some(t) => {
                    assert!(sel < max_items(&sc));
                    assert_eq!(parent_screen(&t), sc);
                    let mut s = at(sc);
                    for _ in 0..sel {
                        dispatch(&mut s, Event::Down);
                    }
                    assert_eq!(s.menu_sel, sel);
                    assert_eq!(dispatch(&mut s, Event::Exe), Action::Nothing);
                    assert_eq!(s.screen, t);
                }
                None => assert!(sel >= max_items(&sc)),
            }
        }
    }
}

#[test]
fn menu_selection_stays_in_range() {
    let mut s = at(Screen::QuadMenu);
    dispatch(&mut s, Event::Up);
    assert_eq!(s.menu_sel, 0);
    assert!(s.dirty);
    for _ in 0..10 {
        dispatch(&mut s, Event::Down);
    }
    assert_eq!(s.menu_sel, 2);
    dispatch(&mut s, Event::Up);
    assert_eq!(s.menu_sel, 1);
    dispatch(&mut s, Event::OK);
    assert_eq!(s.screen, Screen::QuadAnalyzer);
}

#[test]
fn main_menu_ok_opens_polynomials() {
    let mut s = at(Screen::MainMenu);
    for _ in 0..4 {
        dispatch(&mut s, Event::Down);
    }
    dispatch(&mut s, Event::OK);
    assert_eq!(s.screen, Screen::PolyMenu);
}

#[test]
fn tool_fields_cycle() {
    let mut s = at(Screen::TwoPtsLine);
    assert_eq!(tool_info(&s.screen).1.len(), 4);
    dispatch(&mut s, Event::Up);
    assert_eq!(s.active_input, 3);
    dispatch(&mut s, Event::Down);
    assert_eq!(s.active_input, 0);
    dispatch(&mut s, Event::Down);
    assert_eq!(s.active_input, 1);
}

#[test]
fn tool_editing_keys() {
    let mut s = at(Screen::SlopeCalc);
    s.result.finish();
    dispatch(&mut s, Event::One);
    assert!(!s.result.ready);
    dispatch(&mut s, Event::Two);
    dispatch(&mut s, Event::Dot);
    dispatch(&mut s, Event::Five);
    assert_eq!(text(&s, 0), "12.5");
    dispatch(&mut s, Event::Minus);
    assert_eq!(text(&s, 0), "-12.5");
    dispatch(&mut s, Event::Backspace);
    assert_eq!(text(&s, 0), "-12.");
    dispatch(&mut s, Event::Down);
    dispatch(&mut s, Event::Seven);
    assert_eq!(text(&s, 1), "7");
    assert_eq!(text(&s, 0), "-12.");
    assert!(s.dirty);
}

#[test]
fn ok_asks_for_compute() {
    let mut s = at(Screen::PowersOfI);
    assert_eq!(dispatch(&mut s, Event::OK), Action::Compute);
    assert_eq!(dispatch(&mut s, Event::Exe), Action::Compute);
    assert!(!s.dirty);
    let mut m = at(Screen::MainMenu);
    assert_eq!(dispatch(&mut m, Event::Exe), Action::Nothing);
}

#[test]
fn op_choice_cycles_and_restores() {
    let mut s = at(Screen::InequalSolver);
    dispatch(&mut s, Event::Left);
    assert_eq!(s.inequal_op, 3);
    dispatch(&mut s, Event::Right);
    assert_eq!(s.inequal_op, 0);
    for _ in 0..5 {
        dispatch(&mut s, Event::Right);
    }
    assert_eq!(s.inequal_op, 1);
    let mut c = at(Screen::SumDiffCubes);
    dispatch(&mut c, Event::Left);
    assert_eq!(c.cubes_op, 1);
    dispatch(&mut c, Event::Left);
    assert_eq!(c.cubes_op, 0);
    let mut p = at(Screen::SimpBinPow);
    dispatch(&mut p, Event::Right);
    assert_eq!(p.bin_pow_n, 1);
    let mut q = at(Screen::ComplexArith);
    dispatch(&mut q, Event::Left);
    dispatch(&mut q, Event::Left);
    assert_eq!(q.complex_op, 2);
    let mut other = at(Screen::PolyEval);
    other.dirty = false;
    dispatch(&mut other, Event::Left);
    assert!(!other.dirty);
}

#[test]
fn expression_field_takes_operators() {
    let mut s = at(Screen::ExprSimplify);
    for ev in [Event::LeftParenthesis, Event::Xnt, Event::Plus, Event::One, Event::RightParenthesis,
               Event::Power, Event::Two, Event::Minus, Event::Multiplication, Event::Division] {
        dispatch(&mut s, ev);
    }
    assert_eq!(text(&s, 0), "(x+1)^2-*/");
}

#[test]
fn expression_results_scroll() {
    let mut s = at(Screen::ExprSimplify);
    dispatch(&mut s, Event::Down);
    assert_eq!(s.scroll, 0);
    s.result.finish();
    dispatch(&mut s, Event::Down);
    dispatch(&mut s, Event::Down);
    assert_eq!(s.scroll, 2);
    dispatch(&mut s, Event::Up);
    assert_eq!(s.scroll, 1);
    assert_eq!(s.active_input, 0);
}

#[test]
fn reference_card_scrolls_within_bounds() {
    // the formulas card has 20 lines, 11 to a page
    let mut s = at(Screen::RefFormulas);
    dispatch(&mut s, Event::Up);
    assert_eq!(s.scroll, 0);
    for _ in 0..30 {
        dispatch(&mut s, Event::Down);
    }
    assert_eq!(s.scroll, 9);
    dispatch(&mut s, Event::Up);
    assert_eq!(s.scroll, 8);
    // the field axioms card has 17 lines
    let mut short = at(Screen::RefFieldAxioms);
    for _ in 0..30 {
        dispatch(&mut short, Event::Down);
    }
    assert_eq!(short.scroll, 6);
    dispatch(&mut short, Event::Back);
    assert_eq!(short.screen, Screen::RefMenu);
}

#[test]
fn screen_kinds_and_keys() {
    assert!(is_menu_screen(&Screen::PolyMenu));
    assert!(!is_menu_screen(&Screen::PolyEval));
    assert!(is_ref_screen(&Screen::RefQuadRef));
    assert_eq!(nav_to_key(Event::Up), Some(Key::Up));
    assert_eq!(nav_to_key(Event::Right), Some(Key::Right));
    assert_eq!(nav_to_key(Event::Exe), None);
    assert_eq!(Event::Seven.to_digit(), Some(7));
    assert_eq!(Event::Plus.to_digit(), None);
}

#[test]
fn tool_info_titles_and_labels() {
    let (t, l) = tool_info(&Screen::SystemSolver);
    assert_eq!(t, "Systems > 2x2 Solver");
    assert_eq!(l, &["a1:", "b1:", "c1:", "a2:", "b2:", "c2:"]);
    let (t, l) = tool_info(&Screen::MainMenu);
    assert_eq!(t, "");
    assert!(l.is_empty());
}
