use alg2a_tools::app_state::AppState;
use alg2a_tools::app_state::render::render_screen;
use alg2a_tools::app_state::screen::Screen;
use alg2a_tools::reference::draw_ref_card;
use alg2a_tools::ui::draw::{
    clear_screen, draw_footer, draw_header, draw_input_field, draw_line, draw_result_line, draw_sep,
    draw_warn_line, Color, DrawOp, Point, Rect,
};
use alg2a_tools::ui::menu::Menu;

fn fill(op: &DrawOp) -> (Rect, Color) {
    match op {
        DrawOp::Fill { rect, color } => (*rect, *color),
        _ => panic!("expected a fill"),
    }
}

fn text(op: &DrawOp) -> (String, Point, Color, Color) {
    match op {
        DrawOp::Text { text, at, large, fg, bg } => {
            assert!(!large);
            (text.clone(), *at, *fg, *bg)
        }
        _ => panic!("expected a text"),
    }
}

fn r(x: u16, y: u16, width: u16, height: u16) -> Rect {
    Rect { x, y, width, height }
}

fn p(x: u16, y: u16) -> Point {
    Point { x, y }
}

#[test]
fn bars_and_lines() {
    let mut ops = Vec::new();
    clear_screen(&mut ops);
    draw_header(&mut ops, "Title");
    draw_footer(&mut ops, "hint");
    draw_sep(&mut ops, 50);
    draw_line(&mut ops, 40, "info", Color::Dim, Color::Bg);
    draw_result_line(&mut ops, 60, "x =", "3");
    draw_warn_line(&mut ops, 80, "careful");
    assert_eq!(ops.len(), 13);
    assert_eq!(fill(&ops[0]), (r(0, 0, 320, 240), Color::Bg));
    assert_eq!(fill(&ops[1]), (r(0, 0, 320, 22), Color::Header));
    assert_eq!(text(&ops[2]), ("Title".to_string(), p(5, 3), Color::HeaderTxt, Color::Header));
    assert_eq!(fill(&ops[3]), (r(0, 222, 320, 18), Color::Footer));
    assert_eq!(text(&ops[4]), ("hint".to_string(), p(5, 223), Color::FooterTxt, Color::Footer));
    assert_eq!(fill(&ops[5]), (r(0, 50, 320, 1), Color::Sep));
    assert_eq!(fill(&ops[6]), (r(0, 40, 320, 18), Color::Bg));
    assert_eq!(text(&ops[7]), ("info".to_string(), p(5, 41), Color::Dim, Color::Bg));
    assert_eq!(text(&ops[9]), ("x =".to_string(), p(5, 61), Color::Dim, Color::Bg));
    assert_eq!(text(&ops[10]), ("3".to_string(), p(110, 61), Color::Result, Color::Bg));
    assert_eq!(text(&ops[12]), ("careful".to_string(), p(5, 81), Color::Warn, Color::Bg));
}

#[test]
fn input_field_alignment() {
    let mut ops = Vec::new();
    draw_input_field(&mut ops, 22, "a:", "", true);
    assert_eq!(ops.len(), 5);
    assert_eq!(fill(&ops[2]), (r(100, 23, 100, 16), Color::Highlight));
    assert_eq!(text(&ops[3]), ("0".to_string(), p(191, 24), Color::Text, Color::Highlight));
    assert_eq!(fill(&ops[4]), (r(198, 25, 1, 10), Color::Text));
    let mut ops = Vec::new();
    draw_input_field(&mut ops, 40, "b:", "-12.5", false);
    assert_eq!(ops.len(), 4);
    assert_eq!(text(&ops[3]), ("-12.5".to_string(), p(163, 42), Color::Text, Color::InputBg));
    let mut ops = Vec::new();
    draw_input_field(&mut ops, 40, "b:", "123456789012345", false);
    assert_eq!(text(&ops[3]).1, p(107, 42));
}

#[test]
fn menu_moves_and_draws() {
    let items = ["One", "Two", "Three"];
    let mut m = Menu::new("Menu", &items);
    m.move_up();
    assert_eq!(m.selected, 0);
    m.move_down();
    m.move_down();
    m.move_down();
    assert_eq!(m.selected, 2);
    m.move_up();
    assert_eq!(m.selected, 1);
    let mut ops = Vec::new();
    m.draw(&mut ops);
    assert_eq!(ops.len(), 11);
    assert_eq!(text(&ops[4]).0, "Up/Dn=Navigate  EXE=Select  Back=Back");
    assert_eq!(fill(&ops[5]), (r(0, 22, 320, 18), Color::Bg));
    assert_eq!(text(&ops[6]), ("  One".to_string(), p(5, 23), Color::Text, Color::Bg));
    assert_eq!(fill(&ops[7]), (r(0, 40, 320, 18), Color::Selected));
    assert_eq!(text(&ops[8]), ("> Two".to_string(), p(5, 41), Color::Text, Color::Selected));
}

#[test]
fn empty_menu_does_not_move() {
    let items: [&str; 0] = [];
    let mut m = Menu::new("Empty", &items);
    m.move_down();
    assert_eq!(m.selected, 0);
}

#[test]
fn reference_card_page_and_indicator() {
    let lines: Vec<String> = (0..15).map(|i| format!("line {}", i)).collect();
    let refs: Vec<&str> = lines.iter().map(|s| s.as_str()).collect();
    let mut ops = Vec::new();
    draw_ref_card(&mut ops, "Card", &refs, 2);
    assert_eq!(ops.len(), 5 + 22 + 2);
    assert_eq!(text(&ops[6]).0, "line 2");
    assert_eq!(text(&ops[26]).0, "line 12");
    assert_eq!(fill(&ops[27]), (r(0, 204, 320, 18), Color::Footer));
    assert_eq!(text(&ops[28]).0, "-- 40% --");
    let short = ["a", "b"];
    let mut ops = Vec::new();
    draw_ref_card(&mut ops, "Short", &short, 5);
    assert_eq!(ops.len(), 5 + 2);
    assert_eq!(text(&ops[6]).0, "b");
    let none: [&str; 0] = [];
    let mut ops = Vec::new();
    draw_ref_card(&mut ops, "None", &none, 0);
    assert_eq!(ops.len(), 5);
}

#[test]
fn render_menu_and_tool_screens() {
    let mut s = AppState::new();
    s.menu_sel = 2;
    let mut ops = Vec::new();
    render_screen(&s, &mut ops);
    assert_eq!(ops.len(), 5 + 14);
    assert_eq!(text(&ops[2]).0, "Alg2A Tools");
    assert_eq!(fill(&ops[9]).1, Color::Selected);
    assert_eq!(text(&ops[10]).0, "> Systems & Eq");

    s.go_to(Screen::InequalSolver);
    s.inequal_op = 2;
    s.inputs[1].push_digit(4);
    s.active_input = 1;
    s.result.add("Solution:", "x <= 1");
    s.result.set_warn("Sign flipped (div by neg)");
    s.result.finish();
    let mut ops = Vec::new();
    render_screen(&s, &mut ops);
    assert_eq!(text(&ops[2]).0, "Systems > Inequality");
    assert_eq!(text(&ops[4]).0, "Op: <= (leq)  (L/R change)");
    // three fields, the second active with its cursor
    assert_eq!(text(&ops[6]).0, "a:");
    assert_eq!(text(&ops[8]).0, "0");
    assert_eq!(text(&ops[10]).0, "b:");
    assert_eq!(text(&ops[12]).0, "4");
    assert_eq!(fill(&ops[13]).1, Color::Text);
    assert_eq!(fill(&ops[18]), (r(0, 96, 320, 1), Color::Sep));
    assert_eq!(text(&ops[20]).0, "Solution:");
    assert_eq!(text(&ops[23]), ("Sign flipped (div by neg)".to_string(), p(5, 117), Color::Warn, Color::Bg));
    assert_eq!(text(ops.last().unwrap()).0, "Up/Dn=Field  EXE=Calc  -=Sign  .=Dot  Back=Back");
}

#[test]
fn render_skips_scrolled_expression_lines() {
    let mut s = AppState::new();
    s.go_to(Screen::ExprSimplify);
    for i in 0..4 {
        s.result.add(&format!("L{}", i), "v");
    }
    s.result.finish();
    s.scroll = 3;
    let mut ops = Vec::new();
    render_screen(&s, &mut ops);
    let labels: Vec<String> = ops.iter().filter_map(|o| match o {
        DrawOp::Text { text, fg: Color::Dim, .. } => Some(text.clone()),
        _ => None,
    }).collect();
    assert_eq!(labels, vec!["L3".to_string()]);
}

#[test]
fn render_reference_screen() {
    let mut s = AppState::new();
    s.go_to(Screen::RefQuadRef);
    let mut ops = Vec::new();
    render_screen(&s, &mut ops);
    assert_eq!(text(&ops[2]).0, "Reference: Quad Quick Ref");
    assert_eq!(text(&ops[6]).0, "FORMS");
    assert_eq!(text(&ops[8]).0, "  Standard: y = ax^2 + bx + c");
    // 18 lines: a full page of 11 and the position indicator
    assert_eq!(ops.len(), 5 + 22 + 2);
    assert_eq!(text(&ops[28]).0, "-- 0% --");
}

#[test]
fn render_ignores_fields_not_shown() {
    // a field past its capacity is read only where a tool shows it
    let mut s = AppState::new();
    s.inputs[5].len = 40;
    let mut ops = Vec::new();
    render_screen(&s, &mut ops);
    assert_eq!(text(&ops[2]).0, "Alg2A Tools");

    s.go_to(Screen::PowersOfI);
    s.inputs[3].len = 40;
    let mut ops = Vec::new();
    render_screen(&s, &mut ops);
    assert_eq!(text(&ops[2]).0, "Complex > Powers of i");
    assert_eq!(text(&ops[4]).0, "n (exponent):");
    assert_eq!(text(ops.last().unwrap()).0, "Up/Dn=Field  EXE=Calc  -=Sign  .=Dot  Back=Back");
}
