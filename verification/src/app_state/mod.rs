//! The application's state machine: which screen is shown, the menu selection,
//! the input fields, and how each key event changes them.

pub mod render;
pub mod screen;

use vstd::prelude::*;
use crate::tools::ToolResult;
use crate::ui::input::{InputBuffer, pushed, appended, dotted, toggled, backspaced};
use screen::{
    Screen, spec_is_menu, spec_is_ref, spec_parent, spec_max_items, spec_menu_target, spec_input_count,
    is_menu_screen, is_ref_screen, parent_screen, max_items, menu_target, tool_info, lemma_input_count_bounds,
    lemma_menu_target_parent,
};
use crate::constants::{CONTENT_H, ROW_H};
use crate::cards::{card_lines, spec_card};

verus! {

/// A key event of the calculator keyboard.
#[derive(Clone, Copy, PartialEq, Eq, Structural, Debug)]
pub enum Event {
    Left,
    Up,
    Down,
    Right,
    OK,
    Back,
    Home,
    OnOff,
    Shift,
    Alpha,
    Xnt,
    Var,
    Toolbox,
    Backspace,
    Exp,
    Ln,
    Log,
    Imaginary,
    Comma,
    Power,
    Sine,
    Cosine,
    Tangent,
    Pi,
    Sqrt,
    Square,
    Seven,
    Eight,
    Nine,
    LeftParenthesis,
    RightParenthesis,
    Four,
    Five,
    Six,
    Multiplication,
    Division,
    One,
    Two,
    Three,
    Plus,
    Minus,
    Zero,
    Dot,
    Ee,
    Ans,
    Exe,
    NoEvent,
}

/// The digit that a digit key enters.
pub open spec fn spec_digit(ev: Event) -> Option<u8> {
    match ev {
        Event::Zero => Some(0u8),
        Event::One => Some(1u8),
        Event::Two => Some(2u8),
        Event::Three => Some(3u8),
        Event::Four => Some(4u8),
        Event::Five => Some(5u8),
        Event::Six => Some(6u8),
        Event::Seven => Some(7u8),
        Event::Eight => Some(8u8),
        Event::Nine => Some(9u8),
        _ => None,
    }
}

impl Event {
    /// The digit that a digit key enters.
    pub fn to_digit(&self) -> (d: Option<u8>)
        ensures
            d == spec_digit(*self),
    {
        match self {
            Event::Zero => Some(0),
            Event::One => Some(1),
            Event::Two => Some(2),
            Event::Three => Some(3),
            Event::Four => Some(4),
            Event::Five => Some(5),
            Event::Six => Some(6),
            Event::Seven => Some(7),
            Event::Eight => Some(8),
            Event::Nine => Some(9),
            _ => None,
        }
    }
}

/// A navigation key that repeats while held.
#[derive(Clone, Copy, PartialEq, Eq, Structural, Debug)]
pub enum Key {
    Left,
    Up,
    Down,
    Right,
}

/// The key that repeats an event while held: the four arrows.
pub open spec fn spec_nav_key(ev: Event) -> Option<Key> {
    match ev {
        Event::Up => Some(Key::Up),
        Event::Down => Some(Key::Down),
        Event::Left => Some(Key::Left),
        Event::Right => Some(Key::Right),
        _ => None,
    }
}

/// The key that repeats `ev` while held, if any.
pub fn nav_to_key(ev: Event) -> (k: Option<Key>)
    ensures
        k == spec_nav_key(ev),
{
    match ev {
        Event::Up => Some(Key::Up),
        Event::Down => Some(Key::Down),
        Event::Left => Some(Key::Left),
        Event::Right => Some(Key::Right),
        _ => None,
    }
}

/// What the application has to do after an event: nothing more, or run the
/// current tool on the inputs.
#[derive(Clone, Copy, PartialEq, Eq, Structural, Debug)]
pub enum Action {
    Nothing,
    Compute,
}

pub struct AppState {
    pub screen: Screen,
    pub menu_sel: usize,
    pub inputs: [InputBuffer; 6],
    pub active_input: usize,
    pub num_inputs: usize,
    pub result: ToolResult,
    pub dirty: bool,
    pub complex_op: usize,
    pub inequal_op: usize,
    pub cubes_op: usize,
    /// 0 for the square, 1 for the cube.
    pub bin_pow_n: usize,
    pub scroll: usize,
}

/// A result with no lines, no warning, not finished.
pub open spec fn is_cleared(r: ToolResult) -> bool {
    &&& r.lines@.len() == 0
    &&& r.warn is None
    &&& !r.ready
}

/// `new` is the state right after opening screen `t` from `old`: selection,
/// active field and scroll reset, result and all fields emptied, redraw asked.
pub open spec fn went_to(old: AppState, new: AppState, t: Screen) -> bool {
    &&& new == AppState {
        screen: t,
        menu_sel: 0,
        active_input: 0,
        dirty: true,
        scroll: 0,
        inputs: new.inputs,
        result: new.result,
        ..old
    }
    &&& is_cleared(new.result)
    &&& forall|i: int| 0 <= i < 6 ==> (#[trigger] new.inputs@[i]).len == 0 && new.inputs@[i].buf == old.inputs@[i].buf
}

/// `new` differs from `old` only in asking for a redraw.
pub open spec fn redrawn(old: AppState, new: AppState) -> bool {
    new == AppState { dirty: true, ..old }
}

/// `new` differs from `old` only in the result, now cleared, and the redraw.
pub open spec fn cleared_redrawn(old: AppState, new: AppState) -> bool {
    &&& new == AppState { dirty: true, result: new.result, ..old }
    &&& is_cleared(new.result)
}

/// `new` is `old` with field `k` replaced by `b`, the result cleared, and a redraw asked.
pub open spec fn field_edited(old: AppState, new: AppState, k: int, b: InputBuffer) -> bool {
    &&& new == AppState { dirty: true, result: new.result, inputs: new.inputs, ..old }
    &&& is_cleared(new.result)
    &&& new.inputs@ == old.inputs@.update(k, b)
}

/// Most rows a reference card shows at once.
pub open spec fn card_rows() -> nat {
    (CONTENT_H / ROW_H) as nat
}

/// Furthest a card of `len` lines scrolls.
pub open spec fn max_scroll(len: nat) -> nat {
    if len > card_rows() {
        (len - card_rows()) as nat
    } else {
        0
    }
}

impl AppState {
    /// The start state: the main menu, nothing entered, a redraw asked.
    pub fn new() -> (s: Self)
        ensures
            s.screen == Screen::MainMenu,
            s.menu_sel == 0,
            s.active_input == 0,
            s.num_inputs == 0,
            is_cleared(s.result),
            s.dirty,
            s.complex_op == 0 && s.inequal_op == 0 && s.cubes_op == 0 && s.bin_pow_n == 0,
            s.scroll == 0,
            forall|i: int| 0 <= i < 6 ==> (#[trigger] s.inputs@[i])@ == Seq::<u8>::empty() && s.inputs@[i].wf(),
    {
        let s = AppState {
            screen: Screen::MainMenu,
            menu_sel: 0,
            inputs: [InputBuffer::new(); 6],
            active_input: 0,
            num_inputs: 0,
            result: ToolResult::new(),
            dirty: true,
            complex_op: 0,
            inequal_op: 0,
            cubes_op: 0,
            bin_pow_n: 0,
            scroll: 0,
        };
        proof {
            assert(s.result.lines@.len() == s.result.line_texts().len());
        }
        s
    }

    /// Opens `screen`: resets selection, active field and scroll, empties the
    /// result and all fields, and asks for a redraw.
    pub fn go_to(&mut self, screen: Screen)
        ensures
            went_to(*old(self), *final(self), screen),
    {
        let mut inputs = self.inputs;
        let ghost before = self.inputs;
        let mut i: usize = 0;
        while i < 6
            invariant
                i <= 6,
                forall|j: int| 0 <= j < i ==> (#[trigger] inputs@[j]).len == 0 && inputs@[j].buf == before@[j].buf,
                forall|j: int| i <= j < 6 ==> #[trigger] inputs@[j] == before@[j],
            decreases 6 - i,
        {
            let mut b = inputs[i];
            b.clear();
            inputs[i] = b;
            i = i + 1;
        }
        self.inputs = inputs;
        self.screen = screen;
        self.menu_sel = 0;
        self.active_input = 0;
        self.result.clear();
        self.dirty = true;
        self.scroll = 0;
        proof {
            assert(self.result.lines@.len() == self.result.line_texts().len());
        }
    }
}


/// The character that a key types into the expression field of the general
/// simplifier.
pub open spec fn expr_key_char(ev: Event) -> Option<u8> {
    match ev {
        Event::Plus => Some(43u8),
        Event::Multiplication => Some(42u8),
        Event::Division => Some(47u8),
        Event::Power => Some(94u8),
        Event::Xnt => Some(120u8),
        Event::LeftParenthesis => Some(40u8),
        Event::RightParenthesis => Some(41u8),
        Event::Minus => Some(45u8),
        _ => None,
    }
}

/// How an event changes the state on a menu screen.
pub open spec fn menu_step(old: AppState, new: AppState, ev: Event) -> bool {
    match ev {
        Event::Up => new == AppState {
            menu_sel: if old.menu_sel > 0 { (old.menu_sel - 1) as usize } else { old.menu_sel },
            dirty: true,
            ..old
        },
        Event::Down => new == AppState {
            menu_sel: if old.menu_sel + 1 < spec_max_items(old.screen) { (old.menu_sel + 1) as usize } else { old.menu_sel },
            dirty: true,
            ..old
        },
        Event::OK | Event::Exe => match spec_menu_target(old.screen, old.menu_sel as int) {
            Some(t) => went_to(old, new, t),
            None => new == old,
        },
        Event::Back => went_to(old, new, spec_parent(old.screen)),
        _ => new == old,
    }
}

/// How an event changes the state on a reference card.
pub open spec fn ref_step(old: AppState, new: AppState, ev: Event) -> bool {
    match ev {
        Event::Up => if old.scroll > 0 {
            new == AppState { scroll: (old.scroll - 1) as usize, dirty: true, ..old }
        } else {
            new == old
        },
        Event::Down => if old.scroll < max_scroll(spec_card(old.screen).len()) {
            new == AppState { scroll: (old.scroll + 1) as usize, dirty: true, ..old }
        } else {
            new == old
        },
        Event::Back => went_to(old, new, spec_parent(old.screen)),
        _ => new == old,
    }
}

/// The general simplifier takes the key itself (an operator, `x`, a parenthesis,
/// or a scroll of a finished result) instead of the usual field editing.
pub open spec fn expr_intercepts(old: AppState, ev: Event) -> bool {
    old.screen == Screen::ExprSimplify && (expr_key_char(ev) is Some
        || (ev == Event::Up && old.result.ready && old.scroll > 0)
        || (ev == Event::Down && old.result.ready))
}

/// How an event changes the state on a tool screen.
pub open spec fn tool_step(old: AppState, new: AppState, ev: Event) -> bool {
    let num = spec_input_count(old.screen);
    let a = old.active_input;
    if expr_intercepts(old, ev) {
        if expr_key_char(ev) is Some {
            &&& field_edited(old, new, 0, new.inputs@[0])
            &&& pushed(old.inputs@[0], new.inputs@[0], expr_key_char(ev).unwrap())
        } else if ev == Event::Up {
            new == AppState { scroll: (old.scroll - 1) as usize, dirty: true, ..old }
        } else {
            new == AppState { scroll: (old.scroll + 1) as usize, dirty: true, ..old }
        }
    } else {
        match ev {
            Event::Up => new == AppState {
                active_input: if a > 0 { (a - 1) as usize } else if num > 0 { (num - 1) as usize } else { 0 },
                dirty: true,
                ..old
            },
            Event::Down => new == AppState {
                active_input: if a + 1 < num { (a + 1) as usize } else { 0 },
                dirty: true,
                ..old
            },
            Event::Left | Event::Right => {
                let step: int = if ev == Event::Left { 3 } else { 1 };
                match old.screen {
                    Screen::InequalSolver => cleared_redrawn(
                        AppState { inequal_op: ((old.inequal_op + step) % 4) as usize, ..old }, new),
                    Screen::ComplexArith => cleared_redrawn(
                        AppState { complex_op: ((old.complex_op + step) % 4) as usize, ..old }, new),
                    Screen::SumDiffCubes => cleared_redrawn(
                        AppState { cubes_op: ((old.cubes_op + 1) % 2) as usize, ..old }, new),
                    Screen::SimpBinPow => cleared_redrawn(
                        AppState { bin_pow_n: ((old.bin_pow_n + 1) % 2) as usize, ..old }, new),
                    _ => new == old,
                }
            },
            Event::OK | Event::Exe => new == old,
            Event::Back => went_to(old, new, spec_parent(old.screen)),
            Event::Backspace => if a < num {
                &&& field_edited(old, new, a as int, new.inputs@[a as int])
                &&& new.inputs@[a as int].buf == old.inputs@[a as int].buf
                &&& new.inputs@[a as int].len == if old.inputs@[a as int].len > 0 {
                    old.inputs@[a as int].len - 1
                } else {
                    0
                }
            } else {
                new == old
            },
            Event::Dot => if a < num {
                &&& field_edited(old, new, a as int, new.inputs@[a as int])
                &&& new.inputs@[a as int].len <= 16
                &&& new.inputs@[a as int]@ == dotted(old.inputs@[a as int]@)
            } else {
                new == old
            },
            Event::Minus => if a < num {
                &&& field_edited(old, new, a as int, new.inputs@[a as int])
                &&& old.inputs@[a as int].len <= 16 ==> new.inputs@[a as int].len <= 16
                    && new.inputs@[a as int]@ == toggled(old.inputs@[a as int]@)
                &&& old.inputs@[a as int].len > 16 ==> new.inputs@[a as int] == old.inputs@[a as int]
            } else {
                new == old
            },
            _ => if spec_digit(ev) is Some && a < num {
                &&& field_edited(old, new, a as int, new.inputs@[a as int])
                &&& pushed(old.inputs@[a as int], new.inputs@[a as int], (48 + spec_digit(ev).unwrap()) as u8)
            } else {
                new == old
            },
        }
    }
}

/// What the application must do after `ev` on the screen `s`: run the tool
/// after `OK` or `EXE` on a tool screen.
pub open spec fn spec_action(s: Screen, ev: Event) -> Action {
    if !spec_is_menu(s) && !spec_is_ref(s) && (ev == Event::OK || ev == Event::Exe) {
        Action::Compute
    } else {
        Action::Nothing
    }
}

/// How an event changes the state.
pub open spec fn step(old: AppState, new: AppState, ev: Event) -> bool {
    if spec_is_menu(old.screen) {
        menu_step(old, new, ev)
    } else if spec_is_ref(old.screen) {
        ref_step(old, new, ev)
    } else {
        tool_step(old, new, ev)
    }
}

/// What `dispatch` needs to run without overflow or an out-of-range field.
pub open spec fn can_step(s: AppState, ev: Event) -> bool {
    let num = spec_input_count(s.screen);
    let a = s.active_input;
    &&& (s.screen == Screen::ExprSimplify && ev == Event::Down && s.result.ready) ==> s.scroll < usize::MAX
    &&& (!spec_is_menu(s.screen) && !spec_is_ref(s.screen) && ev == Event::Dot && a < num)
        ==> s.inputs@[a as int].len <= 16
    &&& (!spec_is_menu(s.screen) && !spec_is_ref(s.screen) && s.screen != Screen::ExprSimplify
        && ev == Event::Minus && a < num)
        ==> (s.inputs@[a as int].len <= 16 || s.inputs@[a as int].buf@[0] != 45u8)
}

/// The invariant the application keeps: fields within capacity, the menu
/// selection on an item, the active field on a field, the card scroll within
/// the card on screen, and the operation choices in range.
pub open spec fn state_inv(s: AppState) -> bool {
    &&& forall|i: int| 0 <= i < 6 ==> (#[trigger] s.inputs@[i]).wf()
    &&& spec_is_menu(s.screen) ==> s.menu_sel < spec_max_items(s.screen)
    &&& (!spec_is_menu(s.screen) && !spec_is_ref(s.screen)) ==> s.active_input < spec_input_count(s.screen)
    &&& spec_is_ref(s.screen) ==> s.scroll <= max_scroll(spec_card(s.screen).len())
    &&& s.complex_op < 4
    &&& s.inequal_op < 4
    &&& s.cubes_op < 2
    &&& s.bin_pow_n < 2
}

/// Handles an event on a menu screen.
fn handle_menu_event(state: &mut AppState, ev: Event)
    requires
        spec_is_menu(old(state).screen),
    ensures
        menu_step(*old(state), *final(state), ev),
{
    let max = max_items(&state.screen);
    match ev {
        Event::Up => {
            if state.menu_sel > 0 {
                state.menu_sel = state.menu_sel - 1;
            }
            state.dirty = true;
        },
        Event::Down => {
            if max > 0 && state.menu_sel < max - 1 {
                state.menu_sel = state.menu_sel + 1;
            }
            state.dirty = true;
        },
        Event::OK | Event::Exe => {
            match menu_target(&state.screen, state.menu_sel) {
                Some(t) => state.go_to(t),
                None => {},
            }
        },
        Event::Back => {
            let parent = parent_screen(&state.screen);
            state.go_to(parent);
        },
        _ => {},
    }
}

/// Handles an event on a reference card.
fn handle_ref_event(state: &mut AppState, ev: Event)
    requires
        spec_is_ref(old(state).screen),
    ensures
        ref_step(*old(state), *final(state), ev),
{
    let card_len = card_lines(&state.screen).len();
    let rows: usize = (CONTENT_H / ROW_H) as usize;
    let max_scroll: usize = if card_len > rows { card_len - rows } else { 0 };
    match ev {
        Event::Up => {
            if state.scroll > 0 {
                state.scroll = state.scroll - 1;
                state.dirty = true;
            }
        },
        Event::Down => {
            if state.scroll < max_scroll {
                state.scroll = state.scroll + 1;
                state.dirty = true;
            }
        },
        Event::Back => {
            let parent = parent_screen(&state.screen);
            state.go_to(parent);
        },
        _ => {},
    }
}


/// Advances an operation choice among `n` by `k`, wrapping around.
fn cycle(op: usize, k: usize, n: usize) -> (r: usize)
    requires
        0 < n <= 4,
        k < n,
    ensures
        r as int == (op + k) % (n as int),
{
    proof {
        vstd::arithmetic::div_mod::lemma_add_mod_noop(op as int, k as int, n as int);
        vstd::arithmetic::div_mod::lemma_small_mod(k as nat, n as nat);
    }
    (op % n + k) % n
}

/// Handles an event on a tool screen.
fn handle_tool_event(state: &mut AppState, ev: Event) -> (a: Action)
    requires
        !spec_is_menu(old(state).screen),
        !spec_is_ref(old(state).screen),
        can_step(*old(state), ev),
    ensures
        tool_step(*old(state), *final(state), ev),
        a == spec_action(old(state).screen, ev),
{
    let (_, labels) = tool_info(&state.screen);
    let num_inputs = labels.len();
    proof {
        lemma_input_count_bounds(state.screen);
    }

    if state.screen == Screen::ExprSimplify {
        let typed: Option<u8> = match ev {
            Event::Plus => Some(43u8),
            Event::Multiplication => Some(42u8),
            Event::Division => Some(47u8),
            Event::Power => Some(94u8),
            Event::Xnt => Some(120u8),
            Event::LeftParenthesis => Some(40u8),
            Event::RightParenthesis => Some(41u8),
            Event::Minus => Some(45u8),
            _ => None,
        };
        match typed {
            Some(c) => {
                let mut b = state.inputs[0];
                b.push_char(c);
                state.inputs[0] = b;
                state.result.clear();
                state.dirty = true;
                proof {
                    assert(state.result.lines@.len() == state.result.line_texts().len());
                }
                return Action::Nothing;
            },
            None => {},
        }
        match ev {
            Event::Up => {
                if state.result.ready && state.scroll > 0 {
                    state.scroll = state.scroll - 1;
                    state.dirty = true;
                    return Action::Nothing;
                }
            },
            Event::Down => {
                if state.result.ready {
                    state.scroll = state.scroll + 1;
                    state.dirty = true;
                    return Action::Nothing;
                }
            },
            _ => {},
        }
    }

    let a = state.active_input;
    match ev {
        Event::Up => {
            if a > 0 {
                state.active_input = a - 1;
            } else {
                state.active_input = if num_inputs > 0 { num_inputs - 1 } else { 0 };
            }
            state.dirty = true;
            Action::Nothing
        },
        Event::Down => {
            if num_inputs > 0 && a < num_inputs - 1 {
                state.active_input = a + 1;
            } else {
                state.active_input = 0;
            }
            state.dirty = true;
            Action::Nothing
        },
        Event::Left | Event::Right => {
            let k: usize = if ev == Event::Left { 3 } else { 1 };
            match state.screen {
                Screen::InequalSolver => {
                    state.inequal_op = cycle(state.inequal_op, k, 4);
                    state.result.clear();
                    state.dirty = true;
                },
                Screen::ComplexArith => {
                    state.complex_op = cycle(state.complex_op, k, 4);
                    state.result.clear();
                    state.dirty = true;
                },
                Screen::SumDiffCubes => {
                    state.cubes_op = cycle(state.cubes_op, 1, 2);
                    state.result.clear();
                    state.dirty = true;
                },
                Screen::SimpBinPow => {
                    state.bin_pow_n = cycle(state.bin_pow_n, 1, 2);
                    state.result.clear();
                    state.dirty = true;
                },
                _ => {},
            }
            proof {
                assert(state.result.lines@.len() == state.result.line_texts().len());
            }
            Action::Nothing
        },
        Event::OK | Event::Exe => Action::Compute,
        Event::Back => {
            let parent = parent_screen(&state.screen);
            state.go_to(parent);
            Action::Nothing
        },
        Event::Backspace => {
            if a < num_inputs {
                let mut b = state.inputs[a];
                b.backspace();
                state.inputs[a] = b;
                state.result.clear();
                state.dirty = true;
                proof {
                    assert(state.result.lines@.len() == state.result.line_texts().len());
                }
            }
            Action::Nothing
        },
        Event::Dot => {
            if a < num_inputs {
                let mut b = state.inputs[a];
                b.push_dot();
                state.inputs[a] = b;
                state.result.clear();
                state.dirty = true;
                proof {
                    assert(state.result.lines@.len() == state.result.line_texts().len());
                }
            }
            Action::Nothing
        },
        Event::Minus => {
            if a < num_inputs {
                let mut b = state.inputs[a];
                b.toggle_sign();
                state.inputs[a] = b;
                state.result.clear();
                state.dirty = true;
                proof {
                    assert(state.result.lines@.len() == state.result.line_texts().len());
                }
            }
            Action::Nothing
        },
        _ => {
            match ev.to_digit() {
                Some(d) => {
                    if a < num_inputs {
                        let mut b = state.inputs[a];
                        b.push_digit(d);
                        state.inputs[a] = b;
                        state.result.clear();
                        state.dirty = true;
                        proof {
                            assert(state.result.lines@.len() == state.result.line_texts().len());
                        }
                    }
                },
                None => {},
            }
            Action::Nothing
        },
    }
}

/// Applies a key event to the state. Returns whether the current tool must
/// now be computed.
pub fn dispatch(state: &mut AppState, ev: Event) -> (a: Action)
    requires
        can_step(*old(state), ev),
    ensures
        step(*old(state), *final(state), ev),
        a == spec_action(old(state).screen, ev),
{
    if is_menu_screen(&state.screen) {
        handle_menu_event(state, ev);
        Action::Nothing
    } else if is_ref_screen(&state.screen) {
        handle_ref_event(state, ev);
        Action::Nothing
    } else {
        handle_tool_event(state, ev)
    }
}


proof fn lemma_went_to_inv(old: AppState, new: AppState, t: Screen)
    requires
        state_inv(old),
        went_to(old, new, t),
        spec_is_menu(t) || spec_is_ref(t) || spec_input_count(t) >= 1,
    ensures
        state_inv(new),
{
    lemma_input_count_bounds(t);
    assert forall|i: int| 0 <= i < 6 implies (#[trigger] new.inputs@[i]).wf() by {
        assert(new.inputs@[i].len == 0);
    }
}

/// Every event keeps the invariant of the state: the menu selection stays on an
/// item, the active field on a field, the card scroll within the card, the
/// operation choices in range and the fields within capacity.
pub proof fn lemma_step_keeps_inv(old: AppState, new: AppState, ev: Event)
    requires
        state_inv(old),
        step(old, new, ev),
    ensures
        state_inv(new),
{
    lemma_input_count_bounds(old.screen);
    let p = spec_parent(old.screen);
    assert(spec_is_menu(p));
    if spec_is_menu(old.screen) {
        if (ev == Event::OK || ev == Event::Exe) && spec_menu_target(old.screen, old.menu_sel as int) is Some {
            let t = spec_menu_target(old.screen, old.menu_sel as int).unwrap();
            lemma_input_count_bounds(t);
            lemma_went_to_inv(old, new, t);
        } else if ev == Event::Back {
            lemma_went_to_inv(old, new, p);
        }
    } else if spec_is_ref(old.screen) {
        if ev == Event::Back {
            lemma_went_to_inv(old, new, p);
        }
    } else {
        let num = spec_input_count(old.screen);
        let a = old.active_input;
        if ev == Event::Back && !expr_intercepts(old, ev) {
            lemma_went_to_inv(old, new, p);
        } else if expr_intercepts(old, ev) && expr_key_char(ev) is Some {
            assert(new.inputs@[0].wf());
            assert forall|i: int| 0 <= i < 6 implies (#[trigger] new.inputs@[i]).wf() by {
                if i != 0 {
                    assert(new.inputs@[i] == old.inputs@[i]);
                }
            }
        } else if !expr_intercepts(old, ev) && a < num
            && (ev == Event::Backspace || ev == Event::Dot || ev == Event::Minus || spec_digit(ev) is Some) {
            let b0 = old.inputs@[a as int];
            let b1 = new.inputs@[a as int];
            assert(b0.wf());
            if ev == Event::Dot {
                assert(b1@.len() == b1.len);
                assert(b0@.len() == b0.len);
            }
            if ev == Event::Minus {
                assert(b1@.len() == b1.len);
                assert(b0@.len() == b0.len);
            }
            assert(b1.wf());
            assert forall|i: int| 0 <= i < 6 implies (#[trigger] new.inputs@[i]).wf() by {
                if i != a {
                    assert(new.inputs@[i] == old.inputs@[i]);
                }
            }
        }
    }
}

/// Moving the operation choice left and then right gives back the choice.
pub proof fn lemma_left_right_restores(s0: AppState, s1: AppState, s2: AppState)
    requires
        state_inv(s0),
        !spec_is_menu(s0.screen),
        !spec_is_ref(s0.screen),
        tool_step(s0, s1, Event::Left),
        tool_step(s1, s2, Event::Right),
    ensures
        s2.screen == s0.screen,
        s2.inequal_op == s0.inequal_op,
        s2.complex_op == s0.complex_op,
        s2.cubes_op == s0.cubes_op,
        s2.bin_pow_n == s0.bin_pow_n,
{
}

/// On a tool screen, `Down` moves to the next field, wrapping from the last to
/// the first, and `Up` then comes back: the state is the one before, but for
/// the redraw. (A finished result of the general simplifier takes these keys
/// for scrolling instead.)
pub proof fn lemma_field_round_trip(s0: AppState, s1: AppState, s2: AppState)
    requires
        state_inv(s0),
        !spec_is_menu(s0.screen),
        !spec_is_ref(s0.screen),
        !(s0.screen == Screen::ExprSimplify && s0.result.ready),
        step(s0, s1, Event::Down),
        step(s1, s2, Event::Up),
    ensures
        s1.active_input == (s0.active_input + 1) % (spec_input_count(s0.screen) as int),
        s1 == (AppState { active_input: s1.active_input, dirty: true, ..s0 }),
        s2 == (AppState { dirty: true, ..s0 }),
{
    lemma_input_count_bounds(s0.screen);
    let n = spec_input_count(s0.screen) as int;
    let a = s0.active_input as int;
    if a + 1 < n {
        vstd::arithmetic::div_mod::lemma_small_mod((a + 1) as nat, n as nat);
    } else {
        vstd::arithmetic::div_mod::lemma_mod_self_0(n);
    }
}

/// On a tool screen, `Up` moves to the previous field, wrapping from the first
/// to the last, and `Down` then comes back.
pub proof fn lemma_field_round_trip_up(s0: AppState, s1: AppState, s2: AppState)
    requires
        state_inv(s0),
        !spec_is_menu(s0.screen),
        !spec_is_ref(s0.screen),
        !(s0.screen == Screen::ExprSimplify && s0.result.ready),
        step(s0, s1, Event::Up),
        step(s1, s2, Event::Down),
    ensures
        s1.active_input == (s0.active_input + spec_input_count(s0.screen) - 1) % (spec_input_count(s0.screen) as int),
        s1 == (AppState { active_input: s1.active_input, dirty: true, ..s0 }),
        s2 == (AppState { dirty: true, ..s0 }),
{
    lemma_input_count_bounds(s0.screen);
    let n = spec_input_count(s0.screen) as int;
    let a = s0.active_input as int;
    if a > 0 {
        vstd::arithmetic::div_mod::lemma_mod_add_multiples_vanish(a - 1, n);
        vstd::arithmetic::div_mod::lemma_small_mod((a - 1) as nat, n as nat);
    } else {
        vstd::arithmetic::div_mod::lemma_small_mod((n - 1) as nat, n as nat);
    }
}

/// `Left` or `Right` pressed four times gives back every operation choice: the
/// four-way choices step by one each time (`Right` forward, `Left` back), the
/// two-way ones flip. The result is cleared on each press.
pub proof fn lemma_op_cycle(s0: AppState, s1: AppState, s2: AppState, s3: AppState, s4: AppState, ev: Event)
    requires
        state_inv(s0),
        !spec_is_menu(s0.screen),
        !spec_is_ref(s0.screen),
        ev == Event::Left || ev == Event::Right,
        step(s0, s1, ev),
        step(s1, s2, ev),
        step(s2, s3, ev),
        step(s3, s4, ev),
    ensures
        s4.screen == s0.screen,
        s4.inputs == s0.inputs,
        s4.active_input == s0.active_input,
        s4.complex_op == s0.complex_op,
        s4.inequal_op == s0.inequal_op,
        s4.cubes_op == s0.cubes_op,
        s4.bin_pow_n == s0.bin_pow_n,
        s0.screen == Screen::ComplexArith ==> s1.complex_op == (s0.complex_op + (if ev == Event::Right { 1int } else { 3int })) % 4,
        s0.screen == Screen::InequalSolver ==> s1.inequal_op == (s0.inequal_op + (if ev == Event::Right { 1int } else { 3int })) % 4,
        s0.screen == Screen::ComplexArith || s0.screen == Screen::InequalSolver || s0.screen == Screen::SumDiffCubes
            || s0.screen == Screen::SimpBinPow ==> is_cleared(s4.result),
{
}

/// On a menu, `Up` and `Down` move the selection by one, held on the items,
/// and change nothing else but the redraw; the selection stays on an item.
pub proof fn lemma_menu_selection(s0: AppState, s1: AppState, ev: Event)
    requires
        state_inv(s0),
        spec_is_menu(s0.screen),
        ev == Event::Up || ev == Event::Down,
        step(s0, s1, ev),
    ensures
        ev == Event::Up ==> s1.menu_sel == (if s0.menu_sel > 0 { s0.menu_sel - 1 } else { 0 }),
        ev == Event::Down ==> s1.menu_sel == (if s0.menu_sel + 1 < spec_max_items(s0.screen) {
            s0.menu_sel + 1
        } else {
            s0.menu_sel as int
        }),
        s1.menu_sel < spec_max_items(s0.screen),
        s1 == (AppState { menu_sel: s1.menu_sel, dirty: true, ..s0 }),
{
}

/// `OK` or `EXE` on a menu opens the screen of the selected item, with the
/// selection, field, scroll, fields and result reset, and `Back` there returns
/// to the menu; past the last item nothing changes.
pub proof fn lemma_menu_open_back(s0: AppState, s1: AppState, s2: AppState, ev: Event)
    requires
        spec_is_menu(s0.screen),
        ev == Event::OK || ev == Event::Exe,
        step(s0, s1, ev),
        step(s1, s2, Event::Back),
    ensures
        s0.menu_sel < spec_max_items(s0.screen) ==> {
            &&& s1.screen != s0.screen
            &&& spec_parent(s1.screen) == s0.screen
            &&& went_to(s0, s1, s1.screen)
            &&& s2.screen == s0.screen
        },
        s0.menu_sel >= spec_max_items(s0.screen) ==> s1 == s0,
{
    lemma_menu_target_parent(s0.screen, s0.menu_sel as int);
}

/// On a reference card, `Down` scrolls one line while lines are left below the
/// page, `Up` one line back to the top, and the scroll stays within the card:
/// at most its length less one page.
pub proof fn lemma_card_scroll(s0: AppState, s1: AppState, ev: Event)
    requires
        state_inv(s0),
        spec_is_ref(s0.screen),
        ev == Event::Up || ev == Event::Down,
        step(s0, s1, ev),
    ensures
        s1.screen == s0.screen,
        s1.inputs == s0.inputs,
        ev == Event::Down ==> s1.scroll == (if s0.scroll < max_scroll(spec_card(s0.screen).len()) {
            s0.scroll + 1
        } else {
            s0.scroll as int
        }),
        ev == Event::Up ==> s1.scroll == (if s0.scroll > 0 { s0.scroll - 1 } else { 0 }),
        s1.dirty == (s0.dirty || s1.scroll != s0.scroll),
        s1.scroll <= max_scroll(spec_card(s1.screen).len()),
        max_scroll(spec_card(s0.screen).len()) == (if spec_card(s0.screen).len() > 11 {
            spec_card(s0.screen).len() - 11
        } else {
            0
        }),
{
}

/// `new` is `old` with the character `c` typed into the active field: when
/// the field has room, the field is one byte longer and that byte is `c`;
/// the other fields stay as they were.
pub open spec fn typed_into_active(old: AppState, new: AppState, c: u8) -> bool {
    let a = old.active_input as int;
    &&& new.screen == old.screen
    &&& new.active_input == old.active_input
    &&& forall|i: int| 0 <= i < 6 && i != a ==> #[trigger] new.inputs@[i] == old.inputs@[i]
    &&& old.inputs@[a].len < 15 ==> {
        &&& new.inputs@[a].len == old.inputs@[a].len + 1
        &&& new.inputs@[a].buf@[old.inputs@[a].len as int] == c
        &&& forall|j: int| 0 <= j < old.inputs@[a].len ==> #[trigger] new.inputs@[a].buf@[j] == old.inputs@[a].buf@[j]
    }
}

/// On a tool screen each digit key types its own digit into the active field:
/// `0` types the character `'0'`, `1` types `'1'`, and so on up to `9`.
pub proof fn lemma_digit_key_types_its_digit(old: AppState, new: AppState, ev: Event)
    requires
        !spec_is_menu(old.screen),
        !spec_is_ref(old.screen),
        old.active_input < spec_input_count(old.screen),
        step(old, new, ev),
    ensures
        ev == Event::Zero ==> typed_into_active(old, new, '0' as u8),
        ev == Event::One ==> typed_into_active(old, new, '1' as u8),
        ev == Event::Two ==> typed_into_active(old, new, '2' as u8),
        ev == Event::Three ==> typed_into_active(old, new, '3' as u8),
        ev == Event::Four ==> typed_into_active(old, new, '4' as u8),
        ev == Event::Five ==> typed_into_active(old, new, '5' as u8),
        ev == Event::Six ==> typed_into_active(old, new, '6' as u8),
        ev == Event::Seven ==> typed_into_active(old, new, '7' as u8),
        ev == Event::Eight ==> typed_into_active(old, new, '8' as u8),
        ev == Event::Nine ==> typed_into_active(old, new, '9' as u8),
{
    let a = old.active_input as int;
    if spec_digit(ev) is Some {
        assert(new.inputs@ == old.inputs@.update(a, new.inputs@[a]));
        assert forall|i: int| 0 <= i < 6 && i != a implies #[trigger] new.inputs@[i] == old.inputs@[i] by {}
    }
}

} // verus!
