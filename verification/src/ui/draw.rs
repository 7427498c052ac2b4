//! Drawing helpers. Each appends to a display list the rectangles and texts it
//! would paint; the application paints the list on the screen.

use vstd::prelude::*;
use vstd::utf8::encode_utf8;
use crate::constants::{W, H, HEADER_H, FOOTER_H, FOOTER_Y, ROW_H, SMALL_CHAR_W, INPUT_X, INPUT_W, LABEL_X, RESULT_X};

verus! {

/// The colours of the palette, by role.
#[derive(Clone, Copy, PartialEq, Eq, Structural, Debug)]
pub enum Color {
    Bg,
    Header,
    HeaderTxt,
    Selected,
    Highlight,
    InputBg,
    Text,
    Dim,
    Result,
    Warn,
    Footer,
    FooterTxt,
    Sep,
}

#[derive(Clone, Copy, PartialEq, Eq, Structural, Debug)]
pub struct Rect {
    pub x: u16,
    pub y: u16,
    pub width: u16,
    pub height: u16,
}

#[derive(Clone, Copy, PartialEq, Eq, Structural, Debug)]
pub struct Point {
    pub x: u16,
    pub y: u16,
}

/// One painting step: fill a rectangle, or draw a string.
pub enum DrawOp {
    Fill { rect: Rect, color: Color },
    Text { text: String, at: Point, large: bool, fg: Color, bg: Color },
}

pub open spec fn rect(x: int, y: int, width: int, height: int) -> Rect {
    Rect { x: x as u16, y: y as u16, width: width as u16, height: height as u16 }
}

pub open spec fn point(x: int, y: int) -> Point {
    Point { x: x as u16, y: y as u16 }
}

/// `op` fills `r` with `c`.
pub open spec fn is_fill(op: DrawOp, r: Rect, c: Color) -> bool {
    op matches DrawOp::Fill { rect, color } && rect == r && color == c
}

/// `op` draws the small-font string `s` at `p` in `fg` on `bg`.
pub open spec fn is_text(op: DrawOp, s: Seq<char>, p: Point, fg: Color, bg: Color) -> bool {
    op matches DrawOp::Text { text, at, large, fg: f, bg: b } && text@ == s && at == p && !large
        && f == fg && b == bg
}

/// `new` is `old` followed by `n` more steps.
pub open spec fn extends(old: Seq<DrawOp>, new: Seq<DrawOp>, n: int) -> bool {
    new.len() == old.len() + n && new.subrange(0, old.len() as int) == old
}

/// The `k`-th step that `new` adds after `old`.
pub open spec fn added(old: Seq<DrawOp>, new: Seq<DrawOp>, k: int) -> DrawOp {
    new[old.len() + k]
}

/// Display lists compose: steps added after a prefix keep their positions.
pub proof fn lemma_extends_trans(a: Seq<DrawOp>, b: Seq<DrawOp>, c: Seq<DrawOp>, n: int, m: int)
    requires
        extends(a, b, n),
        extends(b, c, m),
        n >= 0,
        m >= 0,
    ensures
        extends(a, c, n + m),
        forall|k: int| 0 <= k < n ==> #[trigger] added(a, c, k) == added(a, b, k),
        forall|k: int| 0 <= k < m ==> #[trigger] added(b, c, k) == added(a, c, n + k),
{
    assert forall|k: int| 0 <= k < n implies #[trigger] added(a, c, k) == added(a, b, k) by {
        assert(c.subrange(0, b.len() as int)[a.len() + k] == c[a.len() + k]);
    }
    assert forall|k: int| 0 <= k < m implies #[trigger] added(b, c, k) == added(a, c, n + k) by {
    }
    assert(c.subrange(0, a.len() as int) =~= a) by {
        assert forall|k: int| 0 <= k < a.len() implies c.subrange(0, a.len() as int)[k] == a[k] by {
            assert(c.subrange(0, b.len() as int)[k] == c[k]);
            assert(b.subrange(0, a.len() as int)[k] == b[k]);
        }
    }
}

/// An empty extension.
pub proof fn lemma_extends_refl(a: Seq<DrawOp>)
    ensures
        extends(a, a, 0),
{
    assert(a.subrange(0, a.len() as int) =~= a);
}

/// The whole screen.
pub open spec fn screen_rect() -> Rect {
    rect(0, 0, W as int, H as int)
}

/// A full-width row of the standard height at `y`.
pub open spec fn row_rect(y: int) -> Rect {
    rect(0, y, W as int, ROW_H as int)
}

fn push_fill(ops: &mut Vec<DrawOp>, r: Rect, c: Color)
    ensures
        extends(old(ops)@, final(ops)@, 1),
        is_fill(added(old(ops)@, final(ops)@, 0), r, c),
{
    ops.push(DrawOp::Fill { rect: r, color: c });
    proof {
        assert(final(ops)@.subrange(0, old(ops)@.len() as int) =~= old(ops)@);
    }
}

fn push_text(ops: &mut Vec<DrawOp>, s: &str, p: Point, fg: Color, bg: Color)
    ensures
        extends(old(ops)@, final(ops)@, 1),
        is_text(added(old(ops)@, final(ops)@, 0), s@, p, fg, bg),
{
    ops.push(DrawOp::Text { text: s.to_owned(), at: p, large: false, fg: fg, bg: bg });
    proof {
        assert(final(ops)@.subrange(0, old(ops)@.len() as int) =~= old(ops)@);
    }
}

/// Paints the whole screen with the background colour.
pub fn clear_screen(ops: &mut Vec<DrawOp>)
    ensures
        extends(old(ops)@, final(ops)@, 1),
        is_fill(added(old(ops)@, final(ops)@, 0), screen_rect(), Color::Bg),
{
    push_fill(ops, Rect { x: 0, y: 0, width: W, height: H }, Color::Bg);
}

/// The header bar with `title`.
pub fn draw_header(ops: &mut Vec<DrawOp>, title: &str)
    ensures
        extends(old(ops)@, final(ops)@, 2),
        is_fill(added(old(ops)@, final(ops)@, 0), rect(0, 0, W as int, HEADER_H as int), Color::Header),
        is_text(added(old(ops)@, final(ops)@, 1), title@, point(5, 3), Color::HeaderTxt, Color::Header),
{
    push_fill(ops, Rect { x: 0, y: 0, width: W, height: HEADER_H }, Color::Header);
    push_text(ops, title, Point { x: 5, y: 3 }, Color::HeaderTxt, Color::Header);
    proof {
        assert(final(ops)@.subrange(0, old(ops)@.len() as int) =~= old(ops)@);
    }
}


/// The footer bar with the key `hint`.
pub fn draw_footer(ops: &mut Vec<DrawOp>, hint: &str)
    ensures
        extends(old(ops)@, final(ops)@, 2),
        is_fill(added(old(ops)@, final(ops)@, 0), rect(0, FOOTER_Y as int, W as int, FOOTER_H as int), Color::Footer),
        is_text(added(old(ops)@, final(ops)@, 1), hint@, point(5, FOOTER_Y + 1), Color::FooterTxt, Color::Footer),
{
    push_fill(ops, Rect { x: 0, y: FOOTER_Y, width: W, height: FOOTER_H }, Color::Footer);
    push_text(ops, hint, Point { x: 5, y: FOOTER_Y + 1 }, Color::FooterTxt, Color::Footer);
    proof {
        assert(final(ops)@.subrange(0, old(ops)@.len() as int) =~= old(ops)@);
    }
}

/// A one-pixel separator line at `y`.
pub fn draw_sep(ops: &mut Vec<DrawOp>, y: u16)
    ensures
        extends(old(ops)@, final(ops)@, 1),
        is_fill(added(old(ops)@, final(ops)@, 0), rect(0, y as int, W as int, 1), Color::Sep),
{
    push_fill(ops, Rect { x: 0, y: y, width: W, height: 1 }, Color::Sep);
}

/// A row at `y` in `bg` with `text` in `fg`.
pub fn draw_line(ops: &mut Vec<DrawOp>, y: u16, text: &str, fg: Color, bg: Color)
    requires
        y < u16::MAX,
    ensures
        extends(old(ops)@, final(ops)@, 2),
        is_fill(added(old(ops)@, final(ops)@, 0), row_rect(y as int), bg),
        is_text(added(old(ops)@, final(ops)@, 1), text@, point(LABEL_X as int, y + 1), fg, bg),
{
    push_fill(ops, Rect { x: 0, y: y, width: W, height: ROW_H }, bg);
    push_text(ops, text, Point { x: LABEL_X, y: y + 1 }, fg, bg);
    proof {
        assert(final(ops)@.subrange(0, old(ops)@.len() as int) =~= old(ops)@);
    }
}

/// The text an input field shows: `0` when empty.
pub open spec fn field_text(value: Seq<char>) -> Seq<char> {
    if value.len() == 0 {
        "0"@
    } else {
        value
    }
}

/// Column of a field's value, right-aligned in the field by its byte length
/// (counted up to 13).
pub open spec fn field_value_x(byte_len: int) -> int {
    let vlen = if byte_len < 13 { byte_len } else { 13 };
    if INPUT_X + INPUT_W > vlen * SMALL_CHAR_W + 2 {
        INPUT_X + INPUT_W - vlen * SMALL_CHAR_W - 2
    } else {
        INPUT_X as int
    }
}

/// An input field at `y`: the label, the field box (highlighted when `active`),
/// the value right-aligned in it (`0` when empty), and a cursor when active.
pub fn draw_input_field(ops: &mut Vec<DrawOp>, y: u16, label: &str, value: &str, active: bool)
    requires
        y <= u16::MAX - 3,
    ensures
        extends(old(ops)@, final(ops)@, if active { 5 } else { 4 }),
        is_fill(added(old(ops)@, final(ops)@, 0), row_rect(y as int), Color::Bg),
        is_text(added(old(ops)@, final(ops)@, 1), label@, point(LABEL_X as int, y + 1), Color::Text, Color::Bg),
        is_fill(
            added(old(ops)@, final(ops)@, 2),
            rect(INPUT_X as int, y + 1, INPUT_W as int, ROW_H - 2),
            if active { Color::Highlight } else { Color::InputBg },
        ),
        is_text(
            added(old(ops)@, final(ops)@, 3),
            field_text(value@),
            point(field_value_x(encode_utf8(field_text(value@)).len() as usize as int), y + 2),
            Color::Text,
            if active { Color::Highlight } else { Color::InputBg },
        ),
        active ==> is_fill(
            added(old(ops)@, final(ops)@, 4),
            rect(INPUT_X + INPUT_W - 2, y + 3, 1, ROW_H - 8),
            Color::Text,
        ),
{
    let field_bg = if active { Color::Highlight } else { Color::InputBg };
    push_fill(ops, Rect { x: 0, y: y, width: W, height: ROW_H }, Color::Bg);
    push_text(ops, label, Point { x: LABEL_X, y: y + 1 }, Color::Text, Color::Bg);
    push_fill(ops, Rect { x: INPUT_X, y: y + 1, width: INPUT_W, height: ROW_H - 2 }, field_bg);
    let display_val: &str = if value.is_empty() { "0" } else { value };
    proof {
        if value@.len() == 0 {
            reveal_strlit("0");
        }
    }
    let blen = display_val.len();
    let vlen: u16 = if blen < 13 { blen as u16 } else { 13 };
    let vx: u16 = if INPUT_X + INPUT_W > vlen * SMALL_CHAR_W + 2 {
        INPUT_X + INPUT_W - vlen * SMALL_CHAR_W - 2
    } else {
        INPUT_X
    };
    assert(display_val@ == field_text(value@));
    push_text(ops, display_val, Point { x: vx, y: y + 2 }, Color::Text, field_bg);
    if active {
        push_fill(ops, Rect { x: INPUT_X + INPUT_W - 2, y: y + 3, width: 1, height: ROW_H - 8 }, Color::Text);
    }
    proof {
        assert(final(ops)@.subrange(0, old(ops)@.len() as int) =~= old(ops)@);
    }
}

/// A result row at `y`: the label dimmed, the value in the result colour.
pub fn draw_result_line(ops: &mut Vec<DrawOp>, y: u16, label: &str, value: &str)
    requires
        y < u16::MAX,
    ensures
        extends(old(ops)@, final(ops)@, 3),
        is_fill(added(old(ops)@, final(ops)@, 0), row_rect(y as int), Color::Bg),
        is_text(added(old(ops)@, final(ops)@, 1), label@, point(LABEL_X as int, y + 1), Color::Dim, Color::Bg),
        is_text(added(old(ops)@, final(ops)@, 2), value@, point(RESULT_X as int, y + 1), Color::Result, Color::Bg),
{
    push_fill(ops, Rect { x: 0, y: y, width: W, height: ROW_H }, Color::Bg);
    push_text(ops, label, Point { x: LABEL_X, y: y + 1 }, Color::Dim, Color::Bg);
    push_text(ops, value, Point { x: RESULT_X, y: y + 1 }, Color::Result, Color::Bg);
    proof {
        assert(final(ops)@.subrange(0, old(ops)@.len() as int) =~= old(ops)@);
    }
}

/// A warning row at `y`.
pub fn draw_warn_line(ops: &mut Vec<DrawOp>, y: u16, text: &str)
    requires
        y < u16::MAX,
    ensures
        extends(old(ops)@, final(ops)@, 2),
        is_fill(added(old(ops)@, final(ops)@, 0), row_rect(y as int), Color::Bg),
        is_text(added(old(ops)@, final(ops)@, 1), text@, point(LABEL_X as int, y + 1), Color::Warn, Color::Bg),
{
    push_fill(ops, Rect { x: 0, y: y, width: W, height: ROW_H }, Color::Bg);
    push_text(ops, text, Point { x: LABEL_X, y: y + 1 }, Color::Warn, Color::Bg);
    proof {
        assert(final(ops)@.subrange(0, old(ops)@.len() as int) =~= old(ops)@);
    }
}

} // verus!
