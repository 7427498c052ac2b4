//! A titled list of items with one selected.

use vstd::prelude::*;
use vstd::string::StringExecFns;
use crate::constants::{W, CONTENT_Y, ROW_H, LABEL_X};
use super::draw::{lemma_extends_trans, lemma_extends_refl, DrawOp, Color, Rect, Point, clear_screen, draw_header, draw_footer, extends, added, is_fill, is_text, screen_rect, row_rect, point, rect};
use crate::constants::{HEADER_H, FOOTER_Y, FOOTER_H};

verus! {

/// Key hint shown under a menu.
pub open spec fn menu_hint() -> Seq<char> {
    "Up/Dn=Navigate  EXE=Select  Back=Back"@
}

/// Row of item `i` of a menu.
pub open spec fn menu_row_y(i: int) -> int {
    CONTENT_Y + i * ROW_H
}

/// Text of item `i`: `> ` in front of the selected one, two spaces otherwise.
pub open spec fn menu_item_text(item: Seq<char>, selected: bool) -> Seq<char> {
    (if selected { "> "@ } else { "  "@ }) + item
}

/// Row `j` of a menu is drawn at steps `off + 2j` and `off + 2j + 1` after `base`:
/// its background (highlighted when `selected`) and its text.
pub open spec fn menu_row_drawn(base: Seq<DrawOp>, ops: Seq<DrawOp>, off: int, item: Seq<char>, j: int, selected: bool) -> bool {
    let bg = if selected { Color::Selected } else { Color::Bg };
    &&& is_fill(added(base, ops, off + 2 * j), row_rect(menu_row_y(j)), bg)
    &&& is_text(added(base, ops, off + 2 * j + 1), menu_item_text(item, selected), point(LABEL_X as int, menu_row_y(j) + 1), Color::Text, bg)
}

/// A menu screen after `base`: background, title bar, key hint, then one row
/// per item, the `selected` one highlighted.
pub open spec fn menu_drawn(base: Seq<DrawOp>, ops: Seq<DrawOp>, title: Seq<char>, items: Seq<Seq<char>>, selected: int) -> bool {
    &&& extends(base, ops, 5 + 2 * (items.len() as int))
    &&& is_fill(added(base, ops, 0), screen_rect(), Color::Bg)
    &&& is_fill(added(base, ops, 1), rect(0, 0, W as int, HEADER_H as int), Color::Header)
    &&& is_text(added(base, ops, 2), title, point(5, 3), Color::HeaderTxt, Color::Header)
    &&& is_fill(added(base, ops, 3), rect(0, FOOTER_Y as int, W as int, FOOTER_H as int), Color::Footer)
    &&& is_text(added(base, ops, 4), menu_hint(), point(5, FOOTER_Y + 1), Color::FooterTxt, Color::Footer)
    &&& forall|i: int| 0 <= i < items.len() ==> menu_row_drawn(base, ops, 5, #[trigger] items[i], i, i == selected)
}

pub struct Menu<'a> {
    pub title: &'a str,
    pub items: &'a [&'a str],
    pub selected: usize,
}

impl<'a> Menu<'a> {
    /// A menu with the first item selected.
    pub fn new(title: &'a str, items: &'a [&'a str]) -> (m: Self)
        ensures
            m.title == title,
            m.items == items,
            m.selected == 0,
    {
        Menu { title, items, selected: 0 }
    }

    /// Selects the previous item, if any.
    pub fn move_up(&mut self)
        ensures
            final(self).title == old(self).title,
            final(self).items == old(self).items,
            final(self).selected == if old(self).selected > 0 { old(self).selected - 1 } else { 0 },
    {
        if self.selected > 0 {
            self.selected = self.selected - 1;
        }
    }

    /// Selects the next item, if any.
    pub fn move_down(&mut self)
        ensures
            final(self).title == old(self).title,
            final(self).items == old(self).items,
            final(self).selected == if old(self).selected + 1 < old(self).items@.len() {
                old(self).selected + 1
            } else {
                old(self).selected as int
            },
    {
        let n = self.items.len();
        if n > 0 && self.selected < n - 1 {
            self.selected = self.selected + 1;
        }
    }

    /// The menu screen: background, title bar, key hint, then one row per item,
    /// the selected one highlighted and marked with `> `.
    pub fn draw(&self, ops: &mut Vec<DrawOp>)
        requires
            self.items@.len() == 0 || CONTENT_Y + (self.items@.len() - 1) * ROW_H + 1 <= u16::MAX,
        ensures
            extends(old(ops)@, final(ops)@, 5 + 2 * (self.items@.len() as int)),
            is_fill(added(old(ops)@, final(ops)@, 0), screen_rect(), Color::Bg),
            is_fill(added(old(ops)@, final(ops)@, 1), rect(0, 0, W as int, HEADER_H as int), Color::Header),
            is_text(added(old(ops)@, final(ops)@, 2), self.title@, point(5, 3), Color::HeaderTxt, Color::Header),
            is_fill(added(old(ops)@, final(ops)@, 3), rect(0, FOOTER_Y as int, W as int, FOOTER_H as int), Color::Footer),
            is_text(added(old(ops)@, final(ops)@, 4), menu_hint(), point(5, FOOTER_Y + 1), Color::FooterTxt, Color::Footer),
            forall|i: int| 0 <= i < self.items@.len() ==>
                menu_row_drawn(old(ops)@, final(ops)@, 5, #[trigger] self.items@[i]@, i, i == self.selected),
            menu_drawn(old(ops)@, final(ops)@, self.title@, self.items@.map_values(|l: &str| l@), self.selected as int),
    {
        let ghost start = old(ops)@;
        clear_screen(ops);
        let ghost s1 = ops@;
        draw_header(ops, self.title);
        let ghost s2 = ops@;
        draw_footer(ops, "Up/Dn=Navigate  EXE=Select  Back=Back");
        let ghost head = ops@;
        proof {
            lemma_extends_refl(head);
            lemma_extends_trans(start, s1, s2, 1, 2);
            lemma_extends_trans(start, s2, head, 3, 2);
            assert(added(start, head, 0) == added(start, s2, 0));
            assert(added(start, head, 1) == added(start, s2, 1));
            assert(added(start, head, 2) == added(start, s2, 2));
            assert(added(start, s2, 1) == added(s1, s2, 0));
            assert(added(start, s2, 2) == added(s1, s2, 1));
            assert(added(start, head, 3) == added(s2, head, 0));
            assert(added(start, head, 4) == added(s2, head, 1));
        }
        let n = self.items.len();
        let mut i: usize = 0;
        while i < n
            invariant
                n == self.items@.len(),
                n == 0 || CONTENT_Y + (n - 1) * ROW_H + 1 <= u16::MAX,
                i <= n,
                extends(head, ops@, 2 * (i as int)),
                extends(start, head, 5),
                forall|j: int| 0 <= j < i ==>
                    menu_row_drawn(head, ops@, 0, #[trigger] self.items@[j]@, j, j == self.selected),
            decreases n - i,
        {
            let ghost prev = ops@;
            let y: u16 = CONTENT_Y + (i as u16) * ROW_H;
            let sel = i == self.selected;
            let bg = if sel { Color::Selected } else { Color::Bg };
            ops.push(DrawOp::Fill { rect: Rect { x: 0, y: y, width: W, height: ROW_H }, color: bg });
            let mut text = if sel { String::from_str("> ") } else { String::from_str("  ") };
            text.append(self.items[i]);
            ops.push(DrawOp::Text { text: text, at: Point { x: LABEL_X, y: y + 1 }, large: false, fg: Color::Text, bg: bg });
            let ghost oi = i as int;
            i = i + 1;
            proof {
                assert(extends(prev, ops@, 2)) by {
                    assert(ops@.subrange(0, prev.len() as int) =~= prev);
                }
                lemma_extends_trans(head, prev, ops@, 2 * oi, 2);
                assert(added(prev, ops@, 0) == added(head, ops@, 2 * oi));
                assert(added(prev, ops@, 1) == added(head, ops@, 2 * oi + 1));
                assert(y as int == menu_row_y(oi));
                assert(is_fill(added(prev, ops@, 0), row_rect(menu_row_y(oi)), bg));
                assert(text@ == menu_item_text(self.items@[oi]@, sel));
                assert(is_text(added(prev, ops@, 1), menu_item_text(self.items@[oi]@, sel), point(LABEL_X as int, menu_row_y(oi) + 1), Color::Text, bg));
                assert forall|j: int| 0 <= j < i implies
                    menu_row_drawn(head, ops@, 0, #[trigger] self.items@[j]@, j, j == self.selected) by {
                    if j < oi {
                        let _ = self.items@[j];
                        assert(added(head, ops@, 2 * j) == added(head, prev, 2 * j));
                        assert(added(head, ops@, 2 * j + 1) == added(head, prev, 2 * j + 1));
                    } else {
                        assert(j == oi);
                    }
                }
            }
        }
        proof {
            lemma_extends_trans(start, head, ops@, 5, 2 * (n as int));
            assert(added(start, ops@, 0) == added(start, head, 0));
            assert(added(start, ops@, 1) == added(start, head, 1));
            assert(added(start, ops@, 2) == added(start, head, 2));
            assert(added(start, ops@, 3) == added(start, head, 3));
            assert(added(start, ops@, 4) == added(start, head, 4));
            assert forall|j: int| 0 <= j < n implies
                menu_row_drawn(start, ops@, 5, #[trigger] self.items@[j]@, j, j == self.selected) by {
                assert(menu_row_drawn(head, ops@, 0, self.items@[j]@, j, j == self.selected));
                assert(added(head, ops@, 2 * j) == added(start, ops@, 5 + 2 * j));
                assert(added(head, ops@, 2 * j + 1) == added(start, ops@, 5 + 2 * j + 1));
            }
            let views = self.items@.map_values(|l: &str| l@);
            assert forall|j: int| 0 <= j < views.len() implies
                menu_row_drawn(start, ops@, 5, #[trigger] views[j], j, j == self.selected) by {
                assert(views[j] == self.items@[j]@);
            }
        }
    }
}

} // verus!
