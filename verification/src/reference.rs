//! Scrollable reference cards.

use vstd::prelude::*;
use vstd::string::StringExecFns;
use crate::constants::{W, HEADER_H, CONTENT_Y, CONTENT_H, FOOTER_Y, FOOTER_H, ROW_H, LABEL_X};
use crate::text::{nat_text, push_nat};
use crate::ui::draw::{
    DrawOp, Color, Rect, Point, clear_screen, draw_header, draw_footer, extends, added, is_fill, is_text,
    screen_rect, row_rect, point, rect, lemma_extends_trans, lemma_extends_refl,
};

verus! {

/// Key hint shown under a card.
pub open spec fn card_hint() -> Seq<char> {
    "Up/Dn=Scroll  Back=Back"@
}

/// Most lines a card shows at once.
pub open spec fn card_page() -> int {
    (CONTENT_H / ROW_H) as int
}

/// First line shown: the scroll position, held below the number of lines.
pub open spec fn card_start(len: int, scroll: int) -> int {
    if len == 0 {
        0
    } else if scroll < len - 1 {
        scroll
    } else {
        len - 1
    }
}

/// One past the last line shown.
pub open spec fn card_end(len: int, scroll: int) -> int {
    if card_start(len, scroll) + card_page() < len {
        card_start(len, scroll) + card_page()
    } else {
        len
    }
}

/// Position indicator, in percent, shown when the card is longer than a page.
pub open spec fn card_percent(len: int, scroll: int) -> int {
    (scroll * 100) / (len - card_page() + 1)
}

/// Text of the position indicator.
pub open spec fn card_indicator(len: int, scroll: int) -> Seq<char> {
    "-- "@ + nat_text(card_percent(len, scroll) as nat) + "% --"@
}

/// Line `k` of the page is drawn at steps `5 + 2k` and `6 + 2k`.
pub open spec fn card_row_drawn(base: Seq<DrawOp>, ops: Seq<DrawOp>, line: Seq<char>, k: int) -> bool {
    &&& is_fill(added(base, ops, 5 + 2 * k), row_rect(CONTENT_Y + k * ROW_H), Color::Bg)
    &&& is_text(added(base, ops, 6 + 2 * k), line, point(LABEL_X as int, CONTENT_Y + k * ROW_H + 1), Color::Text, Color::Bg)
}

/// A reference card after `base`: background, title, key hint, the page of
/// `lines` that starts at the scroll position, and, when the card is longer
/// than a page, a position indicator in percent above the footer.
pub open spec fn ref_card_drawn(base: Seq<DrawOp>, ops: Seq<DrawOp>, title: Seq<char>, lines: Seq<Seq<char>>, scroll: int) -> bool {
    let len = lines.len() as int;
    let shown = card_end(len, scroll) - card_start(len, scroll);
    let n = 5 + 2 * shown + if len > card_page() { 2int } else { 0int };
    &&& extends(base, ops, n)
    &&& is_fill(added(base, ops, 0), screen_rect(), Color::Bg)
    &&& is_fill(added(base, ops, 1), rect(0, 0, W as int, HEADER_H as int), Color::Header)
    &&& is_text(added(base, ops, 2), title, point(5, 3), Color::HeaderTxt, Color::Header)
    &&& is_fill(added(base, ops, 3), rect(0, FOOTER_Y as int, W as int, FOOTER_H as int), Color::Footer)
    &&& is_text(added(base, ops, 4), card_hint(), point(5, FOOTER_Y + 1), Color::FooterTxt, Color::Footer)
    &&& forall|k: int| 0 <= k < shown ==> card_row_drawn(base, ops, #[trigger] lines[card_start(len, scroll) + k], k)
    &&& len > card_page() ==> {
        &&& is_fill(added(base, ops, 5 + 2 * shown), row_rect(FOOTER_Y - ROW_H), Color::Footer)
        &&& is_text(added(base, ops, 6 + 2 * shown), card_indicator(len, scroll), point(5, FOOTER_Y - ROW_H + 1), Color::FooterTxt, Color::Footer)
    }
}

/// A reference card: title, key hint, the page of `lines` that starts at the
/// scroll position, and, when the card is longer than a page, a position
/// indicator in percent above the footer.
pub fn draw_ref_card(ops: &mut Vec<DrawOp>, title: &str, lines: &[&str], scroll: usize)
    requires
        scroll * 100 <= usize::MAX,
    ensures
        ref_card_drawn(old(ops)@, final(ops)@, title@, lines@.map_values(|l: &str| l@), scroll as int),
{
    let ghost base = old(ops)@;
    clear_screen(ops);
    let ghost s1 = ops@;
    draw_header(ops, title);
    let ghost s2 = ops@;
    draw_footer(ops, "Up/Dn=Scroll  Back=Back");
    let ghost head = ops@;
    proof {
        lemma_extends_trans(base, s1, s2, 1, 2);
        lemma_extends_trans(base, s2, head, 3, 2);
        assert(added(base, head, 0) == added(base, s2, 0));
        assert(added(base, head, 2) == added(base, s2, 2));
        assert(added(base, s2, 2) == added(s1, s2, 1));
        assert(added(base, head, 4) == added(s2, head, 1));
        lemma_extends_refl(head);
    }

    let len = lines.len();
    let page: usize = (CONTENT_H / ROW_H) as usize;
    let start: usize = if len == 0 { 0 } else if scroll < len - 1 { scroll } else { len - 1 };
    let end: usize = if start + page < len { start + page } else { len };
    let mut k: usize = 0;
    while start + k < end
        invariant
            len == lines@.len(),
            start == card_start(len as int, scroll as int),
            end == card_end(len as int, scroll as int),
            start <= end <= len,
            end - start <= 11,
            start + k <= end,
            extends(head, ops@, 2 * (k as int)),
            extends(base, head, 5),
            forall|j: int| 0 <= j < k ==>
                card_row_drawn(base, ops@, (#[trigger] lines@[start + j])@, j),
        decreases end - start - k,
    {
        let ghost prev = ops@;
        let y: u16 = CONTENT_Y + (k as u16) * ROW_H;
        ops.push(DrawOp::Fill { rect: Rect { x: 0, y: y, width: W, height: ROW_H }, color: Color::Bg });
        ops.push(DrawOp::Text {
            text: lines[start + k].to_owned(),
            at: Point { x: LABEL_X, y: y + 1 },
            large: false,
            fg: Color::Text,
            bg: Color::Bg,
        });
        let ghost kk = k as int;
        k = k + 1;
        proof {
            assert(extends(prev, ops@, 2)) by {
                assert(ops@.subrange(0, prev.len() as int) =~= prev);
            }
            lemma_extends_trans(head, prev, ops@, 2 * kk, 2);
            lemma_extends_trans(base, head, ops@, 5, 2 * (k as int));
            lemma_extends_trans(base, head, prev, 5, 2 * kk);
            assert(added(base, ops@, 5 + 2 * kk) == added(prev, ops@, 0));
            assert(added(base, ops@, 6 + 2 * kk) == added(prev, ops@, 1));
            assert forall|j: int| 0 <= j < k implies
                card_row_drawn(base, ops@, (#[trigger] lines@[start + j])@, j) by {
                if j < kk {
                    assert(card_row_drawn(base, prev, lines@[start + j]@, j));
                    assert(added(base, ops@, 5 + 2 * j) == added(base, prev, 5 + 2 * j));
                    assert(added(base, ops@, 6 + 2 * j) == added(base, prev, 6 + 2 * j));
                }
            }
        }
    }
    let ghost body = ops@;
    proof {
        lemma_extends_trans(base, head, body, 5, 2 * (k as int));
        assert(added(base, body, 0) == added(base, head, 0));
        assert(added(base, body, 2) == added(base, head, 2));
        assert(added(base, body, 4) == added(base, head, 4));
    }

    if len > page {
        let pct = (scroll * 100) / (len - page + 1);
        let mut ind = String::from_str("-- ");
        push_nat(&mut ind, pct as u64);
        ind.append("% --");
        let ind_y: u16 = FOOTER_Y - ROW_H;
        ops.push(DrawOp::Fill { rect: Rect { x: 0, y: ind_y, width: W, height: ROW_H }, color: Color::Footer });
        ops.push(DrawOp::Text { text: ind, at: Point { x: 5, y: ind_y + 1 }, large: false, fg: Color::FooterTxt, bg: Color::Footer });
        proof {
            assert(extends(body, ops@, 2)) by {
                assert(ops@.subrange(0, body.len() as int) =~= body);
            }
            let m = 5 + 2 * (k as int);
            lemma_extends_trans(base, body, ops@, m, 2);
            assert(added(base, ops@, m) == added(body, ops@, 0));
            assert(added(base, ops@, m + 1) == added(body, ops@, 1));
            assert(added(base, ops@, 0) == added(base, body, 0));
            assert(added(base, ops@, 2) == added(base, body, 2));
            assert(added(base, ops@, 4) == added(base, body, 4));
            assert forall|j: int| 0 <= j < k implies
                card_row_drawn(base, ops@, (#[trigger] lines@[start + j])@, j) by {
                assert(card_row_drawn(base, body, lines@[start + j]@, j));
                assert(added(base, ops@, 5 + 2 * j) == added(base, body, 5 + 2 * j));
                assert(added(base, ops@, 6 + 2 * j) == added(base, body, 6 + 2 * j));
            }
        }
    }
    proof {
        let views = lines@.map_values(|l: &str| l@);
        assert forall|j: int| 0 <= j < k implies
            card_row_drawn(base, ops@, #[trigger] views[start + j], j) by {
            assert(card_row_drawn(base, ops@, lines@[start + j]@, j));
        }
    }
}

} // verus!
