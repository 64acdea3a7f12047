//! Every drawing operation stays on the panel: it is a run of blocks, each
//! opening a window inside the 240 x 240 pixel area and then sending exactly
//! the pixel bytes that fill that window.
use vstd::prelude::*;
use crate::bitmap::AlphaBitmap;
use crate::st7789::{
    Op, ST7789_CASET, ST7789_RASET, ST7789_RAMWR, LCD_W, LCD_H, STATUS_DOT_RADIUS, StatusItem,
    StatusLayout, be_bytes, hi_byte, lo_byte, colors_bytes, run_bytes, fill_block, window_ops,
    fill_ops, hline_ops, circle_rows, circle_ops, circle_half_width, clipped, bitmap_row_colors,
    bitmap_rows, bitmap_ops, status_items_ops, status_screen_ops, boot_screen_ops,
    status_line_count, all_passed,
};

verus! {

/// Number of bytes a data operation carries; -1 for any other operation.
pub open spec fn payload_len(op: Op) -> int {
    match op {
        Op::Data(d) => d.len() as int,
        Op::RepeatedData(d, n) => d.len() * n,
        _ => -1,
    }
}

/// The big-endian 16-bit word at byte `i` of `d`.
pub open spec fn word_at(d: Seq<u8>, i: int) -> int {
    d[i] as int * 256 + d[i + 1] as int
}

/// `block` opens a window lying on the panel and then sends exactly the
/// two bytes per pixel that fill it.
pub open spec fn paints_on_panel(block: Seq<Op>) -> bool {
    &&& block.len() == 6
    &&& block[0] == Op::Command(ST7789_CASET)
    &&& block[2] == Op::Command(ST7789_RASET)
    &&& block[4] == Op::Command(ST7789_RAMWR)
    &&& block[1] matches Op::Data(cols)
    &&& block[3] matches Op::Data(rows)
    &&& cols.len() == 4
    &&& rows.len() == 4
    &&& 0 <= word_at(cols, 0) <= word_at(cols, 2) < LCD_W
    &&& 0 <= word_at(rows, 0) <= word_at(rows, 2) < LCD_H
    &&& payload_len(block[5]) == 2 * ((word_at(cols, 2) - word_at(cols, 0) + 1) * (word_at(
        rows,
        2,
    ) - word_at(rows, 0) + 1))
}

/// `ops` is a run of blocks each of which paints on the panel.
pub open spec fn draws_on_panel(ops: Seq<Op>) -> bool
    decreases ops.len(),
{
    if ops.len() == 0 {
        true
    } else if ops.len() < 6 {
        false
    } else {
        paints_on_panel(ops.take(6)) && draws_on_panel(ops.skip(6))
    }
}

proof fn lemma_draws_concat(a: Seq<Op>, b: Seq<Op>)
    requires
        draws_on_panel(a),
        draws_on_panel(b),
    ensures
        draws_on_panel(a + b),
    decreases a.len(),
{
    if a.len() == 0 {
        assert(a + b =~= b);
    } else {
        lemma_draws_concat(a.skip(6), b);
        assert((a + b).take(6) =~= a.take(6));
        assert((a + b).skip(6) =~= a.skip(6) + b);
    }
}

proof fn lemma_word_of_be(a: int, b: int)
    requires
        0 <= a < 0x10000,
        0 <= b < 0x10000,
    ensures
        word_at(be_bytes(a) + be_bytes(b), 0) == a,
        word_at(be_bytes(a) + be_bytes(b), 2) == b,
        (be_bytes(a) + be_bytes(b)).len() == 4,
{
    let d = be_bytes(a) + be_bytes(b);
    assert(d[0] == hi_byte(a) && d[1] == lo_byte(a) && d[2] == hi_byte(b) && d[3] == lo_byte(b));
    assert(hi_byte(a) as int == a / 256);
    assert(lo_byte(a) as int == a % 256);
    assert(hi_byte(b) as int == b / 256);
    assert(lo_byte(b) as int == b % 256);
}

proof fn lemma_window_block(x0: int, y0: int, x1: int, y1: int, last: Op)
    requires
        0 <= x0 <= x1 < LCD_W,
        0 <= y0 <= y1 < LCD_H,
        payload_len(last) == 2 * ((x1 - x0 + 1) * (y1 - y0 + 1)),
    ensures
        draws_on_panel(window_ops(x0, y0, x1, y1) + seq![last]),
{
    let block = window_ops(x0, y0, x1, y1) + seq![last];
    lemma_word_of_be(x0, x1);
    lemma_word_of_be(y0, y1);
    assert(block.take(6) =~= block);
    assert(block.skip(6) =~= Seq::<Op>::empty());
    assert(draws_on_panel(block.skip(6)));
    assert(paints_on_panel(block.take(6)));
}

/// A full-screen fill paints exactly the whole panel.
pub proof fn law_fill_on_panel(color: u16)
    ensures
        draws_on_panel(fill_ops(color)),
{
    assert(fill_block(color).len() == 128);
    assert(payload_len(Op::RepeatedData(fill_block(color), 900)) == 2 * (240 * 240)) by (
    nonlinear_arith)
        requires
            fill_block(color).len() == 128,
    ;
    lemma_window_block(0, 0, LCD_W - 1, LCD_H - 1, Op::RepeatedData(fill_block(color), 900));
}

/// A horizontal line, whatever its position and length, paints on the panel
/// only.
pub proof fn law_hline_on_panel(x: int, y: int, len: int, color: u16)
    ensures
        draws_on_panel(hline_ops(x, y, len, color)),
{
    if len <= 0 || y < 0 || y >= LCD_H {
    } else {
        let x0 = if x < 0 { 0 } else { x };
        let x1 = if x + len - 1 < LCD_W - 1 { x + len - 1 } else { LCD_W - 1 };
        if x0 <= x1 {
            let n = (x1 - x0 + 1) as nat;
            assert(run_bytes(color, n).len() == 2 * n);
            assert((x1 - x0 + 1) * (y - y + 1) == x1 - x0 + 1) by (nonlinear_arith);
            lemma_window_block(x0, y, x1, y, Op::Data(run_bytes(color, n)));
        }
    }
}

proof fn lemma_circle_rows_on_panel(cx: int, cy: int, r: int, color: u16, n: nat)
    ensures
        draws_on_panel(circle_rows(cx, cy, r, color, n)),
    decreases n,
{
    if n > 0 {
        let dy = n - 1 - r;
        let dx = circle_half_width(r, dy);
        lemma_circle_rows_on_panel(cx, cy, r, color, (n - 1) as nat);
        law_hline_on_panel(cx - dx, cy + dy, 2 * dx + 1, color);
        lemma_draws_concat(
            circle_rows(cx, cy, r, color, (n - 1) as nat),
            hline_ops(cx - dx, cy + dy, 2 * dx + 1, color),
        );
    }
}

/// A filled circle paints on the panel only, wherever it is centred.
pub proof fn law_circle_on_panel(cx: int, cy: int, r: int, color: u16)
    ensures
        draws_on_panel(circle_ops(cx, cy, r, color)),
{
    lemma_circle_rows_on_panel(cx, cy, r, color, (2 * r + 1) as nat);
}

proof fn lemma_bitmap_rows_on_panel(
    x: int,
    y: int,
    bitmap: &AlphaBitmap,
    fg: u16,
    bg: u16,
    width: int,
    n: nat,
)
    requires
        0 <= x,
        1 <= width,
        x + width <= LCD_W,
        0 <= y,
        y + n <= LCD_H,
    ensures
        draws_on_panel(bitmap_rows(x, y, bitmap, fg, bg, width, n)),
    decreases n,
{
    if n > 0 {
        let row = n - 1;
        lemma_bitmap_rows_on_panel(x, y, bitmap, fg, bg, width, row as nat);
        let data = colors_bytes(bitmap_row_colors(bitmap, width, row, fg, bg));
        assert(data.len() == 2 * width);
        assert((x + width - 1 - x + 1) * (y + row - (y + row) + 1) == width) by (nonlinear_arith);
        lemma_window_block(x, y + row, x + width - 1, y + row, Op::Data(data));
        lemma_draws_concat(
            bitmap_rows(x, y, bitmap, fg, bg, width, row as nat),
            window_ops(x, y + row, x + width - 1, y + row) + seq![Op::Data(data)],
        );
        assert(bitmap_rows(x, y, bitmap, fg, bg, width, n) =~= bitmap_rows(
            x,
            y,
            bitmap,
            fg,
            bg,
            width,
            row as nat,
        ) + (window_ops(x, y + row, x + width - 1, y + row) + seq![Op::Data(data)]));
    }
}

/// A bitmap of nonzero width paints on the panel only, wherever its corner
/// is: what would fall off the right or bottom edge is not sent.
pub proof fn law_bitmap_on_panel(x: u16, y: u16, bitmap: &AlphaBitmap, fg: u16, bg: u16)
    requires
        bitmap.width > 0,
    ensures
        draws_on_panel(bitmap_ops(x as int, y as int, bitmap, fg, bg)),
{
    if x < LCD_W && y < LCD_H {
        let w = clipped(x as int, bitmap.width as int, LCD_W as int);
        let h = clipped(y as int, bitmap.height as int, LCD_H as int);
        lemma_bitmap_rows_on_panel(x as int, y as int, bitmap, fg, bg, w, h as nat);
    }
}

proof fn lemma_status_items_on_panel(items: Seq<StatusItem>, n: nat)
    requires
        n <= items.len(),
        forall|i: int| 0 <= i < n ==> (#[trigger] items[i]).label.width > 0,
    ensures
        draws_on_panel(status_items_ops(items, n)),
    decreases n,
{
    if n > 0 {
        let i = n - 1;
        lemma_status_items_on_panel(items, i as nat);
        let dot = circle_ops(
            items[i].circle_x as int,
            items[i].circle_y as int,
            STATUS_DOT_RADIUS as int,
            crate::color::GREEN,
        );
        let label = bitmap_ops(
            items[i].text_x as int,
            items[i].text_y as int,
            &items[i].label,
            crate::color::BLACK,
            crate::color::WHITE,
        );
        law_circle_on_panel(
            items[i].circle_x as int,
            items[i].circle_y as int,
            STATUS_DOT_RADIUS as int,
            crate::color::GREEN,
        );
        law_bitmap_on_panel(
            items[i].text_x,
            items[i].text_y,
            &items[i].label,
            crate::color::BLACK,
            crate::color::WHITE,
        );
        lemma_draws_concat(status_items_ops(items, i as nat), dot);
        lemma_draws_concat(status_items_ops(items, i as nat) + dot, label);
    }
}

/// The boot screen paints on the panel only when its title has nonzero
/// width.
pub proof fn law_boot_screen_on_panel(layout: &StatusLayout)
    requires
        layout.title.width > 0,
    ensures
        draws_on_panel(boot_screen_ops(layout)),
{
    law_fill_on_panel(crate::color::BLUE);
    law_bitmap_on_panel(
        layout.title_x,
        layout.title_y,
        &layout.title,
        crate::color::WHITE,
        crate::color::BLUE,
    );
    lemma_draws_concat(
        fill_ops(crate::color::BLUE),
        bitmap_ops(
            layout.title_x as int,
            layout.title_y as int,
            &layout.title,
            crate::color::WHITE,
            crate::color::BLUE,
        ),
    );
}

/// The status screen always paints on the panel only: the red failure
/// screen is one full fill, and the success screen does so when its title and
/// the labels it draws have nonzero width.
pub proof fn law_status_screen_on_panel(layout: &StatusLayout, results: Seq<bool>)
    requires
        all_passed(results) ==> layout.title.width > 0,
        all_passed(results) ==> forall|i: int|
            0 <= i < status_line_count(layout, results) ==> (#[trigger] layout.items@[i]).label.width
                > 0,
    ensures
        draws_on_panel(status_screen_ops(layout, results)),
{
    if !all_passed(results) {
        law_fill_on_panel(crate::color::RED);
    } else {
        let head = fill_ops(crate::color::WHITE);
        let title = bitmap_ops(
            layout.title_x as int,
            layout.title_y as int,
            &layout.title,
            crate::color::BLACK,
            crate::color::WHITE,
        );
        law_fill_on_panel(crate::color::WHITE);
        law_bitmap_on_panel(
            layout.title_x,
            layout.title_y,
            &layout.title,
            crate::color::BLACK,
            crate::color::WHITE,
        );
        lemma_status_items_on_panel(layout.items@, status_line_count(layout, results));
        lemma_draws_concat(head, title);
        lemma_draws_concat(head + title, status_items_ops(layout.items@, status_line_count(layout, results)));
    }
}

} // verus!
