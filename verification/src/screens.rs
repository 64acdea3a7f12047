//! What the panel shows: the power-up sequence, and the pixel values of the
//! boot and status screens, stated in plain numbers.
use vstd::prelude::*;
use crate::bitmap::AlphaBitmap;
use crate::color::{blend_spec, lemma_rgb565_channels, mix_channel, red_of, green_of, blue_of};
use crate::st7789::{
    Op, StatusLayout, LCD_W, LCD_H, init_ops, window_ops, bitmap_row_colors, bitmap_rows,
    bitmap_ops, clipped, colors_bytes, hi_byte, lo_byte, fill_ops, fill_block, run_bytes,
    boot_screen_ops, status_screen_ops, all_passed,
};

verus! {

/// The 4-bit alpha stored for pixel (`col`, `row`) of `bitmap`: the high
/// nibble of byte `i / 2` for an even pixel index `i`, the low one for an odd.
pub open spec fn stored_alpha(bitmap: &AlphaBitmap, col: int, row: int) -> int {
    let i = row * bitmap.width + col;
    if i % 2 == 0 {
        bitmap.data@[i / 2] as int / 16
    } else {
        bitmap.data@[i / 2] as int % 16
    }
}

/// The big-endian 16-bit value at bytes `2 * c` and `2 * c + 1` of `d`.
pub open spec fn pixel_word(d: Seq<u8>, c: int) -> int {
    d[2 * c] as int * 256 + d[2 * c + 1] as int
}

/// The power-up sequence: reset pulse high, low, high; software reset
/// (0x01); sleep out (0x11); 16-bit colour (0x3A with 0x55); memory access
/// control 0x36 with 0x00, that is default orientation and RGB order (not the
/// BGR bit 0x08); inversion on (0x21); normal mode (0x13); display on (0x29)
/// last.
pub proof fn law_init_sequence()
    ensures
        init_ops().len() == 21,
        init_ops()[0] == Op::Reset(true),
        init_ops()[2] == Op::Reset(false),
        init_ops()[4] == Op::Reset(true),
        init_ops()[6] == Op::Command(0x01),
        init_ops()[8] == Op::Command(0x11),
        init_ops()[10] == Op::Command(0x3A),
        init_ops()[11] == Op::Data(seq![0x55u8]),
        init_ops()[13] == Op::Command(0x36),
        init_ops()[14] == Op::Data(seq![0x00u8]),
        init_ops()[15] == Op::Command(0x21),
        init_ops()[17] == Op::Command(0x13),
        init_ops()[19] == Op::Command(0x29),
        forall|i: int| 19 < i < 21 ==> !(init_ops()[i] is Command),
{
}

proof fn lemma_bitmap_rows_index(
    x: int,
    y: int,
    bitmap: &AlphaBitmap,
    fg: u16,
    bg: u16,
    width: int,
    n: nat,
    r: int,
)
    requires
        0 <= r < n,
    ensures
        bitmap_rows(x, y, bitmap, fg, bg, width, n).len() == 6 * n,
        bitmap_rows(x, y, bitmap, fg, bg, width, n).subrange(6 * r, 6 * r + 5) == window_ops(
            x,
            y + r,
            x + width - 1,
            y + r,
        ),
        bitmap_rows(x, y, bitmap, fg, bg, width, n)[6 * r + 5] == Op::Data(
            colors_bytes(bitmap_row_colors(bitmap, width, r, fg, bg)),
        ),
    decreases n,
{
    let prev = bitmap_rows(x, y, bitmap, fg, bg, width, (n - 1) as nat);
    if r < n - 1 {
        lemma_bitmap_rows_index(x, y, bitmap, fg, bg, width, (n - 1) as nat, r);
        let all = bitmap_rows(x, y, bitmap, fg, bg, width, n);
        assert(all.subrange(6 * r, 6 * r + 5) =~= prev.subrange(6 * r, 6 * r + 5));
    } else {
        if n > 1 {
            lemma_bitmap_rows_index(x, y, bitmap, fg, bg, width, (n - 1) as nat, 0);
        }
        let all = bitmap_rows(x, y, bitmap, fg, bg, width, n);
        assert(all.subrange(6 * r, 6 * r + 5) =~= window_ops(x, y + r, x + width - 1, y + r));
    }
}

proof fn lemma_word(v: int)
    requires
        0 <= v < 0x10000,
    ensures
        hi_byte(v) as int * 256 + lo_byte(v) as int == v,
{
}

/// The pixel bytes of bitmap row `row`, column `col`, drawn `fg` over `bg`.
proof fn lemma_bitmap_pixel(
    x: int,
    y: int,
    bitmap: &AlphaBitmap,
    fg: u16,
    bg: u16,
    row: int,
    col: int,
)
    requires
        0 <= x < LCD_W,
        0 <= y < LCD_H,
        0 <= row < bitmap.height,
        y + row < LCD_H,
        0 <= col < bitmap.width,
        x + col < LCD_W,
        row * bitmap.width + col < 2 * bitmap.data@.len(),
    ensures
        ({
            let ops = bitmap_ops(x, y, bitmap, fg, bg);
            let w = clipped(x, bitmap.width as int, LCD_W as int);
            &&& ops.len() == 6 * clipped(y, bitmap.height as int, LCD_H as int)
            &&& ops.subrange(6 * row, 6 * row + 5) == window_ops(x, y + row, x + w - 1, y + row)
            &&& ops[6 * row + 5] matches Op::Data(d) && d.len() == 2 * w && pixel_word(d, col)
                == blend_spec(bg, fg, stored_alpha(bitmap, col, row) as u8) as int
        }),
        0 <= stored_alpha(bitmap, col, row) < 16,
{
    let w = clipped(x, bitmap.width as int, LCD_W as int);
    let h = clipped(y, bitmap.height as int, LCD_H as int);
    lemma_bitmap_rows_index(x, y, bitmap, fg, bg, w, h as nat, row);
    let colors = bitmap_row_colors(bitmap, w, row, fg, bg);
    let d = colors_bytes(colors);
    assert(d[2 * col] == hi_byte(colors[col] as int));
    assert(d[2 * col + 1] == lo_byte(colors[col] as int));
    lemma_word(colors[col] as int);
    let i = row * bitmap.width + col;
    assert(i / 2 < bitmap.data@.len());
}

/// Coverage `a` of black over white: every channel is the white level scaled
/// by `(15 - a) / 15`.
proof fn lemma_black_over_white(a: int)
    requires
        0 <= a < 16,
    ensures
        blend_spec(0xFFFF, 0x0000, a as u8) as int == 2048 * ((31 * (15 - a)) / 15) + 32 * ((63 * (
            15 - a)) / 15) + (31 * (15 - a)) / 15,
{
    assert(red_of(0xFFFFu16) == 31 && green_of(0xFFFFu16) == 63 && blue_of(0xFFFFu16) == 31);
    assert(red_of(0x0000u16) == 0 && green_of(0x0000u16) == 0 && blue_of(0x0000u16) == 0);
    if 0 < a < 15 {
        assert(mix_channel(0, 31, a) == (31 * (15 - a)) / 15);
        assert(mix_channel(0, 63, a) == (63 * (15 - a)) / 15);
        assert(0 <= (31 * (15 - a)) / 15 < 32);
        assert(0 <= (63 * (15 - a)) / 15 < 64);
        lemma_rgb565_channels((31 * (15 - a)) / 15, (63 * (15 - a)) / 15, (31 * (15 - a)) / 15);
    }
}

/// Coverage `a` of white over blue: red and green rise in proportion
/// `a / 15`, blue stays full.
proof fn lemma_white_over_blue(a: int)
    requires
        0 <= a < 16,
    ensures
        blend_spec(0x001F, 0xFFFF, a as u8) as int == 2048 * ((31 * a) / 15) + 32 * ((63 * a) / 15)
            + 31,
{
    assert(red_of(0xFFFFu16) == 31 && green_of(0xFFFFu16) == 63 && blue_of(0xFFFFu16) == 31);
    assert(red_of(0x001Fu16) == 0 && green_of(0x001Fu16) == 0 && blue_of(0x001Fu16) == 31);
    if 0 < a < 15 {
        assert(mix_channel(31, 0, a) == (31 * a) / 15);
        assert(mix_channel(63, 0, a) == (63 * a) / 15);
        assert(mix_channel(31, 31, a) == 31);
        assert(0 <= (31 * a) / 15 < 32);
        assert(0 <= (63 * a) / 15 < 64);
        lemma_rgb565_channels((31 * a) / 15, (63 * a) / 15, 31);
    }
}

/// The boot screen fills the panel with pure blue (bytes 0x00, 0x1F for each
/// of 240 x 240 pixels) and then draws the title in white over blue: a title
/// pixel of alpha `a` has red and green `a / 15` of full and blue full, so
/// alpha 0 is 0x001F (background blue) and alpha 15 is 0xFFFF (white).
#[verifier::rlimit(40)]
pub proof fn law_boot_screen_pixels(layout: &StatusLayout, row: int, col: int)
    requires
        layout.title_x < LCD_W,
        layout.title_y < LCD_H,
        0 <= row < layout.title.height,
        layout.title_y + row < LCD_H,
        0 <= col < layout.title.width,
        layout.title_x + col < LCD_W,
        row * layout.title.width + col < 2 * layout.title.data@.len(),
    ensures
        ({
            let ops = boot_screen_ops(layout);
            let a = stored_alpha(&layout.title, col, row);
            &&& ops[5] matches Op::RepeatedData(block, times) && times == 900 && block.len() == 128
                && forall|k: int| 0 <= k < 128 ==> block[k] == (if k % 2 == 0 { 0x00u8 } else { 0x1Fu8 })
            &&& ops[6 + 6 * row + 5] matches Op::Data(d) && pixel_word(d, col) == 2048 * ((31 * a) / 15)
                + 32 * ((63 * a) / 15) + 31
            &&& a == 0 ==> (ops[6 + 6 * row + 5] matches Op::Data(d) && pixel_word(d, col) == 0x001F)
            &&& a == 15 ==> (ops[6 + 6 * row + 5] matches Op::Data(d) && pixel_word(d, col) == 0xFFFF)
        }),
{
    let x = layout.title_x as int;
    let y = layout.title_y as int;
    lemma_bitmap_pixel(x, y, &layout.title, 0xFFFF, 0x001F, row, col);
    lemma_white_over_blue(stored_alpha(&layout.title, col, row));
    let title = bitmap_ops(x, y, &layout.title, 0xFFFF, 0x001F);
    let ops = boot_screen_ops(layout);
    assert(ops[6 + 6 * row + 5] == title[6 * row + 5]);
    let block = fill_block(0x001F);
    assert forall|k: int| 0 <= k < 128 implies block[k] == (if k % 2 == 0 {
        0x00u8
    } else {
        0x1Fu8
    }) by {}
}

/// When every check passed, the status screen fills the panel with pure
/// white (bytes 0xFF for each of 240 x 240 pixels) and then draws the title
/// in black over white: a title pixel of alpha `a` has every channel
/// `(15 - a) / 15` of full, so alpha 15 is 0x0000 (black) and alpha 0 is
/// 0xFFFF (background white).
#[verifier::rlimit(40)]
pub proof fn law_status_screen_title_pixels(
    layout: &StatusLayout,
    results: Seq<bool>,
    row: int,
    col: int,
)
    requires
        forall|i: int| 0 <= i < results.len() ==> #[trigger] results[i],
        layout.title_x < LCD_W,
        layout.title_y < LCD_H,
        0 <= row < layout.title.height,
        layout.title_y + row < LCD_H,
        0 <= col < layout.title.width,
        layout.title_x + col < LCD_W,
        row * layout.title.width + col < 2 * layout.title.data@.len(),
    ensures
        ({
            let ops = status_screen_ops(layout, results);
            let a = stored_alpha(&layout.title, col, row);
            &&& ops[5] matches Op::RepeatedData(block, times) && times == 900 && block.len() == 128
                && forall|k: int| 0 <= k < 128 ==> block[k] == 0xFFu8
            &&& ops[6 + 6 * row + 5] matches Op::Data(d) && pixel_word(d, col) == 2048 * ((31 * (15
                - a)) / 15) + 32 * ((63 * (15 - a)) / 15) + (31 * (15 - a)) / 15
            &&& a == 15 ==> (ops[6 + 6 * row + 5] matches Op::Data(d) && pixel_word(d, col) == 0x0000)
            &&& a == 0 ==> (ops[6 + 6 * row + 5] matches Op::Data(d) && pixel_word(d, col) == 0xFFFF)
        }),
{
    assert(all_passed(results));
    let x = layout.title_x as int;
    let y = layout.title_y as int;
    lemma_bitmap_pixel(x, y, &layout.title, 0x0000, 0xFFFF, row, col);
    lemma_black_over_white(stored_alpha(&layout.title, col, row));
    let title = bitmap_ops(x, y, &layout.title, 0x0000, 0xFFFF);
    let ops = status_screen_ops(layout, results);
    assert(ops[6 + 6 * row + 5] == title[6 * row + 5]);
    let block = fill_block(0xFFFF);
    assert forall|k: int| 0 <= k < 128 implies block[k] == 0xFFu8 by {}
}

} // verus!
