//! RGB565 colours and anti-aliased blending.
use vstd::prelude::*;

verus! {

pub const BLACK: u16 = 0x0000;
pub const WHITE: u16 = 0xFFFF;
pub const RED: u16 = 0xF800;
pub const GREEN: u16 = 0x07E0;
pub const BLUE: u16 = 0x001F;

/// The highest 4-bit coverage value: full foreground.
pub const ALPHA_OPAQUE: u8 = 15;

/// Red channel (5 bits) of an RGB565 colour.
pub open spec fn red_of(c: u16) -> int {
    c as int / 2048
}

/// Green channel (6 bits) of an RGB565 colour.
pub open spec fn green_of(c: u16) -> int {
    (c as int / 32) % 64
}

/// Blue channel (5 bits) of an RGB565 colour.
pub open spec fn blue_of(c: u16) -> int {
    c as int % 32
}

/// The RGB565 word with the given channels.
pub open spec fn rgb565(r: int, g: int, b: int) -> int {
    r * 2048 + g * 32 + b
}

/// Weighted mean of one channel: `alpha` fifteenths of the foreground,
/// the rest background, rounded down.
pub open spec fn mix_channel(fg: int, bg: int, alpha: int) -> int {
    (fg * alpha + bg * (15 - alpha)) / 15
}

/// The colour drawn for a pixel of coverage `alpha` (0..=15) over `bg`.
pub open spec fn blend_spec(bg: u16, fg: u16, alpha: u8) -> u16 {
    if alpha == 0 {
        bg
    } else if alpha >= 15 {
        fg
    } else {
        rgb565(
            mix_channel(red_of(fg), red_of(bg), alpha as int),
            mix_channel(green_of(fg), green_of(bg), alpha as int),
            mix_channel(blue_of(fg), blue_of(bg), alpha as int),
        ) as u16
    }
}

proof fn lemma_unpack(c: u16)
    ensures
        (c >> 11u16) & 0x1Fu16 == c / 2048,
        (c >> 5u16) & 0x3Fu16 == (c / 32) % 64,
        c & 0x1Fu16 == c % 32,
        c / 2048 < 32,
{
    assert((c >> 11u16) & 0x1Fu16 == c / 2048) by (bit_vector);
    assert((c >> 5u16) & 0x3Fu16 == (c / 32) % 64) by (bit_vector);
    assert(c & 0x1Fu16 == c % 32) by (bit_vector);
}

proof fn lemma_pack(r: u16, g: u16, b: u16)
    requires
        r < 32,
        g < 64,
        b < 32,
    ensures
        (r << 11u16) | (g << 5u16) | b == r * 2048 + g * 32 + b,
{
    assert((r << 11u16) | (g << 5u16) | b == r * 2048 + g * 32 + b) by (bit_vector)
        requires
            r < 32,
            g < 64,
            b < 32,
    ;
}

/// Every RGB565 word is the packing of its own three channels.
pub proof fn law_rgb565_repack(c: u16)
    ensures
        0 <= red_of(c) < 32,
        0 <= green_of(c) < 64,
        0 <= blue_of(c) < 32,
        rgb565(red_of(c), green_of(c), blue_of(c)) == c,
{
    assert(c as int == (c as int / 2048) * 2048 + ((c as int / 32) % 64) * 32 + c as int % 32)
        by (nonlinear_arith);
}

proof fn lemma_mix_between(fg: int, bg: int, alpha: int)
    requires
        0 <= fg,
        0 <= bg,
        0 <= alpha <= 15,
    ensures
        fg <= bg ==> fg <= mix_channel(fg, bg, alpha) <= bg,
        bg <= fg ==> bg <= mix_channel(fg, bg, alpha) <= fg,
        fg * alpha + bg * (15 - alpha) <= 15 * (if fg <= bg { bg } else { fg }),
{
    assert(fg <= bg ==> fg * 15 <= fg * alpha + bg * (15 - alpha) <= bg * 15) by (nonlinear_arith)
        requires
            0 <= alpha <= 15,
    ;
    assert(bg <= fg ==> bg * 15 <= fg * alpha + bg * (15 - alpha) <= fg * 15) by (nonlinear_arith)
        requires
            0 <= alpha <= 15,
    ;
    let n = fg * alpha + bg * (15 - alpha);
    assert(fg <= bg ==> fg <= n / 15 <= bg) by (nonlinear_arith)
        requires
            fg <= bg ==> fg * 15 <= n <= bg * 15,
    ;
    assert(bg <= fg ==> bg <= n / 15 <= fg) by (nonlinear_arith)
        requires
            bg <= fg ==> bg * 15 <= n <= fg * 15,
    ;
}


pub(crate) proof fn lemma_rgb565_channels(r: int, g: int, b: int)
    requires
        0 <= r < 32,
        0 <= g < 64,
        0 <= b < 32,
    ensures
        0 <= rgb565(r, g, b) < 0x10000,
        red_of(rgb565(r, g, b) as u16) == r,
        green_of(rgb565(r, g, b) as u16) == g,
        blue_of(rgb565(r, g, b) as u16) == b,
{
    let v = r * 2048 + g * 32 + b;
    assert(0 <= v < 0x10000) by (nonlinear_arith)
        requires
            v == r * 2048 + g * 32 + b,
            0 <= r < 32,
            0 <= g < 64,
            0 <= b < 32,
    ;
    assert(v / 2048 == r && (v / 32) % 64 == g && v % 32 == b) by (nonlinear_arith)
        requires
            v == r * 2048 + g * 32 + b,
            0 <= r < 32,
            0 <= g < 64,
            0 <= b < 32,
    ;
}

/// Coverage 0 keeps the background and full coverage (15 or more) gives the
/// foreground, whatever the two colours are.
pub proof fn law_blend_endpoints(bg: u16, fg: u16, alpha: u8)
    ensures
        alpha == 0 ==> blend_spec(bg, fg, alpha) == bg,
        alpha >= ALPHA_OPAQUE ==> blend_spec(bg, fg, alpha) == fg,
{
}

/// Blending a colour over itself gives that colour back, at every coverage.
pub proof fn law_blend_same_color(c: u16, alpha: u8)
    ensures
        blend_spec(c, c, alpha) == c,
{
    law_rgb565_repack(c);
    if 0 < alpha < 15 {
        let a = alpha as int;
        assert forall|x: int| 0 <= x implies #[trigger] mix_channel(x, x, a) == x by {
            assert(x * a + x * (15 - a) == x * 15) by (nonlinear_arith);
        }
        assert(mix_channel(red_of(c), red_of(c), a) == red_of(c));
        assert(mix_channel(green_of(c), green_of(c), a) == green_of(c));
        assert(mix_channel(blue_of(c), blue_of(c), a) == blue_of(c));
    }
}

/// At partial coverage each channel of the blended colour is the weighted
/// mean of the two input channels, and so lies between them.
pub proof fn law_blend_channels(bg: u16, fg: u16, alpha: u8)
    requires
        0 < alpha < ALPHA_OPAQUE,
    ensures
        red_of(blend_spec(bg, fg, alpha)) == mix_channel(red_of(fg), red_of(bg), alpha as int),
        green_of(blend_spec(bg, fg, alpha)) == mix_channel(green_of(fg), green_of(bg), alpha as int),
        blue_of(blend_spec(bg, fg, alpha)) == mix_channel(blue_of(fg), blue_of(bg), alpha as int),
        red_of(fg) <= red_of(blend_spec(bg, fg, alpha)) <= red_of(bg)
            || red_of(bg) <= red_of(blend_spec(bg, fg, alpha)) <= red_of(fg),
        green_of(fg) <= green_of(blend_spec(bg, fg, alpha)) <= green_of(bg)
            || green_of(bg) <= green_of(blend_spec(bg, fg, alpha)) <= green_of(fg),
        blue_of(fg) <= blue_of(blend_spec(bg, fg, alpha)) <= blue_of(bg)
            || blue_of(bg) <= blue_of(blend_spec(bg, fg, alpha)) <= blue_of(fg),
{
    let a = alpha as int;
    law_rgb565_repack(bg);
    law_rgb565_repack(fg);
    lemma_mix_between(red_of(fg), red_of(bg), a);
    lemma_mix_between(green_of(fg), green_of(bg), a);
    lemma_mix_between(blue_of(fg), blue_of(bg), a);
    lemma_rgb565_channels(
        mix_channel(red_of(fg), red_of(bg), a),
        mix_channel(green_of(fg), green_of(bg), a),
        mix_channel(blue_of(fg), blue_of(bg), a),
    );
}

/// Blend foreground `fg` over background `bg` with 4-bit coverage `alpha`:
/// 0 keeps the background, 15 or more gives the foreground, anything between
/// mixes each channel in proportion `alpha / 15`, rounded down.
pub fn blend_rgb565(bg: u16, fg: u16, alpha: u8) -> (color: u16)
    ensures
        color == blend_spec(bg, fg, alpha),
{
    if alpha == 0 {
        return bg;
    }
    if alpha >= 15 {
        return fg;
    }
    let alpha = alpha as u16;
    let inv = 15 - alpha;

    let bg_r = (bg >> 11) & 0x1F;
    let bg_g = (bg >> 5) & 0x3F;
    let bg_b = bg & 0x1F;
    let fg_r = (fg >> 11) & 0x1F;
    let fg_g = (fg >> 5) & 0x3F;
    let fg_b = fg & 0x1F;
    proof {
        lemma_unpack(bg);
        lemma_unpack(fg);
        lemma_mix_between(fg_r as int, bg_r as int, alpha as int);
        lemma_mix_between(fg_g as int, bg_g as int, alpha as int);
        lemma_mix_between(fg_b as int, bg_b as int, alpha as int);
        assert(fg_r * alpha <= 31 * 15) by (nonlinear_arith)
            requires
                fg_r <= 31,
                alpha <= 15,
        ;
        assert(fg_g * alpha <= 63 * 15) by (nonlinear_arith)
            requires
                fg_g <= 63,
                alpha <= 15,
        ;
        assert(fg_b * alpha <= 31 * 15) by (nonlinear_arith)
            requires
                fg_b <= 31,
                alpha <= 15,
        ;
        assert(bg_r * inv <= 31 * 15) by (nonlinear_arith)
            requires
                bg_r <= 31,
                inv <= 15,
        ;
        assert(bg_g * inv <= 63 * 15) by (nonlinear_arith)
            requires
                bg_g <= 63,
                inv <= 15,
        ;
        assert(bg_b * inv <= 31 * 15) by (nonlinear_arith)
            requires
                bg_b <= 31,
                inv <= 15,
        ;
    }

    let r = (fg_r * alpha + bg_r * inv) / 15;
    let g = (fg_g * alpha + bg_g * inv) / 15;
    let b = (fg_b * alpha + bg_b * inv) / 15;
    proof {
        lemma_pack(r, g, b);
    }
    (r << 11) | (g << 5) | b
}

} // verus!
