use esp32_lcd_test::bitmap::{bitmap_alpha, AlphaBitmap};
use esp32_lcd_test::color::{blend_rgb565, BLACK, BLUE, GREEN, RED, WHITE};
use esp32_lcd_test::st7789::{
    can_draw_bitmap, layout_fits, spi_chunks,
    LcdOp, St7789, StatusItem, StatusLayout, LCD_H, LCD_W, ST7789_CASET, ST7789_COLMOD,
    ST7789_DISPON, ST7789_RAMWR, ST7789_RASET, ST7789_SWRESET,
};

fn window(x0: u16, y0: u16, x1: u16, y1: u16) -> Vec<LcdOp> {
    vec![
        LcdOp::Command(ST7789_CASET),
        LcdOp::Data(vec![(x0 >> 8) as u8, x0 as u8, (x1 >> 8) as u8, x1 as u8]),
        LcdOp::Command(ST7789_RASET),
        LcdOp::Data(vec![(y0 >> 8) as u8, y0 as u8, (y1 >> 8) as u8, y1 as u8]),
        LcdOp::Command(ST7789_RAMWR),
    ]
}

fn run(color: u16, n: usize) -> Vec<u8> {
    let mut v = Vec::new();
    for _ in 0..n {
        v.push((color >> 8) as u8);
        v.push(color as u8);
    }
    v
}

/// Splits a stream into (window, pixel bytes) blocks.
fn blocks(ops: &[LcdOp]) -> Vec<((u16, u16, u16, u16), usize)> {
    assert_eq!(ops.len() % 6, 0);
    ops.chunks(6)
        .map(|b| {
            let word = |d: &[u8], i: usize| (d[i] as u16) << 8 | d[i + 1] as u16;
            let (cols, rows) = match (&b[1], &b[3]) {
                (LcdOp::Data(c), LcdOp::Data(r)) => (c.clone(), r.clone()),
                _ => panic!("not a window"),
            };
            let bytes = match &b[5] {
                LcdOp::Data(d) => d.len(),
                LcdOp::RepeatedData(d, n) => d.len() * *n as usize,
                _ => panic!("no pixels"),
            };
            ((word(&cols, 0), word(&rows, 0), word(&cols, 2), word(&rows, 2)), bytes)
        })
        .collect()
}

#[test]
fn blend_keeps_background_at_zero_alpha() {
    assert_eq!(blend_rgb565(WHITE, BLACK, 0), WHITE);
    assert_eq!(blend_rgb565(0x1234, 0xABCD, 0), 0x1234);
}

#[test]
fn blend_gives_foreground_at_full_alpha() {
    assert_eq!(blend_rgb565(WHITE, BLACK, 15), BLACK);
    assert_eq!(blend_rgb565(WHITE, RED, 200), RED);
}

#[test]
fn blend_mixes_channels() {
    assert_eq!(blend_rgb565(0xFFFF, 0x0000, 7), 0x8430);
    assert_eq!(blend_rgb565(0x001F, 0xFFFF, 8), 0x843F);
    assert_eq!(blend_rgb565(0xF800, 0x07E0, 5), 0xA2A0);
    assert_eq!(blend_rgb565(0x1234, 0xABCD, 10), 0x732F);
}

#[test]
fn blend_of_a_colour_over_itself_is_that_colour() {
    for c in [0u16, 0x1234, 0xFFFF, 0x8410, GREEN, BLUE] {
        for a in 0u8..=20 {
            assert_eq!(blend_rgb565(c, c, a), c);
        }
    }
}

#[test]
fn bitmap_alpha_reads_high_nibble_first() {
    let b = AlphaBitmap { width: 3, height: 2, data: vec![0xAB, 0xCD, 0xEF] };
    assert_eq!(bitmap_alpha(&b, 0, 0), 0xA);
    assert_eq!(bitmap_alpha(&b, 1, 0), 0xB);
    assert_eq!(bitmap_alpha(&b, 2, 0), 0xC);
    assert_eq!(bitmap_alpha(&b, 0, 1), 0xD);
    assert_eq!(bitmap_alpha(&b, 1, 1), 0xE);
    assert_eq!(bitmap_alpha(&b, 2, 1), 0xF);
}

#[test]
fn init_sequence() {
    let mut lcd = St7789::new();
    lcd.init();
    let ops = lcd.take_ops();
    assert_eq!(ops.len(), 21);
    assert_eq!(ops[0], LcdOp::Reset(true));
    assert_eq!(ops[2], LcdOp::Reset(false));
    assert_eq!(ops[5], LcdOp::DelayMs(120));
    assert_eq!(ops[6], LcdOp::Command(ST7789_SWRESET));
    assert_eq!(ops[10], LcdOp::Command(ST7789_COLMOD));
    assert_eq!(ops[11], LcdOp::Data(vec![0x55]));
    assert_eq!(ops[19], LcdOp::Command(ST7789_DISPON));
    assert_eq!(ops[20], LcdOp::DelayMs(10));
    assert!(lcd.take_ops().is_empty());
}

#[test]
fn set_window_sends_big_endian_addresses() {
    let mut lcd = St7789::new();
    lcd.set_window(0x0102, 3, 0xA0B0, 239);
    assert_eq!(lcd.take_ops(), window(0x0102, 3, 0xA0B0, 239));
}

#[test]
fn fill_screen_covers_the_whole_panel() {
    let mut lcd = St7789::new();
    lcd.fill_screen(RED);
    let ops = lcd.take_ops();
    let mut expected = window(0, 0, LCD_W - 1, LCD_H - 1);
    expected.push(LcdOp::RepeatedData(run(RED, 64), 900));
    assert_eq!(ops, expected);
    assert_eq!(blocks(&ops), vec![((0, 0, 239, 239), 2 * 240 * 240)]);
}

#[test]
fn hline_is_clipped_to_the_panel() {
    let mut lcd = St7789::new();
    lcd.draw_solid_hline(-5, 10, 10, GREEN);
    let mut expected = window(0, 10, 4, 10);
    expected.push(LcdOp::Data(run(GREEN, 5)));
    assert_eq!(lcd.take_ops(), expected);

    lcd.draw_solid_hline(230, 239, 100, BLUE);
    let mut expected = window(230, 239, 239, 239);
    expected.push(LcdOp::Data(run(BLUE, 10)));
    assert_eq!(lcd.take_ops(), expected);
}

#[test]
fn hline_off_the_panel_draws_nothing() {
    let mut lcd = St7789::new();
    lcd.draw_solid_hline(0, -1, 10, GREEN);
    lcd.draw_solid_hline(0, 240, 10, GREEN);
    lcd.draw_solid_hline(0, 5, 0, GREEN);
    lcd.draw_solid_hline(-20, 5, 10, GREEN);
    lcd.draw_solid_hline(240, 5, 10, GREEN);
    assert!(lcd.take_ops().is_empty());
}

#[test]
fn circle_rows_cover_exactly_the_disc() {
    let (cx, cy, r) = (100i32, 120i32, 12i32);
    let mut lcd = St7789::new();
    lcd.draw_filled_circle(cx as u16, cy as u16, r as u16, GREEN);
    let ops = lcd.take_ops();
    let rows = blocks(&ops);
    assert_eq!(rows.len(), 25);
    for (i, ((x0, y0, x1, y1), bytes)) in rows.into_iter().enumerate() {
        let dy = i as i32 - r;
        assert_eq!(y0 as i32, cy + dy);
        assert_eq!(y1, y0);
        assert_eq!(bytes, 2 * (x1 - x0 + 1) as usize);
        for x in cx - r - 2..=cx + r + 2 {
            let inside = (x - cx) * (x - cx) + dy * dy <= r * r;
            let drawn = x0 as i32 <= x && x <= x1 as i32;
            assert_eq!(inside, drawn, "x={x} dy={dy}");
        }
    }
}

#[test]
fn circle_of_radius_zero_is_one_pixel() {
    let mut lcd = St7789::new();
    lcd.draw_filled_circle(7, 9, 0, RED);
    let mut expected = window(7, 9, 7, 9);
    expected.push(LcdOp::Data(run(RED, 1)));
    assert_eq!(lcd.take_ops(), expected);
}

#[test]
fn circle_at_the_corner_is_clipped() {
    let mut lcd = St7789::new();
    lcd.draw_filled_circle(0, 0, 3, RED);
    let rows = blocks(&lcd.take_ops());
    assert_eq!(rows.len(), 4);
    assert_eq!(rows[0], ((0, 0, 3, 0), 8));
    assert_eq!(rows[3], ((0, 3, 0, 3), 2));
}

#[test]
fn bitmap_is_blended_and_clipped() {
    // 4 x 2 bitmap, alphas 0,15,7,15 / 15,0,0,15
    let bitmap = AlphaBitmap { width: 4, height: 2, data: vec![0x0F, 0x7F, 0xF0, 0x0F] };
    let mut lcd = St7789::new();
    lcd.draw_alpha_bitmap(10, 20, &bitmap, BLACK, WHITE);
    let ops = lcd.take_ops();
    let mut expected = window(10, 20, 13, 20);
    let mid = blend_rgb565(WHITE, BLACK, 7);
    expected.push(LcdOp::Data(vec![0xFF, 0xFF, 0, 0, (mid >> 8) as u8, mid as u8, 0, 0]));
    expected.extend(window(10, 21, 13, 21));
    expected.push(LcdOp::Data(vec![0, 0, 0xFF, 0xFF, 0xFF, 0xFF, 0, 0]));
    assert_eq!(ops, expected);

    lcd.draw_alpha_bitmap(238, 239, &bitmap, BLACK, WHITE);
    let mut expected = window(238, 239, 239, 239);
    expected.push(LcdOp::Data(vec![0xFF, 0xFF, 0, 0]));
    assert_eq!(lcd.take_ops(), expected);
}

#[test]
fn bitmap_off_the_panel_draws_nothing() {
    let bitmap = AlphaBitmap { width: 2, height: 2, data: vec![0xFF, 0xFF] };
    let mut lcd = St7789::new();
    lcd.draw_alpha_bitmap(240, 0, &bitmap, BLACK, WHITE);
    lcd.draw_alpha_bitmap(0, 240, &bitmap, BLACK, WHITE);
    assert!(lcd.take_ops().is_empty());
}

fn layout(items: usize) -> StatusLayout {
    let label = AlphaBitmap { width: 2, height: 1, data: vec![0xF0] };
    StatusLayout {
        title_x: 50,
        title_y: 10,
        title: AlphaBitmap { width: 4, height: 1, data: vec![0xFF, 0xFF] },
        items: (0..items)
            .map(|i| StatusItem {
                circle_x: 200,
                circle_y: 60 + 40 * i as u16,
                text_x: 20,
                text_y: 50 + 40 * i as u16,
                label: label.clone(),
            })
            .collect(),
    }
}

#[test]
fn boot_screen_is_blue_with_a_white_title() {
    let mut lcd = St7789::new();
    lcd.draw_boot_screen(&layout(3));
    let ops = lcd.take_ops();
    assert_eq!(ops[5], LcdOp::RepeatedData(run(BLUE, 64), 900));
    assert_eq!(&ops[6..11], &window(50, 10, 53, 10)[..]);
    assert_eq!(ops[11], LcdOp::Data(run(WHITE, 4)));
    assert_eq!(ops.len(), 12);
}

#[test]
fn status_screen_when_every_check_passed() {
    let mut lcd = St7789::new();
    lcd.draw_status_screen(&layout(3), [true; 4]);
    let ops = lcd.take_ops();
    assert_eq!(ops[5], LcdOp::RepeatedData(run(WHITE, 64), 900));
    // title: 6 ops; then per line a 25-row dot (150 ops) and a 1-row label (6 ops)
    assert_eq!(ops.len(), 6 + 6 + 3 * (150 + 6));
    for line in 0..3 {
        let start = 12 + line * 156;
        match &ops[start + 5] {
            LcdOp::Data(d) => assert_eq!(&d[..2], &[(GREEN >> 8) as u8, GREEN as u8]),
            other => panic!("unexpected {other:?}"),
        }
        let centre_row = &blocks(&ops[start..start + 150])[12];
        assert_eq!(centre_row.0, (188, 60 + 40 * line as u16, 212, 60 + 40 * line as u16));
    }
    assert!(blocks(&ops).iter().all(|((x0, y0, x1, y1), _)| x0 <= x1 && *x1 < 240 && y0 <= y1 && *y1 < 240));
}

#[test]
fn status_screen_is_pure_red_after_any_failure() {
    let mut red = window(0, 0, 239, 239);
    red.push(LcdOp::RepeatedData(run(RED, 64), 900));
    for failed in 0..4 {
        let mut results = [true; 4];
        results[failed] = false;
        let mut lcd = St7789::new();
        lcd.draw_status_screen(&layout(3), results);
        assert_eq!(lcd.take_ops(), red);
    }
    let mut lcd = St7789::new();
    lcd.draw_status_screen(&layout(3), [false; 4]);
    assert_eq!(lcd.take_ops(), red);
}

#[test]
fn red_screen_needs_no_drawable_labels() {
    let mut broken = layout(3);
    broken.title = AlphaBitmap { width: 4, height: 1, data: vec![] };
    let mut lcd = St7789::new();
    lcd.draw_status_screen(&broken, [true, true, false, true]);
    assert_eq!(lcd.take_ops().len(), 6);
}

#[test]
fn drawability_of_bitmaps() {
    let full = AlphaBitmap { width: 4, height: 2, data: vec![0; 4] };
    let short = AlphaBitmap { width: 4, height: 2, data: vec![0; 3] };
    let empty = AlphaBitmap { width: 0, height: 2, data: vec![] };
    assert!(can_draw_bitmap(0, 0, &full));
    assert!(!can_draw_bitmap(0, 0, &short));
    // clipped to 2 columns of the last row: pixel index 5 lives in byte 2
    assert!(can_draw_bitmap(238, 0, &short));
    assert!(can_draw_bitmap(240, 0, &short));
    assert!(!can_draw_bitmap(0, 0, &empty));
    assert!(can_draw_bitmap(5, 0, &empty));
    assert!(layout_fits(&layout(3), 4));
    let mut bad = layout(3);
    bad.items[1].label = short.clone();
    assert!(!layout_fits(&bad, 4));
    assert!(layout_fits(&bad, 1));
}

#[test]
fn blended_channels_lie_between_the_inputs() {
    let channels = |c: u16| [(c >> 11) & 0x1F, (c >> 5) & 0x3F, c & 0x1F];
    let colours = [0u16, 0xFFFF, 0x1234, 0xABCD, 0xF81F, 0x07E0, 0x39E7];
    for &bg in &colours {
        for &fg in &colours {
            for a in 1u8..15 {
                let out = channels(blend_rgb565(bg, fg, a));
                let (b, f) = (channels(bg), channels(fg));
                for k in 0..3 {
                    assert!(out[k] >= b[k].min(f[k]) && out[k] <= b[k].max(f[k]));
                    assert_eq!(out[k], (f[k] * a as u16 + b[k] * (15 - a as u16)) / 15);
                }
            }
        }
    }
}

#[test]
fn status_screen_draws_at_most_four_lines() {
    let mut lcd = St7789::new();
    lcd.draw_status_screen(&layout(6), [true; 4]);
    assert_eq!(lcd.take_ops().len(), 12 + 4 * 156);
}

#[test]
fn spi_chunks_split_data_in_64_byte_writes() {
    assert!(spi_chunks(&[]).is_empty());
    let one = spi_chunks(&[7]);
    assert_eq!(one, vec![vec![7]]);
    for n in [1usize, 63, 64, 65, 128, 129, 480] {
        let data: Vec<u8> = (0..n).map(|i| i as u8).collect();
        let chunks = spi_chunks(&data);
        assert_eq!(chunks.len(), (n + 63) / 64);
        for (i, c) in chunks.iter().enumerate() {
            if i + 1 < chunks.len() {
                assert_eq!(c.len(), 64);
            } else {
                assert!(1 <= c.len() && c.len() <= 64);
            }
        }
        assert_eq!(chunks.concat(), data);
        let std_chunks: Vec<Vec<u8>> = data.chunks(64).map(|c| c.to_vec()).collect();
        assert_eq!(chunks, std_chunks);
    }
}
