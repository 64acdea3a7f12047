//! The ST7789 command stream: what the panel driver sends over SPI to
//! reset the controller, open address windows and push pixels.
//!
//! `St7789` records the stream as a list of [`LcdOp`]s; the firmware replays
//! them on the SPI bus and the DC / CS / RST lines.
use vstd::prelude::*;
use crate::bitmap::{AlphaBitmap, alpha_at, bitmap_alpha, pixel_stored};
use crate::color::{blend_rgb565, blend_spec, BLACK, WHITE, RED, GREEN, BLUE};

verus! {

pub const ST7789_SWRESET: u8 = 0x01;
pub const ST7789_SLPOUT: u8 = 0x11;
pub const ST7789_NORON: u8 = 0x13;
pub const ST7789_INVON: u8 = 0x21;
pub const ST7789_DISPON: u8 = 0x29;
pub const ST7789_CASET: u8 = 0x2A;
pub const ST7789_RASET: u8 = 0x2B;
pub const ST7789_RAMWR: u8 = 0x2C;
pub const ST7789_COLMOD: u8 = 0x3A;
pub const ST7789_MADCTL: u8 = 0x36;

/// Panel width in pixels.
pub const LCD_W: u16 = 240;
/// Panel height in pixels.
pub const LCD_H: u16 = 240;

/// Radius of the status dots on the status screen.
pub const STATUS_DOT_RADIUS: u16 = 12;

/// One step of the bus traffic to the panel.
#[derive(Debug, Clone, PartialEq, Eq)]
pub enum LcdOp {
    /// Drive the RST line high (`true`) or low.
    Reset(bool),
    /// Wait this many milliseconds.
    DelayMs(u32),
    /// One command byte, sent with DC low inside one chip-select window.
    Command(u8),
    /// Data bytes, sent with DC high inside one chip-select window, in the
    /// writes that [`spi_chunks`] gives.
    Data(Vec<u8>),
    /// A block of data bytes written the given number of times, back to
    /// back, with DC high inside one chip-select window.
    RepeatedData(Vec<u8>, u32),
}

/// The mathematical value of an [`LcdOp`].
pub enum Op {
    Reset(bool),
    DelayMs(u32),
    Command(u8),
    Data(Seq<u8>),
    RepeatedData(Seq<u8>, u32),
}

impl View for LcdOp {
    type V = Op;

    open spec fn view(&self) -> Op {
        match self {
            LcdOp::Reset(level) => Op::Reset(*level),
            LcdOp::DelayMs(ms) => Op::DelayMs(*ms),
            LcdOp::Command(c) => Op::Command(*c),
            LcdOp::Data(d) => Op::Data(d@),
            LcdOp::RepeatedData(d, n) => Op::RepeatedData(d@, *n),
        }
    }
}

/// High (first-sent) byte of a 16-bit value.
pub open spec fn hi_byte(v: int) -> u8 {
    (v / 256) as u8
}

/// Low byte of a 16-bit value.
pub open spec fn lo_byte(v: int) -> u8 {
    (v % 256) as u8
}

/// A 16-bit value big-endian.
pub open spec fn be_bytes(v: int) -> Seq<u8> {
    seq![hi_byte(v), lo_byte(v)]
}

/// The pixel bytes of a row of colours, each big-endian.
pub open spec fn colors_bytes(colors: Seq<u16>) -> Seq<u8> {
    Seq::new(
        2 * colors.len(),
        |i: int|
            if i % 2 == 0 {
                hi_byte(colors[i / 2] as int)
            } else {
                lo_byte(colors[i / 2] as int)
            },
    )
}

/// `n` pixels of one colour.
pub open spec fn run_bytes(color: u16, n: nat) -> Seq<u8> {
    colors_bytes(Seq::new(n, |_i: int| color))
}

/// The power-up sequence: hardware reset, software reset, sleep out,
/// 16-bit pixels, default orientation, inversion on, normal mode, display on.
pub open spec fn init_ops() -> Seq<Op> {
    seq![
        Op::Reset(true),
        Op::DelayMs(10),
        Op::Reset(false),
        Op::DelayMs(10),
        Op::Reset(true),
        Op::DelayMs(120),
        Op::Command(ST7789_SWRESET),
        Op::DelayMs(150),
        Op::Command(ST7789_SLPOUT),
        Op::DelayMs(500),
        Op::Command(ST7789_COLMOD),
        Op::Data(seq![0x55u8]),
        Op::DelayMs(10),
        Op::Command(ST7789_MADCTL),
        Op::Data(seq![0x00u8]),
        Op::Command(ST7789_INVON),
        Op::DelayMs(10),
        Op::Command(ST7789_NORON),
        Op::DelayMs(10),
        Op::Command(ST7789_DISPON),
        Op::DelayMs(10),
    ]
}

/// Open the address window from column `x0` to `x1` and row `y0` to `y1`
/// (inclusive) and start a memory write.
pub open spec fn window_ops(x0: int, y0: int, x1: int, y1: int) -> Seq<Op> {
    seq![
        Op::Command(ST7789_CASET),
        Op::Data(be_bytes(x0) + be_bytes(x1)),
        Op::Command(ST7789_RASET),
        Op::Data(be_bytes(y0) + be_bytes(y1)),
        Op::Command(ST7789_RAMWR),
    ]
}

/// The pixel block used to fill the screen: 64 pixels.
pub open spec fn fill_block(color: u16) -> Seq<u8> {
    run_bytes(color, 64)
}

/// Fill the whole panel: one full-screen window, then the 64-pixel block
/// 900 times (240 x 240 = 57 600 pixels).
pub open spec fn fill_ops(color: u16) -> Seq<Op> {
    window_ops(0, 0, LCD_W - 1, LCD_H - 1) + seq![Op::RepeatedData(fill_block(color), 900)]
}

/// A horizontal line of `len` pixels from (`x`, `y`), clipped to the panel;
/// nothing when it is empty or entirely off the panel.
pub open spec fn hline_ops(x: int, y: int, len: int, color: u16) -> Seq<Op> {
    if len <= 0 || y < 0 || y >= LCD_H {
        seq![]
    } else {
        let x0 = if x < 0 { 0 } else { x };
        let x1 = if x + len - 1 < LCD_W - 1 { x + len - 1 } else { LCD_W - 1 };
        if x0 > x1 {
            seq![]
        } else {
            window_ops(x0, y, x1, y) + seq![Op::Data(run_bytes(color, (x1 - x0 + 1) as nat))]
        }
    }
}


/// Half-width of the circle row at vertical offset `dy`: starting from `dx`,
/// the first value going down whose point lies in the disc of squared
/// radius `r2` (or 0).
pub open spec fn half_span(dx: int, dy: int, r2: int) -> int
    decreases dx,
{
    if dx <= 0 || dx * dx + dy * dy <= r2 {
        dx
    } else {
        half_span(dx - 1, dy, r2)
    }
}

/// Half-width of the row `dy` of a filled circle of radius `r`.
pub open spec fn circle_half_width(r: int, dy: int) -> int {
    half_span(r, dy, r * r)
}

/// The first `n` rows (from `dy = -r` down) of a filled circle.
pub open spec fn circle_rows(cx: int, cy: int, r: int, color: u16, n: nat) -> Seq<Op>
    decreases n,
{
    if n == 0 {
        seq![]
    } else {
        let dy = n - 1 - r;
        let dx = circle_half_width(r, dy);
        circle_rows(cx, cy, r, color, (n - 1) as nat) + hline_ops(cx - dx, cy + dy, 2 * dx + 1, color)
    }
}

/// A filled circle: for each row `dy` in `-r..=r`, one clipped horizontal
/// line spanning the row's half-width on either side of the centre.
pub open spec fn circle_ops(cx: int, cy: int, r: int, color: u16) -> Seq<Op> {
    circle_rows(cx, cy, r, color, (2 * r + 1) as nat)
}


/// How much of something `size` pixels long, starting at `start`, fits on an
/// axis `limit` pixels long.
pub open spec fn clipped(start: int, size: int, limit: int) -> int {
    if size < limit - start {
        size
    } else {
        limit - start
    }
}

/// The first `width` colours of bitmap row `row`, blended `fg` over `bg`.
pub open spec fn bitmap_row_colors(
    bitmap: &AlphaBitmap,
    width: int,
    row: int,
    fg: u16,
    bg: u16,
) -> Seq<u16> {
    Seq::new(
        width as nat,
        |col: int| blend_spec(bg, fg, alpha_at(bitmap.data@, bitmap.width as int, col, row)),
    )
}

/// The first `n` rows of a bitmap drawn at (`x`, `y`), `width` pixels of
/// each: per row a one-row window and that row's blended pixels.
pub open spec fn bitmap_rows(
    x: int,
    y: int,
    bitmap: &AlphaBitmap,
    fg: u16,
    bg: u16,
    width: int,
    n: nat,
) -> Seq<Op>
    decreases n,
{
    if n == 0 {
        seq![]
    } else {
        let row = n - 1;
        bitmap_rows(x, y, bitmap, fg, bg, width, row as nat) + window_ops(
            x,
            y + row,
            x + width - 1,
            y + row,
        ) + seq![Op::Data(colors_bytes(bitmap_row_colors(bitmap, width, row, fg, bg)))]
    }
}

/// A bitmap drawn with its top-left corner at (`x`, `y`), `fg` blended over
/// `bg` by each pixel's alpha, clipped at the right and bottom edges; nothing
/// when the corner is off the panel.
pub open spec fn bitmap_ops(x: int, y: int, bitmap: &AlphaBitmap, fg: u16, bg: u16) -> Seq<Op> {
    if x >= LCD_W || y >= LCD_H {
        seq![]
    } else {
        bitmap_rows(
            x,
            y,
            bitmap,
            fg,
            bg,
            clipped(x, bitmap.width as int, LCD_W as int),
            clipped(y, bitmap.height as int, LCD_H as int) as nat,
        )
    }
}

/// Drawing `bitmap` at (`x`, `y`) reads only stored pixels and computes no
/// window edge below zero.
pub open spec fn bitmap_drawable(x: int, y: int, bitmap: &AlphaBitmap) -> bool {
    x >= LCD_W || y >= LCD_H || {
        let w = clipped(x, bitmap.width as int, LCD_W as int);
        let h = clipped(y, bitmap.height as int, LCD_H as int);
        h == 0 || (x + w >= 1 && (w == 0 || pixel_stored(bitmap, w - 1, h - 1)))
    }
}

/// One line of the status screen: a coloured dot and a text label.
#[derive(Debug, Clone)]
pub struct StatusItem {
    pub circle_x: u16,
    pub circle_y: u16,
    pub text_x: u16,
    pub text_y: u16,
    pub label: AlphaBitmap,
}

/// Where the pre-rendered title and the status lines go on the panel.
#[derive(Debug, Clone)]
pub struct StatusLayout {
    pub title_x: u16,
    pub title_y: u16,
    pub title: AlphaBitmap,
    pub items: Vec<StatusItem>,
}

/// Every check passed.
pub open spec fn all_passed(results: Seq<bool>) -> bool {
    forall|i: int| 0 <= i < results.len() ==> #[trigger] results[i]
}

/// The boot screen: blue background, white title.
pub open spec fn boot_screen_ops(layout: &StatusLayout) -> Seq<Op> {
    fill_ops(BLUE) + bitmap_ops(
        layout.title_x as int,
        layout.title_y as int,
        &layout.title,
        WHITE,
        BLUE,
    )
}

/// The first `n` status lines: each a green dot and the label in black on
/// white.
pub open spec fn status_items_ops(items: Seq<StatusItem>, n: nat) -> Seq<Op>
    decreases n,
{
    if n == 0 {
        seq![]
    } else {
        let i = n - 1;
        status_items_ops(items, i as nat) + circle_ops(
            items[i].circle_x as int,
            items[i].circle_y as int,
            STATUS_DOT_RADIUS as int,
            GREEN,
        ) + bitmap_ops(items[i].text_x as int, items[i].text_y as int, &items[i].label, BLACK, WHITE)
    }
}

/// The number of status lines drawn: as many as there are both items and
/// results.
pub open spec fn status_line_count(layout: &StatusLayout, results: Seq<bool>) -> nat {
    if layout.items@.len() < results.len() {
        layout.items@.len()
    } else {
        results.len()
    }
}

/// The status screen. When every check passed: white background, black
/// title, then one line with a green dot per (item, result) pair. When any
/// check failed: the whole panel pure red.
pub open spec fn status_screen_ops(layout: &StatusLayout, results: Seq<bool>) -> Seq<Op> {
    if all_passed(results) {
        fill_ops(WHITE) + bitmap_ops(
            layout.title_x as int,
            layout.title_y as int,
            &layout.title,
            BLACK,
            WHITE,
        ) + status_items_ops(layout.items@, status_line_count(layout, results))
    } else {
        fill_ops(RED)
    }
}

/// The status screen is the pure red fill exactly when some check failed,
/// and otherwise starts with the white fill.
pub proof fn law_status_screen_red_on_failure(layout: &StatusLayout, results: Seq<bool>)
    ensures
        !all_passed(results) ==> status_screen_ops(layout, results) == fill_ops(RED),
        all_passed(results) ==> status_screen_ops(layout, results).subrange(0, 6) == fill_ops(
            WHITE,
        ),
        (exists|i: int| 0 <= i < results.len() && !#[trigger] results[i]) <==> !all_passed(results),
{
    if all_passed(results) {
        let ops = status_screen_ops(layout, results);
        assert(ops.subrange(0, 6) =~= fill_ops(WHITE));
    }
}

/// The title and the first `n` labels of `layout` can be drawn.
pub open spec fn layout_drawable(layout: &StatusLayout, n: int) -> bool {
    &&& bitmap_drawable(layout.title_x as int, layout.title_y as int, &layout.title)
    &&& forall|i: int|
        0 <= i < n && i < layout.items@.len() ==> bitmap_drawable(
            #[trigger] layout.items@[i].text_x as int,
            layout.items@[i].text_y as int,
            &layout.items@[i].label,
        )
}

proof fn lemma_half_span(dx: int, dy: int, r2: int)
    requires
        0 <= dx,
        0 <= dy * dy <= r2,
    ensures
        0 <= half_span(dx, dy, r2) <= dx,
        half_span(dx, dy, r2) * half_span(dx, dy, r2) + dy * dy <= r2,
        forall|d: int| half_span(dx, dy, r2) < d <= dx ==> #[trigger] (d * d) + dy * dy > r2,
    decreases dx,
{
    if dx <= 0 || dx * dx + dy * dy <= r2 {
        if dx <= 0 {
            assert(dx * dx == 0) by (nonlinear_arith)
                requires
                    dx == 0,
            ;
        }
    } else {
        lemma_half_span(dx - 1, dy, r2);
    }
}

/// Row `dy` of a filled circle of radius `r` covers exactly the horizontal
/// offsets `dx` whose point lies in the disc, that is with
/// `dx * dx + dy * dy <= r * r`.
pub proof fn law_circle_row_exact(r: int, dy: int, dx: int)
    requires
        0 <= r,
        -r <= dy <= r,
    ensures
        (-circle_half_width(r, dy) <= dx <= circle_half_width(r, dy)) <==> dx * dx + dy * dy
            <= r * r,
{
    assert(0 <= dy * dy <= r * r) by (nonlinear_arith)
        requires
            -r <= dy <= r,
    ;
    lemma_half_span(r, dy, r * r);
    let h = circle_half_width(r, dy);
    let a = if dx < 0 { -dx } else { dx };
    assert(a * a == dx * dx) by (nonlinear_arith)
        requires
            a == dx || a == -dx,
    ;
    if a <= h {
        assert(a * a <= h * h) by (nonlinear_arith)
            requires
                0 <= a <= h,
        ;
    } else if a <= r {
        assert(a * a + dy * dy > r * r);
    } else {
        assert(a * a > r * r) by (nonlinear_arith)
            requires
                a > r,
                r >= 0,
        ;
    }
}

proof fn lemma_split_u16(v: u16)
    ensures
        (v >> 8u16) as u8 == hi_byte(v as int),
        (v & 0xFFu16) as u8 == lo_byte(v as int),
        v / 256 < 256,
{
    assert((v >> 8u16) as u8 == v / 256) by (bit_vector);
    assert((v & 0xFFu16) as u8 == v % 256) by (bit_vector);
}


/// Whether `bitmap` can be drawn at (`x`, `y`): the condition
/// `draw_alpha_bitmap` needs.
pub fn can_draw_bitmap(x: u16, y: u16, bitmap: &AlphaBitmap) -> (ok: bool)
    ensures
        ok == bitmap_drawable(x as int, y as int, bitmap),
{
    if x >= LCD_W || y >= LCD_H {
        return true;
    }
    let width = if bitmap.width < LCD_W - x {
        bitmap.width
    } else {
        LCD_W - x
    };
    let height = if bitmap.height < LCD_H - y {
        bitmap.height
    } else {
        LCD_H - y
    };
    if height == 0 {
        return true;
    }
    if x as u32 + width as u32 == 0 {
        return false;
    }
    if width == 0 {
        return true;
    }
    proof {
        assert((height - 1) as int * bitmap.width as int <= 239 * 65535) by (nonlinear_arith)
            requires
                height <= 240,
                bitmap.width <= 65535,
        ;
    }
    let last = (height - 1) as usize * bitmap.width as usize + (width - 1) as usize;
    last / 2 < bitmap.data.len()
}

/// Whether the title and the first `n` labels of `layout` can be drawn: the
/// condition the screen-drawing functions need.
pub fn layout_fits(layout: &StatusLayout, n: usize) -> (ok: bool)
    ensures
        ok == layout_drawable(layout, n as int),
{
    if !can_draw_bitmap(layout.title_x, layout.title_y, &layout.title) {
        return false;
    }
    let mut i: usize = 0;
    while i < n && i < layout.items.len()
        invariant
            bitmap_drawable(layout.title_x as int, layout.title_y as int, &layout.title),
            i <= n,
            forall|j: int|
                0 <= j < i && j < layout.items@.len() ==> bitmap_drawable(
                    #[trigger] layout.items@[j].text_x as int,
                    layout.items@[j].text_y as int,
                    &layout.items@[j].label,
                ),
        decreases n - i,
    {
        let item = &layout.items[i];
        if !can_draw_bitmap(item.text_x, item.text_y, &item.label) {
            return false;
        }
        i += 1;
    }
    true
}

/// The longest single SPI write: data is sent in writes of at most this
/// many bytes.
pub const SPI_CHUNK: usize = 64;

/// Write number `i` of `data`: bytes `64 * i` up to `64 * i + 64`, or to the
/// end of the data.
pub open spec fn chunk_spec(data: Seq<u8>, i: int) -> Seq<u8> {
    let start = i * SPI_CHUNK;
    let end = if start + SPI_CHUNK < data.len() {
        start + SPI_CHUNK
    } else {
        data.len() as int
    };
    data.subrange(start, end)
}

/// The parts one after another.
pub open spec fn joined(parts: Seq<Seq<u8>>) -> Seq<u8>
    decreases parts.len(),
{
    if parts.len() == 0 {
        seq![]
    } else {
        joined(parts.drop_last()) + parts.last()
    }
}

/// The SPI writes that send `data`: `ceil(len / 64)` pieces which, one after
/// another, are the data; each is 64 bytes long but the last, which holds
/// 1 to 64; empty data gives no writes.
pub fn spi_chunks(data: &[u8]) -> (chunks: Vec<Vec<u8>>)
    ensures
        chunks@.len() == (data@.len() + SPI_CHUNK - 1) / SPI_CHUNK as int,
        forall|i: int| 0 <= i < chunks@.len() ==> #[trigger] chunks@[i]@ == chunk_spec(data@, i),
        forall|i: int| 0 <= i < chunks@.len() - 1 ==> (#[trigger] chunks@[i])@.len() == SPI_CHUNK,
        chunks@.len() > 0 ==> 1 <= chunks@.last()@.len() <= SPI_CHUNK,
        joined(chunks@.map_values(|c: Vec<u8>| c@)) == data@,
{
    let n = data.len();
    let mut chunks: Vec<Vec<u8>> = Vec::new();
    let mut start: usize = 0;
    while start < n
        invariant
            n == data@.len(),
            start == if chunks@.len() * SPI_CHUNK < n {
                chunks@.len() * SPI_CHUNK
            } else {
                n as int
            },
            chunks@.len() == 0 || (chunks@.len() - 1) * SPI_CHUNK < n,
            forall|i: int| 0 <= i < chunks@.len() ==> #[trigger] chunks@[i]@ == chunk_spec(data@, i),
            joined(chunks@.map_values(|c: Vec<u8>| c@)) == data@.subrange(0, start as int),
        decreases n - start,
    {
        let end = if n - start > SPI_CHUNK {
            start + SPI_CHUNK
        } else {
            n
        };
        let piece = vstd::slice::slice_to_vec(vstd::slice::slice_subrange(data, start, end));
        let ghost before = chunks@.map_values(|c: Vec<u8>| c@);
        chunks.push(piece);
        proof {
            let after = chunks@.map_values(|c: Vec<u8>| c@);
            assert(after.drop_last() =~= before);
            assert(data@.subrange(0, end as int) =~= data@.subrange(0, start as int)
                + data@.subrange(start as int, end as int));
        }
        start = end;
    }
    assert(data@.subrange(0, n as int) =~= data@);
    chunks
}

/// The display controller's pending command stream.
pub struct St7789 {
    ops: Vec<LcdOp>,
}

impl View for St7789 {
    type V = Seq<Op>;

    closed spec fn view(&self) -> Seq<Op> {
        self.ops@.map_values(|o: LcdOp| o@)
    }
}

impl St7789 {
    /// A controller with nothing queued.
    pub fn new() -> (lcd: St7789)
        ensures
            lcd@ == Seq::<Op>::empty(),
    {
        let lcd = St7789 { ops: Vec::new() };
        assert(lcd@ =~= Seq::<Op>::empty());
        lcd
    }

    /// Hand the queued stream to the bus and start an empty one.
    pub fn take_ops(&mut self) -> (ops: Vec<LcdOp>)
        ensures
            ops@.map_values(|o: LcdOp| o@) == old(self)@,
            final(self)@ == Seq::<Op>::empty(),
    {
        let mut ops: Vec<LcdOp> = Vec::new();
        std::mem::swap(&mut ops, &mut self.ops);
        assert(self@ =~= Seq::<Op>::empty());
        ops
    }

    fn push_op(&mut self, op: LcdOp)
        ensures
            final(self)@ == old(self)@.push(op@),
    {
        self.ops.push(op);
        assert(self@ =~= old(self)@.push(op@));
    }

    /// Send a command with DC low.
    pub fn send_cmd(&mut self, cmd: u8)
        ensures
            final(self)@ == old(self)@.push(Op::Command(cmd)),
    {
        self.push_op(LcdOp::Command(cmd));
    }

    /// Send data with DC high.
    pub fn send_data(&mut self, data: &[u8])
        ensures
            final(self)@ == old(self)@.push(Op::Data(data@)),
    {
        let bytes = vstd::slice::slice_to_vec(data);
        self.push_op(LcdOp::Data(bytes));
    }

    /// Send a single data byte.
    pub fn send_data_byte(&mut self, byte: u8)
        ensures
            final(self)@ == old(self)@.push(Op::Data(seq![byte])),
    {
        let bytes = vec![byte];
        assert(bytes@ =~= seq![byte]);
        self.push_op(LcdOp::Data(bytes));
    }

    /// Wait `ms` milliseconds.
    pub fn delay_ms(&mut self, ms: u32)
        ensures
            final(self)@ == old(self)@.push(Op::DelayMs(ms)),
    {
        self.push_op(LcdOp::DelayMs(ms));
    }

    /// Drive the reset line.
    pub fn set_reset(&mut self, level: bool)
        ensures
            final(self)@ == old(self)@.push(Op::Reset(level)),
    {
        self.push_op(LcdOp::Reset(level));
    }

    /// Hardware reset and initialization sequence.
    pub fn init(&mut self)
        ensures
            final(self)@ == old(self)@ + init_ops(),
    {
        self.set_reset(true);
        self.delay_ms(10);
        self.set_reset(false);
        self.delay_ms(10);
        self.set_reset(true);
        // The datasheet asks for 120 ms after a reset.
        self.delay_ms(120);

        self.send_cmd(ST7789_SWRESET);
        self.delay_ms(150);

        self.send_cmd(ST7789_SLPOUT);
        self.delay_ms(500);

        // 16-bit RGB565 pixels.
        self.send_cmd(ST7789_COLMOD);
        self.send_data_byte(0x55);
        self.delay_ms(10);

        // Normal orientation: RGB order, top-to-bottom, left-to-right.
        self.send_cmd(ST7789_MADCTL);
        self.send_data_byte(0x00);

        // IPS panels need inversion enabled.
        self.send_cmd(ST7789_INVON);
        self.delay_ms(10);

        self.send_cmd(ST7789_NORON);
        self.delay_ms(10);

        self.send_cmd(ST7789_DISPON);
        self.delay_ms(10);
        assert(self@ =~= old(self)@ + init_ops());
    }

    /// Set the write window (column and row address) and start a memory write.
    pub fn set_window(&mut self, x0: u16, y0: u16, x1: u16, y1: u16)
        ensures
            final(self)@ == old(self)@ + window_ops(x0 as int, y0 as int, x1 as int, y1 as int),
    {
        proof {
            lemma_split_u16(x0);
            lemma_split_u16(x1);
            lemma_split_u16(y0);
            lemma_split_u16(y1);
        }
        self.send_cmd(ST7789_CASET);
        let cols = [(x0 >> 8) as u8, (x0 & 0xFF) as u8, (x1 >> 8) as u8, (x1 & 0xFF) as u8];
        assert(cols@ =~= be_bytes(x0 as int) + be_bytes(x1 as int));
        self.send_data(&cols);
        self.send_cmd(ST7789_RASET);
        let rows = [(y0 >> 8) as u8, (y0 & 0xFF) as u8, (y1 >> 8) as u8, (y1 & 0xFF) as u8];
        assert(rows@ =~= be_bytes(y0 as int) + be_bytes(y1 as int));
        self.send_data(&rows);
        self.send_cmd(ST7789_RAMWR);
        assert(self@ =~= old(self)@ + window_ops(x0 as int, y0 as int, x1 as int, y1 as int));
    }

    /// Fill the entire screen with one colour: a full-screen window, then
    /// 900 blocks of 64 pixels.
    pub fn fill_screen(&mut self, color: u16)
        ensures
            final(self)@ == old(self)@ + fill_ops(color),
    {
        self.set_window(0, 0, LCD_W - 1, LCD_H - 1);
        let block = pixel_run(color, 64);
        self.push_op(LcdOp::RepeatedData(block, 900));
        assert(self@ =~= old(self)@ + fill_ops(color));
    }

    /// A horizontal line of `len` pixels starting at (`x`, `y`), clipped to
    /// the panel.
    pub fn draw_solid_hline(&mut self, x: i32, y: i32, len: i32, color: u16)
        requires
            len <= 0 || y < 0 || y >= LCD_H || x + len <= i32::MAX,
        ensures
            final(self)@ == old(self)@ + hline_ops(x as int, y as int, len as int, color),
    {
        if len <= 0 || y < 0 || y >= LCD_H as i32 {
            assert(self@ =~= old(self)@ + hline_ops(x as int, y as int, len as int, color));
            return;
        }
        let x0 = if x < 0 { 0 } else { x };
        let end = x + len - 1;
        let x1 = if end < LCD_W as i32 - 1 { end } else { LCD_W as i32 - 1 };
        if x0 > x1 {
            assert(self@ =~= old(self)@ + hline_ops(x as int, y as int, len as int, color));
            return;
        }
        let width = (x1 - x0 + 1) as usize;
        self.set_window(x0 as u16, y as u16, x1 as u16, y as u16);
        let row = pixel_run(color, width);
        self.push_op(LcdOp::Data(row));
        assert(self@ =~= old(self)@ + hline_ops(x as int, y as int, len as int, color));
    }


    /// Draw `bitmap` with its top-left corner at (`x`, `y`): each pixel is
    /// `fg` blended over `bg` by its alpha; the part beyond the right or
    /// bottom edge is left out, and nothing is drawn from a corner off the
    /// panel.
    pub fn draw_alpha_bitmap(&mut self, x: u16, y: u16, bitmap: &AlphaBitmap, fg: u16, bg: u16)
        requires
            bitmap_drawable(x as int, y as int, bitmap),
        ensures
            final(self)@ == old(self)@ + bitmap_ops(x as int, y as int, bitmap, fg, bg),
    {
        if x >= LCD_W || y >= LCD_H {
            assert(self@ =~= old(self)@ + bitmap_ops(x as int, y as int, bitmap, fg, bg));
            return;
        }
        let width = if bitmap.width < LCD_W - x {
            bitmap.width
        } else {
            LCD_W - x
        };
        let height = if bitmap.height < LCD_H - y {
            bitmap.height
        } else {
            LCD_H - y
        };
        let mut row: u16 = 0;
        while row < height
            invariant
                x < LCD_W,
                y < LCD_H,
                width as int == clipped(x as int, bitmap.width as int, LCD_W as int),
                height as int == clipped(y as int, bitmap.height as int, LCD_H as int),
                bitmap_drawable(x as int, y as int, bitmap),
                row <= height,
                self@ == old(self)@ + bitmap_rows(
                    x as int,
                    y as int,
                    bitmap,
                    fg,
                    bg,
                    width as int,
                    row as nat,
                ),
            decreases height - row,
        {
            self.set_window(x, y + row, x + width - 1, y + row);
            let mut row_buf: Vec<u8> = Vec::new();
            let mut col: u16 = 0;
            while col < width
                invariant
                    x < LCD_W,
                    y < LCD_H,
                    width as int == clipped(x as int, bitmap.width as int, LCD_W as int),
                    height as int == clipped(y as int, bitmap.height as int, LCD_H as int),
                    bitmap_drawable(x as int, y as int, bitmap),
                    row < height,
                    col <= width,
                    row_buf@ =~= colors_bytes(
                        bitmap_row_colors(bitmap, col as int, row as int, fg, bg),
                    ),
                decreases width - col,
            {
                proof {
                    let bw = bitmap.width as int;
                    let r = row as int;
                    let c = col as int;
                    let w = width as int;
                    let h = height as int;
                    assert(r * bw + c <= (h - 1) * bw + (w - 1)) by (nonlinear_arith)
                        requires
                            0 <= r <= h - 1,
                            0 <= c <= w - 1,
                            0 <= bw,
                    ;
                }
                let alpha = bitmap_alpha(bitmap, col, row);
                let color = blend_rgb565(bg, fg, alpha);
                proof {
                    lemma_split_u16(color);
                }
                row_buf.push((color >> 8) as u8);
                row_buf.push((color & 0xFF) as u8);
                col += 1;
                assert(row_buf@ =~= colors_bytes(
                    bitmap_row_colors(bitmap, col as int, row as int, fg, bg),
                ));
            }
            self.push_op(LcdOp::Data(row_buf));
            row += 1;
            assert(self@ =~= old(self)@ + bitmap_rows(
                x as int,
                y as int,
                bitmap,
                fg,
                bg,
                width as int,
                row as nat,
            ));
        }
        assert(self@ =~= old(self)@ + bitmap_ops(x as int, y as int, bitmap, fg, bg));
    }


    /// The boot screen, shown while the network comes up.
    pub fn draw_boot_screen(&mut self, layout: &StatusLayout)
        requires
            layout_drawable(layout, 0),
        ensures
            final(self)@ == old(self)@ + boot_screen_ops(layout),
    {
        self.fill_screen(BLUE);
        self.draw_alpha_bitmap(layout.title_x, layout.title_y, &layout.title, WHITE, BLUE);
        assert(self@ =~= old(self)@ + boot_screen_ops(layout));
    }

    /// The status screen: when every check passed, the title and for each
    /// status line a green dot and its label; when any check failed, a pure
    /// red panel.
    pub fn draw_status_screen(&mut self, layout: &StatusLayout, results: [bool; 4])
        requires
            all_passed(results@) ==> layout_drawable(layout, 4),
        ensures
            final(self)@ == old(self)@ + status_screen_ops(layout, results@),
    {
        let all_ok = results[0] && results[1] && results[2] && results[3];
        proof {
            if all_ok {
                assert forall|i: int| 0 <= i < results@.len() implies #[trigger] results@[i] by {
                    assert(i == 0 || i == 1 || i == 2 || i == 3);
                }
            } else {
                assert(!results@[0] || !results@[1] || !results@[2] || !results@[3]);
            }
        }
        if !all_ok {
            self.fill_screen(RED);
            return;
        }
        self.fill_screen(WHITE);
        self.draw_alpha_bitmap(layout.title_x, layout.title_y, &layout.title, BLACK, WHITE);
        let ghost head = self@;
        let count = if layout.items.len() < 4 {
            layout.items.len()
        } else {
            4
        };
        assert(count == status_line_count(layout, results@));
        let mut i: usize = 0;
        while i < count
            invariant
                count == status_line_count(layout, results@),
                count <= 4,
                count <= layout.items@.len(),
                results@.len() == 4,
                layout_drawable(layout, 4),
                i <= count,
                self@ == head + status_items_ops(layout.items@, i as nat),
            decreases count - i,
        {
            let item = &layout.items[i];
            self.draw_filled_circle(item.circle_x, item.circle_y, STATUS_DOT_RADIUS, GREEN);
            assert(bitmap_drawable(item.text_x as int, item.text_y as int, &item.label));
            self.draw_alpha_bitmap(item.text_x, item.text_y, &item.label, BLACK, WHITE);
            i += 1;
            assert(self@ =~= head + status_items_ops(layout.items@, i as nat));
        }
        assert(self@ =~= old(self)@ + status_screen_ops(layout, results@));
    }

    /// A filled circle of radius `radius` centred on (`cx`, `cy`), drawn row
    /// by row as clipped horizontal lines.
    pub fn draw_filled_circle(&mut self, cx: u16, cy: u16, radius: u16, color: u16)
        requires
            radius <= 32767,
        ensures
            final(self)@ == old(self)@ + circle_ops(cx as int, cy as int, radius as int, color),
    {
        let ghost r = radius as int;
        let cx = cx as i32;
        let cy = cy as i32;
        let radius = radius as i32;
        proof {
            assert(r * r <= 32767 * 32767) by (nonlinear_arith)
                requires
                    0 <= r <= 32767,
            ;
        }
        let radius_sq = radius * radius;

        let mut dy: i32 = -radius;
        while dy <= radius
            invariant
                r == radius,
                0 <= radius <= 32767,
                radius_sq == r * r,
                radius_sq <= 32767 * 32767,
                0 <= cx <= 65535,
                0 <= cy <= 65535,
                -radius <= dy <= radius + 1,
                self@ == old(self)@ + circle_rows(cx as int, cy as int, r, color, (dy + radius) as nat),
            decreases radius + 1 - dy,
        {
            proof {
                assert(0 <= dy * dy <= r * r) by (nonlinear_arith)
                    requires
                        -r <= dy <= r,
                ;
            }
            let dy_sq = dy * dy;
            let mut dx: i32 = radius;
            while dx * dx + dy_sq > radius_sq
                invariant
                    0 <= dx <= radius,
                    0 <= radius <= 32767,
                    radius_sq == radius * radius,
                    radius_sq <= 32767 * 32767,
                    dy_sq == dy * dy,
                    0 <= dy_sq <= radius_sq,
                    dx * dx <= radius_sq,
                    half_span(dx as int, dy as int, radius_sq as int) == half_span(
                        radius as int,
                        dy as int,
                        radius_sq as int,
                    ),
                decreases dx,
            {
                assert(dx != 0) by (nonlinear_arith)
                    requires
                        dx * dx + dy_sq > radius_sq,
                        dy_sq <= radius_sq,
                ;
                dx -= 1;
                assert(dx * dx <= radius_sq) by (nonlinear_arith)
                    requires
                        0 <= dx,
                        (dx + 1) * (dx + 1) <= radius_sq,
                ;
            }
            let x0 = cx - dx;
            let x1 = cx + dx;
            let y = cy + dy;
            self.draw_solid_hline(x0, y, x1 - x0 + 1, color);
            proof {
                let n = (dy + radius) as nat;
                assert((n + 1) - 1 - r == dy);
                assert(circle_half_width(r, dy as int) == dx);
            }
            dy += 1;
        }
        assert(self@ =~= old(self)@ + circle_ops(cx as int, cy as int, r, color));
    }
}

/// `n` pixels of `color`, big-endian.
fn pixel_run(color: u16, n: usize) -> (bytes: Vec<u8>)
    requires
        n <= 0x7FFF_FFFF,
    ensures
        bytes@ == run_bytes(color, n as nat),
{
    proof {
        lemma_split_u16(color);
    }
    let hi = (color >> 8) as u8;
    let lo = (color & 0xFF) as u8;
    let mut bytes: Vec<u8> = Vec::new();
    let mut i: usize = 0;
    while i < n
        invariant
            i <= n,
            n <= 0x7FFF_FFFF,
            hi == hi_byte(color as int),
            lo == lo_byte(color as int),
            bytes@ =~= run_bytes(color, i as nat),
        decreases n - i,
    {
        bytes.push(hi);
        bytes.push(lo);
        i = i + 1;
        assert(bytes@ =~= run_bytes(color, i as nat));
    }
    bytes
}

} // verus!
