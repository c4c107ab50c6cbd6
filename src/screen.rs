use crate::game::{PADDLE_HEIGHT, PADDLE_INSET, PADDLE_WIDTH};
use vstd::arithmetic::div_mod::{lemma_fundamental_div_mod, lemma_fundamental_div_mod_converse};
use noto_sans_mono_bitmap::{get_raster, FontWeight, RasterHeight};
use vstd::prelude::*;
use vstd::string::StrSliceExecFns;

verus! {

/// Byte order of a pixel's colour channels.
#[derive(Clone, Copy, Debug, PartialEq, Eq, Structural)]
pub enum PixelOrder {
    Rgb,
    Bgr,
}

/// Layout of the framebuffer: fixed for the life of the renderer.
#[derive(Clone, Copy, Debug, PartialEq, Eq, Structural)]
pub struct FrameGeometry {
    pub width: usize,
    pub height: usize,
    /// Pixels per row in memory, at least `width`.
    pub stride: usize,
    pub bytes_per_pixel: usize,
    pub format: PixelOrder,
}

impl FrameGeometry {
    /// Bytes that the visible rows take.
    pub open spec fn frame_bytes(self) -> int {
        self.height * self.stride * self.bytes_per_pixel
    }

    /// A geometry that a buffer of `len` bytes can hold.
    pub open spec fn fits(self, len: int) -> bool {
        &&& 0 < self.width <= self.stride
        &&& 1 <= self.bytes_per_pixel <= 4
        &&& self.frame_bytes() <= len
    }

    pub open spec fn on_screen(self, x: int, y: int) -> bool {
        0 <= x < self.width && 0 <= y < self.height
    }

    /// Byte `i` of the buffer belongs to a visible pixel.
    pub open spec fn visible_byte(self, i: int) -> bool {
        &&& 0 <= i < self.frame_bytes()
        &&& (i / self.bytes_per_pixel as int) % (self.stride as int) < self.width
    }

    /// Index of the first byte of pixel `(x, y)`.
    pub open spec fn offset(self, x: int, y: int) -> int {
        (y * self.stride + x) * self.bytes_per_pixel
    }
}

/// The bytes that encode one colour in the given layout.
pub open spec fn color_bytes(format: PixelOrder, r: u8, g: u8, b: u8, bpp: int) -> Seq<u8> {
    let full = match format {
        PixelOrder::Rgb => seq![r, g, b, 0u8],
        PixelOrder::Bgr => seq![b, g, r, 0u8],
    };
    full.take(bpp)
}

/// The bytes of pixel `(x, y)`.
pub open spec fn pixel_of(fb: Seq<u8>, info: FrameGeometry, x: int, y: int) -> Seq<u8> {
    fb.subrange(info.offset(x, y), info.offset(x, y) + info.bytes_per_pixel)
}

/// `fb` with pixel `(x, y)` set to `color`.
pub open spec fn paint(fb: Seq<u8>, info: FrameGeometry, x: int, y: int, color: Seq<u8>) -> Seq<
    u8,
> {
    let off = info.offset(x, y);
    Seq::new(
        fb.len(),
        |i: int|
            if off <= i < off + info.bytes_per_pixel {
                color[i - off]
            } else {
                fb[i]
            },
    )
}

/// The rectangle with corner `(x, y)`, `w` wide and `h` high, holds `(px, py)`.
pub open spec fn in_rect(x: int, y: int, w: int, h: int, px: int, py: int) -> bool {
    x <= px < x + w && y <= py < y + h
}

/// `after` has the length of `before`, and each byte outside the visible
/// pixels is as in `before`, or zero where the screen was `cleared`.
pub open spec fn hidden_as(info: FrameGeometry, before: Seq<u8>, after: Seq<u8>, cleared: bool) -> bool {
    &&& after.len() == before.len()
    &&& forall|i: int|
        #![trigger info.visible_byte(i)]
        0 <= i < before.len() && !info.visible_byte(i) ==> after[i] == if cleared {
            0u8
        } else {
            before[i]
        }
}

/// The bytes of an on-screen pixel are visible ones.
proof fn lemma_pixel_bytes_visible(info: FrameGeometry, x: int, y: int, j: int)
    requires
        info.fits(info.frame_bytes()),
        info.on_screen(x, y),
        0 <= j < info.bytes_per_pixel,
    ensures
        info.visible_byte(info.offset(x, y) + j),
{
    lemma_pixel_in_frame(info, x, y);
    let b = info.bytes_per_pixel as int;
    let s = info.stride as int;
    let k = y * s + x;
    lemma_fundamental_div_mod_converse(k * b + j, b, k, j);
    lemma_fundamental_div_mod_converse(k, s, y, x);
}

proof fn lemma_pixel_in_frame(info: FrameGeometry, x: int, y: int)
    requires
        info.fits(info.frame_bytes()),
        info.on_screen(x, y),
    ensures
        0 <= y * info.stride + x < info.height * info.stride,
        info.height * info.stride <= info.frame_bytes(),
        0 <= info.offset(x, y),
        info.offset(x, y) + info.bytes_per_pixel <= info.frame_bytes(),
{
    let s = info.stride as int;
    let b = info.bytes_per_pixel as int;
    let h = info.height as int;
    assert(0 <= y * s) by (nonlinear_arith)
        requires
            0 <= y,
            0 <= s,
    ;
    assert(y * s + x < h * s) by (nonlinear_arith)
        requires
            0 <= x < s,
            0 <= y < h,
    ;
    let k = y * s + x;
    assert(0 <= k * b) by (nonlinear_arith)
        requires
            0 <= k,
            0 <= b,
    ;
    assert(h * s <= h * s * b) by (nonlinear_arith)
        requires
            0 <= h * s,
            1 <= b,
    ;
    assert(k * b + b <= h * s * b) by (nonlinear_arith)
        requires
            0 <= k < h * s,
            0 <= b,
    ;
}

proof fn lemma_pixels_disjoint(info: FrameGeometry, x1: int, y1: int, x2: int, y2: int)
    requires
        info.fits(info.frame_bytes()),
        info.on_screen(x1, y1),
        info.on_screen(x2, y2),
        x1 != x2 || y1 != y2,
    ensures
        info.offset(x1, y1) + info.bytes_per_pixel <= info.offset(x2, y2) || info.offset(x2, y2)
            + info.bytes_per_pixel <= info.offset(x1, y1),
{
    let s = info.stride as int;
    let b = info.bytes_per_pixel as int;
    let k1 = y1 * s + x1;
    let k2 = y2 * s + x2;
    if y1 < y2 {
        assert(k1 < k2) by (nonlinear_arith)
            requires
                k1 == y1 * s + x1,
                k2 == y2 * s + x2,
                0 <= x1 < s,
                0 <= x2,
                y1 < y2,
        ;
    } else if y2 < y1 {
        assert(k2 < k1) by (nonlinear_arith)
            requires
                k1 == y1 * s + x1,
                k2 == y2 * s + x2,
                0 <= x2 < s,
                0 <= x1,
                y2 < y1,
        ;
    }
    assert(k1 != k2);
    if k1 < k2 {
        assert(k1 * b + b <= k2 * b) by (nonlinear_arith)
            requires
                k1 < k2,
                0 <= b,
        ;
    } else {
        assert(k2 * b + b <= k1 * b) by (nonlinear_arith)
            requires
                k2 < k1,
                0 <= b,
        ;
    }
}

/// Painting one pixel sets that pixel and leaves every other one as it was.
proof fn lemma_paint_pixel(
    fb: Seq<u8>,
    info: FrameGeometry,
    x: int,
    y: int,
    color: Seq<u8>,
    qx: int,
    qy: int,
)
    requires
        info.fits(fb.len() as int),
        info.on_screen(x, y),
        info.on_screen(qx, qy),
        color.len() == info.bytes_per_pixel,
    ensures
        pixel_of(paint(fb, info, x, y, color), info, qx, qy) == if qx == x && qy == y {
            color
        } else {
            pixel_of(fb, info, qx, qy)
        },
{
    lemma_pixel_in_frame(info, x, y);
    lemma_pixel_in_frame(info, qx, qy);
    if qx != x || qy != y {
        lemma_pixels_disjoint(info, x, y, qx, qy);
    }
    let lhs = pixel_of(paint(fb, info, x, y, color), info, qx, qy);
    let rhs = if qx == x && qy == y {
        color
    } else {
        pixel_of(fb, info, qx, qy)
    };
    assert(lhs =~= rhs);
}

/// On a cleared buffer every visible pixel is black.
pub proof fn lemma_cleared_pixel(fb: Seq<u8>, info: FrameGeometry, px: int, py: int)
    requires
        info.fits(fb.len() as int),
        fb == Seq::new(fb.len(), |i: int| 0u8),
        info.on_screen(px, py),
    ensures
        pixel_of(fb, info, px, py) == color_bytes(info.format, 0, 0, 0, info.bytes_per_pixel as int),
{
    lemma_pixel_in_frame(info, px, py);
    assert(pixel_of(fb, info, px, py) =~= color_bytes(
        info.format,
        0,
        0,
        0,
        info.bytes_per_pixel as int,
    ));
}

/// An axis-aligned rectangle of pixels.
#[derive(Clone, Copy, Debug, PartialEq, Eq, Structural)]
pub struct Rect {
    pub x: usize,
    pub y: usize,
    pub w: usize,
    pub h: usize,
}

impl Rect {
    pub open spec fn holds(self, px: int, py: int) -> bool {
        in_rect(self.x as int, self.y as int, self.w as int, self.h as int, px, py)
    }
}

/// Some rectangle of the list holds `(px, py)`.
pub open spec fn covered(rects: Seq<Rect>, px: int, py: int) -> bool
    decreases rects.len(),
{
    if rects.len() == 0 {
        false
    } else {
        covered(rects.drop_last(), px, py) || rects.last().holds(px, py)
    }
}

/// Stroke thickness of a digit drawn in a box of side `size`.
pub open spec fn thickness(size: int) -> int {
    size / 5
}

/// The strokes of digit `d`, drawn in the square box of side `size` whose
/// top-left corner is `(x, y)`.
pub open spec fn digit_strokes(d: int, x: int, y: int, size: int) -> Seq<Rect> {
    let t = thickness(size);
    let half = size / 2;
    let top = Rect { x: x as usize, y: y as usize, w: size as usize, h: t as usize };
    let bottom = Rect { x: x as usize, y: (y + size - t) as usize, w: size as usize, h: t as usize };
    let middle = Rect {
        x: x as usize,
        y: (y + half - t / 2) as usize,
        w: size as usize,
        h: t as usize,
    };
    let left = Rect { x: x as usize, y: y as usize, w: t as usize, h: size as usize };
    let right = Rect { x: (x + size - t) as usize, y: y as usize, w: t as usize, h: size as usize };
    let right_upper = Rect {
        x: (x + size - t) as usize,
        y: y as usize,
        w: t as usize,
        h: half as usize,
    };
    let right_lower = Rect {
        x: (x + size - t) as usize,
        y: (y + half) as usize,
        w: t as usize,
        h: half as usize,
    };
    let left_lower = Rect { x: x as usize, y: (y + half) as usize, w: t as usize, h: half as usize };
    if d == 0 {
        seq![top, bottom, left, right]
    } else if d == 1 {
        seq![Rect { x: (x + half) as usize, y: y as usize, w: t as usize, h: size as usize }]
    } else if d == 2 {
        seq![top, right_upper, middle, bottom, left_lower]
    } else if d == 3 {
        seq![top, middle, bottom, right_upper, right_lower]
    } else {
        seq![]
    }
}

/// Number of dashes in the centre line.
pub const DASHES: usize = 20;

/// Width of a centre-line dash.
pub const DASH_WIDTH: usize = 5;

/// Height of a centre-line dash.
pub const DASH_HEIGHT: usize = 10;

/// The dashes of the centre line, evenly spaced down the screen.
pub open spec fn mid_line_dashes(info: FrameGeometry) -> Seq<Rect> {
    Seq::new(
        DASHES as nat,
        |i: int|
            Rect {
                x: ((info.width - DASH_WIDTH) / 2) as usize,
                y: (i * (info.height as int / DASHES as int)) as usize,
                w: DASH_WIDTH,
                h: DASH_HEIGHT,
            },
    )
}

/// What pixel `(px, py)`, which showed `base`, shows after the paddles move
/// from `old_l` and `old_r` to `new_l` and `new_r`: only a paddle that moved
/// is erased at its old place and painted at its new one; the right paddle
/// is drawn last.
pub open spec fn paddle_pixel(
    info: FrameGeometry,
    base: Seq<u8>,
    px: int,
    py: int,
    old_l: int,
    new_l: int,
    old_r: int,
    new_r: int,
) -> Seq<u8> {
    let white = color_bytes(info.format, 255, 255, 255, info.bytes_per_pixel as int);
    let black = color_bytes(info.format, 0, 0, 0, info.bytes_per_pixel as int);
    let lx = PADDLE_INSET as int;
    let rx = info.width - PADDLE_WIDTH - PADDLE_INSET;
    let pw = PADDLE_WIDTH as int;
    let ph = PADDLE_HEIGHT as int;
    if new_r != old_r && in_rect(rx, new_r, pw, ph, px, py) {
        white
    } else if new_r != old_r && in_rect(rx, old_r, pw, ph, px, py) {
        black
    } else if new_l != old_l && in_rect(lx, new_l, pw, ph, px, py) {
        white
    } else if new_l != old_l && in_rect(lx, old_l, pw, ph, px, py) {
        black
    } else {
        base
    }
}

/// The strokes of a digit, as a list.
fn digit_rects(d: usize, x: usize, y: usize, size: usize) -> (v: Vec<Rect>)
    requires
        x + size <= usize::MAX,
        y + size <= usize::MAX,
    ensures
        v@ == digit_strokes(d as int, x as int, y as int, size as int),
{
    let t = size / 5;
    let half = size / 2;
    let top = Rect { x, y, w: size, h: t };
    let bottom = Rect { x, y: y + size - t, w: size, h: t };
    let middle = Rect { x, y: y + half - t / 2, w: size, h: t };
    let left = Rect { x, y, w: t, h: size };
    let right = Rect { x: x + size - t, y, w: t, h: size };
    let right_upper = Rect { x: x + size - t, y, w: t, h: half };
    let right_lower = Rect { x: x + size - t, y: y + half, w: t, h: half };
    let left_lower = Rect { x, y: y + half, w: t, h: half };
    let v = if d == 0 {
        vec![top, bottom, left, right]
    } else if d == 1 {
        vec![Rect { x: x + half, y, w: t, h: size }]
    } else if d == 2 {
        vec![top, right_upper, middle, bottom, left_lower]
    } else if d == 3 {
        vec![top, middle, bottom, right_upper, right_lower]
    } else {
        Vec::new()
    };
    assert(v@ =~= digit_strokes(d as int, x as int, y as int, size as int));
    v
}

/// Width of every glyph of the text font.
pub const GLYPH_WIDTH: usize = 9;

/// Height of every glyph of the text font.
pub const GLYPH_HEIGHT: usize = 16;

/// Additional vertical space between lines of text.
pub const LINE_SPACING: usize = 0;

/// A rasterised character: rows of pixel intensities in a `width` by
/// `height` box.
pub struct Glyph {
    pub width: usize,
    pub height: usize,
    pub rows: Vec<Vec<u8>>,
}

/// The rows of intensities that the text font gives `c`, if it has it.
pub uninterp spec fn raster_of(c: char) -> Option<Seq<Seq<u8>>>;

/// Relies on `noto_sans_mono_bitmap::get_raster` with regular weight and a
/// 16-pixel raster: `None` for a character that the font lacks, else the
/// character's rows of intensities in a box `RASTER_WIDTH` (9) pixels wide
/// and `RasterHeight::Size16.val()` (16) pixels high: the raster is `height`
/// rows of `width` bytes, as `RasterizedChar` documents.
#[verifier::external_body]
fn glyph_of(c: char) -> (r: Option<Glyph>)
    ensures
        r is Some <==> raster_of(c) is Some,
        r is Some ==> r->0.rows.deep_view() == raster_of(c)->0,
        r is Some ==> r->0.width == GLYPH_WIDTH && r->0.height == GLYPH_HEIGHT,
        r is Some ==> r->0.rows@.len() == GLYPH_HEIGHT,
        r is Some ==> forall|i: int|
            0 <= i < r->0.rows@.len() ==> (#[trigger] r->0.rows@[i])@.len() == GLYPH_WIDTH,
{
    match get_raster(c, FontWeight::Regular, RasterHeight::Size16) {
        Some(g) => Some(
            Glyph {
                width: g.width(),
                height: g.height(),
                rows: g.raster().iter().map(|row| row.to_vec()).collect(),
            },
        ),
        None => None,
    }
}

/// The intensity that a glyph drawn with its top-left corner at `(x0, y0)`
/// gives pixel `(px, py)`, if it covers that pixel.
pub open spec fn glyph_pixel(rows: Seq<Seq<u8>>, x0: int, y0: int, px: int, py: int) -> Option<u8> {
    let dx = px - x0;
    let dy = py - y0;
    if 0 <= dy < rows.len() && 0 <= dx < rows[dy].len() {
        Some(rows[dy][dx])
    } else {
        None
    }
}

/// The bytes of a text pixel of intensity `v`.
pub open spec fn intensity_bytes(info: FrameGeometry, v: u8) -> Seq<u8> {
    color_bytes(info.format, v / 4, v, v / 2, info.bytes_per_pixel as int)
}

/// The row below `y`, or the last representable one.
pub open spec fn next_line(y: usize) -> usize {
    if y + GLYPH_HEIGHT + LINE_SPACING > usize::MAX {
        usize::MAX
    } else {
        (y + GLYPH_HEIGHT + LINE_SPACING) as usize
    }
}

/// Where the cursor stands once it moves for a glyph: to a new line when the
/// glyph would cross the right edge.
pub open spec fn wrapped(info: FrameGeometry, cur: Writer) -> Writer {
    if cur.x_pos + GLYPH_WIDTH > info.width {
        Writer { x_pos: 0, y_pos: next_line(cur.y_pos) }
    } else {
        cur
    }
}

/// A glyph at the cursor would run past the bottom: the screen is cleared.
pub open spec fn glyph_clears(info: FrameGeometry, cur: Writer) -> bool {
    wrapped(info, cur).y_pos + GLYPH_HEIGHT > info.height
}

/// Where a glyph written at the cursor is drawn.
pub open spec fn glyph_origin(info: FrameGeometry, cur: Writer) -> Writer {
    if glyph_clears(info, cur) {
        Writer { x_pos: 0, y_pos: 0 }
    } else {
        wrapped(info, cur)
    }
}

/// The cursor after writing `c`.
pub open spec fn cursor_after(info: FrameGeometry, cur: Writer, c: char) -> Writer {
    if c == '\n' {
        Writer { x_pos: 0, y_pos: next_line(cur.y_pos) }
    } else if c == '\r' {
        Writer { x_pos: 0, y_pos: cur.y_pos }
    } else if raster_of(c) is None {
        cur
    } else {
        Writer {
            x_pos: (glyph_origin(info, cur).x_pos + GLYPH_WIDTH) as usize,
            y_pos: glyph_origin(info, cur).y_pos,
        }
    }
}

/// The cursor after writing each character of `s` in turn.
pub open spec fn cursor_after_text(info: FrameGeometry, cur: Writer, s: Seq<char>) -> Writer
    decreases s.len(),
{
    if s.len() == 0 {
        cur
    } else {
        cursor_after(info, cursor_after_text(info, cur, s.drop_last()), s.last())
    }
}

/// Writing `c` with the cursor at `cur` clears the screen.
pub open spec fn char_clears(info: FrameGeometry, cur: Writer, c: char) -> bool {
    c != '\n' && c != '\r' && raster_of(c) is Some && glyph_clears(info, cur)
}

/// Writing `s` from the cursor `cur` clears the screen at some character.
pub open spec fn text_clears(info: FrameGeometry, cur: Writer, s: Seq<char>) -> bool
    decreases s.len(),
{
    if s.len() == 0 {
        false
    } else {
        text_clears(info, cur, s.drop_last()) || char_clears(
            info,
            cursor_after_text(info, cur, s.drop_last()),
            s.last(),
        )
    }
}

/// What pixel `(px, py)`, which showed `prev`, shows after `c` is written
/// with the cursor at `cur`.
pub open spec fn char_pixel(
    info: FrameGeometry,
    cur: Writer,
    c: char,
    px: int,
    py: int,
    prev: Seq<u8>,
) -> Seq<u8> {
    if c == '\n' || c == '\r' || raster_of(c) is None {
        prev
    } else {
        match glyph_pixel(
            raster_of(c)->0,
            glyph_origin(info, cur).x_pos as int,
            glyph_origin(info, cur).y_pos as int,
            px,
            py,
        ) {
            Some(v) => intensity_bytes(info, v),
            None => if glyph_clears(info, cur) {
                color_bytes(info.format, 0, 0, 0, info.bytes_per_pixel as int)
            } else {
                prev
            },
        }
    }
}

/// What pixel `(px, py)`, which showed `base`, shows after each character
/// of `s` is written in turn from the cursor `cur`.
pub open spec fn text_pixel(
    info: FrameGeometry,
    cur: Writer,
    s: Seq<char>,
    px: int,
    py: int,
    base: Seq<u8>,
) -> Seq<u8>
    decreases s.len(),
{
    if s.len() == 0 {
        base
    } else {
        char_pixel(
            info,
            cursor_after_text(info, cur, s.drop_last()),
            s.last(),
            px,
            py,
            text_pixel(info, cur, s.drop_last(), px, py, base),
        )
    }
}

/// The text cursor: where the next glyph is drawn.
#[derive(Clone, Copy, Debug, PartialEq, Eq, Structural)]
pub struct Writer {
    pub x_pos: usize,
    pub y_pos: usize,
}

/// The renderer: sole owner of the pixel buffer.
pub struct ScreenWriter {
    pub framebuffer: Vec<u8>,
    pub info: FrameGeometry,
    pub cursor: Writer,
    /// Where the left paddle was last drawn.
    pub previous_paddle_left_pos: usize,
    /// Where the right paddle was last drawn.
    pub previous_paddle_right_pos: usize,
}

/// The byte at position `i` of a colour in the given layout.
fn color_byte(format: PixelOrder, r: u8, g: u8, b: u8, i: usize) -> (v: u8)
    requires
        i < 4,
    ensures
        v == color_bytes(format, r, g, b, 4)[i as int],
{
    match (format, i) {
        (PixelOrder::Rgb, 0) => r,
        (PixelOrder::Bgr, 0) => b,
        (_, 1) => g,
        (PixelOrder::Rgb, 2) => b,
        (PixelOrder::Bgr, 2) => r,
        _ => 0,
    }
}

impl ScreenWriter {
    pub open spec fn wf(&self) -> bool {
        self.info.fits(self.framebuffer@.len() as int)
    }

    pub open spec fn fb(&self) -> Seq<u8> {
        self.framebuffer@
    }

    /// Everything but the pixel bytes is as in `other`.
    pub open spec fn same_state(&self, other: &ScreenWriter) -> bool {
        &&& self.info == other.info
        &&& self.cursor == other.cursor
        &&& self.previous_paddle_left_pos == other.previous_paddle_left_pos
        &&& self.previous_paddle_right_pos == other.previous_paddle_right_pos
        &&& self.framebuffer@.len() == other.framebuffer@.len()
        &&& hidden_as(self.info, other.framebuffer@, self.framebuffer@, false)
    }

    /// Every visible pixel is as in `before`, except those inside the
    /// rectangle, which show the colour.
    pub open spec fn rect_painted(
        &self,
        before: Seq<u8>,
        x: int,
        y: int,
        w: int,
        h: int,
        color: Seq<u8>,
    ) -> bool {
        forall|px: int, py: int|
            #![trigger pixel_of(self.framebuffer@, self.info, px, py)]
            self.info.on_screen(px, py) ==> pixel_of(self.framebuffer@, self.info, px, py) == if in_rect(
                x,
                y,
                w,
                h,
                px,
                py,
            ) {
                color
            } else {
                pixel_of(before, self.info, px, py)
            }
    }

    /// Every visible pixel is as in `before`, except those that one of the
    /// rectangles holds, which show the colour.
    pub open spec fn shape_painted(&self, before: Seq<u8>, rects: Seq<Rect>, color: Seq<u8>) -> bool {
        forall|px: int, py: int|
            #![trigger pixel_of(self.framebuffer@, self.info, px, py)]
            self.info.on_screen(px, py) ==> pixel_of(self.framebuffer@, self.info, px, py) == if covered(
                rects,
                px,
                py,
            ) {
                color
            } else {
                pixel_of(before, self.info, px, py)
            }
    }

    pub fn width(&self) -> (r: usize)
        ensures
            r == self.info.width,
    {
        self.info.width
    }

    pub fn height(&self) -> (r: usize)
        ensures
            r == self.info.height,
    {
        self.info.height
    }

    /// Sets pixel `(x, y)` to the colour `(r, g, b)`; a pixel off the screen
    /// is left out.
    pub fn draw_pixel(&mut self, x: usize, y: usize, r: u8, g: u8, b: u8)
        requires
            old(self).wf(),
        ensures
            final(self).wf(),
            final(self).same_state(old(self)),
            final(self).fb() == if old(self).info.on_screen(x as int, y as int) {
                paint(
                    old(self).fb(),
                    old(self).info,
                    x as int,
                    y as int,
                    color_bytes(old(self).info.format, r, g, b, old(self).info.bytes_per_pixel as int),
                )
            } else {
                old(self).fb()
            },
    {
        if x >= self.info.width || y >= self.info.height {
            return ;
        }
        let ghost info = self.info;
        let ghost before = self.framebuffer@;
        proof {
            lemma_pixel_in_frame(info, x as int, y as int);
        }
        let len = self.framebuffer.len();
        let bpp = self.info.bytes_per_pixel;
        let off = (y * self.info.stride + x) * bpp;
        let format = self.info.format;
        let ghost color = color_bytes(format, r, g, b, bpp as int);
        let mut i: usize = 0;
        while i < bpp
            invariant
                self.info == info,
                self.cursor == old(self).cursor,
                self.previous_paddle_left_pos == old(self).previous_paddle_left_pos,
                self.previous_paddle_right_pos == old(self).previous_paddle_right_pos,
                before == old(self).framebuffer@,
                bpp == info.bytes_per_pixel,
                format == info.format,
                off == info.offset(x as int, y as int),
                off + bpp <= before.len(),
                before.len() == len,
                color == color_bytes(format, r, g, b, bpp as int),
                1 <= bpp <= 4,
                i <= bpp,
                self.framebuffer@ == Seq::new(
                    before.len(),
                    |j: int|
                        if off <= j < off + i {
                            color[j - off]
                        } else {
                            before[j]
                        },
                ),
            decreases bpp - i,
        {
            let v = color_byte(format, r, g, b, i);
            self.framebuffer.set(off + i, v);
            i = i + 1;
            assert(self.framebuffer@ =~= Seq::new(
                before.len(),
                |j: int|
                    if off <= j < off + i {
                        color[j - off]
                    } else {
                        before[j]
                    },
            ));
        }
        assert(self.framebuffer@ =~= paint(before, info, x as int, y as int, color));
        assert forall|j: int|
            #![trigger info.visible_byte(j)]
            0 <= j < before.len() && !info.visible_byte(j) implies self.framebuffer@[j]
            == before[j] by {
            if off <= j < off + bpp {
                lemma_pixel_bytes_visible(info, x as int, y as int, j - off);
            }
        }
    }

    /// Fills the part of the rectangle with corner `(x, y)`, `w` wide and
    /// `h` high, that lies on the screen with the colour `(r, g, b)`.
    pub fn fill_rect(&mut self, x: usize, y: usize, w: usize, h: usize, r: u8, g: u8, b: u8)
        requires
            old(self).wf(),
        ensures
            final(self).wf(),
            final(self).same_state(old(self)),
            final(self).rect_painted(
                old(self).fb(),
                x as int,
                y as int,
                w as int,
                h as int,
                color_bytes(old(self).info.format, r, g, b, old(self).info.bytes_per_pixel as int),
            ),
    {
        let ghost before = self.framebuffer@;
        let ghost info = self.info;
        let ghost color = color_bytes(info.format, r, g, b, info.bytes_per_pixel as int);
        if x >= self.info.width || y >= self.info.height {
            return ;
        }
        let x_end = if w > self.info.width - x {
            self.info.width
        } else {
            x + w
        };
        let y_end = if h > self.info.height - y {
            self.info.height
        } else {
            y + h
        };
        let mut py = y;
        while py < y_end
            invariant
                self.wf(),
                self.same_state(old(self)),
                info == self.info,
                before == old(self).framebuffer@,
                color == color_bytes(info.format, r, g, b, info.bytes_per_pixel as int),
                y <= py <= y_end,
                y_end <= info.height,
                x <= x_end <= info.width,
                x_end == x + w || (x_end == info.width && x + w > info.width),
                y_end == y + h || (y_end == info.height && y + h > info.height),
                forall|qx: int, qy: int|
                    #![trigger pixel_of(self.framebuffer@, info, qx, qy)]
                    info.on_screen(qx, qy) ==> pixel_of(self.framebuffer@, info, qx, qy) == if x
                        <= qx < x_end && y <= qy < py {
                        color
                    } else {
                        pixel_of(before, info, qx, qy)
                    },
            decreases y_end - py,
        {
            let mut px = x;
            while px < x_end
                invariant
                    self.wf(),
                    self.same_state(old(self)),
                    info == self.info,
                    color == color_bytes(info.format, r, g, b, info.bytes_per_pixel as int),
                    y <= py < y_end,
                    y_end <= info.height,
                    x <= px <= x_end,
                    x_end <= info.width,
                    forall|qx: int, qy: int|
                        #![trigger pixel_of(self.framebuffer@, info, qx, qy)]
                        info.on_screen(qx, qy) ==> pixel_of(self.framebuffer@, info, qx, qy) == if (x
                            <= qx < x_end && y <= qy < py) || (qy == py && x <= qx < px) {
                            color
                        } else {
                            pixel_of(before, info, qx, qy)
                        },
                decreases x_end - px,
            {
                let ghost prev = self.framebuffer@;
                self.draw_pixel(px, py, r, g, b);
                proof {
                    assert forall|qx: int, qy: int| info.on_screen(qx, qy) implies pixel_of(
                        self.framebuffer@,
                        info,
                        qx,
                        qy,
                    ) == if (x <= qx < x_end && y <= qy < py) || (qy == py && x <= qx < px + 1) {
                        color
                    } else {
                        pixel_of(before, info, qx, qy)
                    } by {
                        lemma_paint_pixel(prev, info, px as int, py as int, color, qx, qy);
                    }
                }
                px = px + 1;
            }
            py = py + 1;
        }
    }

    /// Fills each rectangle of the list, in order, with `(r, g, b)`.
    pub fn fill_rects(&mut self, rects: &Vec<Rect>, r: u8, g: u8, b: u8)
        requires
            old(self).wf(),
        ensures
            final(self).wf(),
            final(self).same_state(old(self)),
            final(self).shape_painted(
                old(self).fb(),
                rects@,
                color_bytes(old(self).info.format, r, g, b, old(self).info.bytes_per_pixel as int),
            ),
    {
        let ghost before = self.framebuffer@;
        let ghost info = self.info;
        let ghost color = color_bytes(info.format, r, g, b, info.bytes_per_pixel as int);
        let mut i: usize = 0;
        while i < rects.len()
            invariant
                self.wf(),
                self.same_state(old(self)),
                info == self.info,
                before == old(self).framebuffer@,
                color == color_bytes(info.format, r, g, b, info.bytes_per_pixel as int),
                i <= rects@.len(),
                self.shape_painted(before, rects@.take(i as int), color),
            decreases rects@.len() - i,
        {
            let rect = rects[i];
            let ghost prev = self.framebuffer@;
            self.fill_rect(rect.x, rect.y, rect.w, rect.h, r, g, b);
            proof {
                assert(rects@.take(i + 1).drop_last() =~= rects@.take(i as int));
                assert forall|px: int, py: int| info.on_screen(px, py) implies pixel_of(
                    self.framebuffer@,
                    info,
                    px,
                    py,
                ) == if covered(rects@.take(i + 1), px, py) {
                    color
                } else {
                    pixel_of(before, info, px, py)
                } by {
                    assert(pixel_of(prev, info, px, py) == pixel_of(prev, info, px, py));
                }
            }
            i = i + 1;
        }
        assert(rects@.take(rects@.len() as int) =~= rects@);
    }

    /// Erases the whole screen and puts the text cursor in the top-left corner.
    pub fn clear(&mut self)
        requires
            old(self).wf(),
        ensures
            final(self).wf(),
            final(self).info == old(self).info,
            final(self).previous_paddle_left_pos == old(self).previous_paddle_left_pos,
            final(self).previous_paddle_right_pos == old(self).previous_paddle_right_pos,
            final(self).cursor == (Writer { x_pos: 0, y_pos: 0 }),
            final(self).fb() == Seq::new(old(self).fb().len(), |i: int| 0u8),
            hidden_as(old(self).info, old(self).fb(), final(self).fb(), true),
    {
        self.cursor = Writer { x_pos: 0, y_pos: 0 };
        let n = self.framebuffer.len();
        let mut i: usize = 0;
        while i < n
            invariant
                self.info == old(self).info,
                self.previous_paddle_left_pos == old(self).previous_paddle_left_pos,
                self.previous_paddle_right_pos == old(self).previous_paddle_right_pos,
                self.cursor == (Writer { x_pos: 0, y_pos: 0 }),
                n == old(self).framebuffer@.len(),
                i <= n,
                self.framebuffer@ == Seq::new(
                    n as nat,
                    |j: int|
                        if j < i {
                            0u8
                        } else {
                            old(self).framebuffer@[j]
                        },
                ),
            decreases n - i,
        {
            self.framebuffer.set(i, 0);
            i = i + 1;
            assert(self.framebuffer@ =~= Seq::new(
                n as nat,
                |j: int|
                    if j < i {
                        0u8
                    } else {
                        old(self).framebuffer@[j]
                    },
            ));
        }
        assert(self.framebuffer@ =~= Seq::new(old(self).fb().len(), |i: int| 0u8));
    }

    /// Moves the text cursor.
    pub fn set_position(&mut self, x: usize, y: usize)
        ensures
            final(self).cursor == (Writer { x_pos: x, y_pos: y }),
            final(self).framebuffer == old(self).framebuffer,
            final(self).info == old(self).info,
            final(self).previous_paddle_left_pos == old(self).previous_paddle_left_pos,
            final(self).previous_paddle_right_pos == old(self).previous_paddle_right_pos,
    {
        self.cursor = Writer { x_pos: x, y_pos: y };
    }

    /// Paints a paddle white: `width` wide and `height` high, from `(x_pos, y_pos)`.
    pub fn draw_pong_pad(&mut self, x_pos: usize, y_pos: usize, height: usize, width: usize)
        requires
            old(self).wf(),
        ensures
            final(self).wf(),
            final(self).same_state(old(self)),
            final(self).rect_painted(
                old(self).fb(),
                x_pos as int,
                y_pos as int,
                width as int,
                height as int,
                color_bytes(old(self).info.format, 255, 255, 255, old(self).info.bytes_per_pixel as int),
            ),
    {
        self.fill_rect(x_pos, y_pos, width, height, 255, 255, 255);
    }

    /// Erases a paddle: `width` wide and `height` high, from `(x_pos, y_pos)`.
    pub fn clear_pong_pad(&mut self, x_pos: usize, y_pos: usize, height: usize, width: usize)
        requires
            old(self).wf(),
        ensures
            final(self).wf(),
            final(self).same_state(old(self)),
            final(self).rect_painted(
                old(self).fb(),
                x_pos as int,
                y_pos as int,
                width as int,
                height as int,
                color_bytes(old(self).info.format, 0, 0, 0, old(self).info.bytes_per_pixel as int),
            ),
    {
        self.fill_rect(x_pos, y_pos, width, height, 0, 0, 0);
    }

    /// Paints the ball yellow: a square of side `size` from `(x, y)`.
    pub fn draw_ball(&mut self, x: usize, y: usize, size: usize)
        requires
            old(self).wf(),
        ensures
            final(self).wf(),
            final(self).same_state(old(self)),
            final(self).rect_painted(
                old(self).fb(),
                x as int,
                y as int,
                size as int,
                size as int,
                color_bytes(old(self).info.format, 255, 255, 0, old(self).info.bytes_per_pixel as int),
            ),
    {
        self.fill_rect(x, y, size, size, 255, 255, 0);
    }

    /// Erases the ball: a square of side `ball_size` from `(ball_x, ball_y)`.
    pub fn clear_ball(&mut self, ball_x: usize, ball_y: usize, ball_size: usize)
        requires
            old(self).wf(),
        ensures
            final(self).wf(),
            final(self).same_state(old(self)),
            final(self).rect_painted(
                old(self).fb(),
                ball_x as int,
                ball_y as int,
                ball_size as int,
                ball_size as int,
                color_bytes(old(self).info.format, 0, 0, 0, old(self).info.bytes_per_pixel as int),
            ),
    {
        self.fill_rect(ball_x, ball_y, ball_size, ball_size, 0, 0, 0);
    }

    /// Erases the box of side `size` from `(x, y)` that holds a score digit.
    pub fn clear_score(&mut self, x: usize, y: usize, size: usize)
        requires
            old(self).wf(),
        ensures
            final(self).wf(),
            final(self).same_state(old(self)),
            final(self).rect_painted(
                old(self).fb(),
                x as int,
                y as int,
                size as int,
                size as int,
                color_bytes(old(self).info.format, 0, 0, 0, old(self).info.bytes_per_pixel as int),
            ),
    {
        self.fill_rect(x, y, size, size, 0, 0, 0);
    }

    fn draw_digit(&mut self, d: usize, x: usize, y: usize, size: usize)
        requires
            old(self).wf(),
            x + size <= usize::MAX,
            y + size <= usize::MAX,
        ensures
            final(self).wf(),
            final(self).same_state(old(self)),
            final(self).shape_painted(
                old(self).fb(),
                digit_strokes(d as int, x as int, y as int, size as int),
                color_bytes(old(self).info.format, 255, 255, 255, old(self).info.bytes_per_pixel as int),
            ),
    {
        let strokes = digit_rects(d, x, y, size);
        self.fill_rects(&strokes, 255, 255, 255);
    }

    /// Draws a white 0 in the box of side `size` from `(x, y)`.
    pub fn draw_zero(&mut self, x: usize, y: usize, size: usize)
        requires
            old(self).wf(),
            x + size <= usize::MAX,
            y + size <= usize::MAX,
        ensures
            final(self).wf(),
            final(self).same_state(old(self)),
            final(self).shape_painted(
                old(self).fb(),
                digit_strokes(0, x as int, y as int, size as int),
                color_bytes(old(self).info.format, 255, 255, 255, old(self).info.bytes_per_pixel as int),
            ),
    {
        self.draw_digit(0, x, y, size);
    }

    /// Draws a white 1 in the box of side `size` from `(x, y)`.
    pub fn draw_one(&mut self, x: usize, y: usize, size: usize)
        requires
            old(self).wf(),
            x + size <= usize::MAX,
            y + size <= usize::MAX,
        ensures
            final(self).wf(),
            final(self).same_state(old(self)),
            final(self).shape_painted(
                old(self).fb(),
                digit_strokes(1, x as int, y as int, size as int),
                color_bytes(old(self).info.format, 255, 255, 255, old(self).info.bytes_per_pixel as int),
            ),
    {
        self.draw_digit(1, x, y, size);
    }

    /// Draws a white 2 in the box of side `size` from `(x, y)`.
    pub fn draw_two(&mut self, x: usize, y: usize, size: usize)
        requires
            old(self).wf(),
            x + size <= usize::MAX,
            y + size <= usize::MAX,
        ensures
            final(self).wf(),
            final(self).same_state(old(self)),
            final(self).shape_painted(
                old(self).fb(),
                digit_strokes(2, x as int, y as int, size as int),
                color_bytes(old(self).info.format, 255, 255, 255, old(self).info.bytes_per_pixel as int),
            ),
    {
        self.draw_digit(2, x, y, size);
    }

    /// Draws a white 3 in the box of side `size` from `(x, y)`.
    pub fn draw_three(&mut self, x: usize, y: usize, size: usize)
        requires
            old(self).wf(),
            x + size <= usize::MAX,
            y + size <= usize::MAX,
        ensures
            final(self).wf(),
            final(self).same_state(old(self)),
            final(self).shape_painted(
                old(self).fb(),
                digit_strokes(3, x as int, y as int, size as int),
                color_bytes(old(self).info.format, 255, 255, 255, old(self).info.bytes_per_pixel as int),
            ),
    {
        self.draw_digit(3, x, y, size);
    }

    /// Draws the dashed white line down the middle of the screen.
    pub fn draw_mid_line(&mut self)
        requires
            old(self).wf(),
            old(self).info.width >= DASH_WIDTH,
        ensures
            final(self).wf(),
            final(self).same_state(old(self)),
            final(self).shape_painted(
                old(self).fb(),
                mid_line_dashes(old(self).info),
                color_bytes(old(self).info.format, 255, 255, 255, old(self).info.bytes_per_pixel as int),
            ),
    {
        let ghost info = self.info;
        let x = (self.info.width - DASH_WIDTH) / 2;
        let gap = self.info.height / DASHES;
        let mut dashes: Vec<Rect> = Vec::new();
        let mut i: usize = 0;
        while i < DASHES
            invariant
                info == self.info,
                x == (info.width - DASH_WIDTH) / 2,
                gap == info.height as int / DASHES as int,
                i <= DASHES,
                dashes@ =~= mid_line_dashes(info).take(i as int),
            decreases DASHES - i,
        {
            assert(i * gap <= DASHES * gap) by (nonlinear_arith)
                requires
                    i < DASHES,
                    0 <= gap,
            ;
            proof {
                lemma_fundamental_div_mod(info.height as int, DASHES as int);
            }
            dashes.push(Rect { x, y: i * gap, w: DASH_WIDTH, h: DASH_HEIGHT });
            i = i + 1;
        }
        assert(dashes@ =~= mid_line_dashes(info));
        self.fill_rects(&dashes, 255, 255, 255);
    }

    /// Redraws the paddles at `paddle_left_pos` and `paddle_right_pos`,
    /// erasing and repainting only a paddle whose position changed since it
    /// was last drawn.
    pub fn draw_pong_game(&mut self, paddle_left_pos: usize, paddle_right_pos: usize)
        requires
            old(self).wf(),
            old(self).info.width >= PADDLE_WIDTH + PADDLE_INSET,
        ensures
            final(self).wf(),
            final(self).info == old(self).info,
            final(self).cursor == old(self).cursor,
            final(self).fb().len() == old(self).fb().len(),
            final(self).previous_paddle_left_pos == paddle_left_pos,
            final(self).previous_paddle_right_pos == paddle_right_pos,
            hidden_as(old(self).info, old(self).fb(), final(self).fb(), false),
            forall|px: int, py: int|
                #![trigger pixel_of(final(self).framebuffer@, old(self).info, px, py)]
                old(self).info.on_screen(px, py) ==> pixel_of(
                    final(self).framebuffer@,
                    old(self).info,
                    px,
                    py,
                ) == paddle_pixel(
                    old(self).info,
                    pixel_of(old(self).fb(), old(self).info, px, py),
                    px,
                    py,
                    old(self).previous_paddle_left_pos as int,
                    paddle_left_pos as int,
                    old(self).previous_paddle_right_pos as int,
                    paddle_right_pos as int,
                ),
    {
        let ghost info = self.info;
        let ghost f0 = self.framebuffer@;
        let left_x = PADDLE_INSET;
        let right_x = self.info.width - PADDLE_WIDTH - PADDLE_INSET;
        let old_left = self.previous_paddle_left_pos;
        let old_right = self.previous_paddle_right_pos;
        if paddle_left_pos != old_left {
            self.clear_pong_pad(left_x, old_left, PADDLE_HEIGHT, PADDLE_WIDTH);
            self.draw_pong_pad(left_x, paddle_left_pos, PADDLE_HEIGHT, PADDLE_WIDTH);
            self.previous_paddle_left_pos = paddle_left_pos;
        }
        let ghost f1 = self.framebuffer@;
        assert forall|px: int, py: int| info.on_screen(px, py) implies pixel_of(f1, info, px, py)
            == paddle_pixel(
            info,
            pixel_of(f0, info, px, py),
            px,
            py,
            old_left as int,
            paddle_left_pos as int,
            0,
            0,
        ) by {}
        if paddle_right_pos != old_right {
            self.clear_pong_pad(right_x, old_right, PADDLE_HEIGHT, PADDLE_WIDTH);
            self.draw_pong_pad(right_x, paddle_right_pos, PADDLE_HEIGHT, PADDLE_WIDTH);
            self.previous_paddle_right_pos = paddle_right_pos;
        }
        assert forall|px: int, py: int| info.on_screen(px, py) implies pixel_of(
            self.framebuffer@,
            info,
            px,
            py,
        ) == paddle_pixel(
            info,
            pixel_of(f0, info, px, py),
            px,
            py,
            old_left as int,
            paddle_left_pos as int,
            old_right as int,
            paddle_right_pos as int,
        ) by {
            assert(pixel_of(f1, info, px, py) == paddle_pixel(
                info,
                pixel_of(f0, info, px, py),
                px,
                py,
                old_left as int,
                paddle_left_pos as int,
                0,
                0,
            ));
        }
    }

    /// Sets pixel `(x, y)` to a text pixel of the given intensity; a pixel
    /// off the screen is left out.
    pub fn write_pixel(&mut self, x: usize, y: usize, intensity: u8)
        requires
            old(self).wf(),
        ensures
            final(self).wf(),
            final(self).same_state(old(self)),
            final(self).fb() == if old(self).info.on_screen(x as int, y as int) {
                paint(
                    old(self).fb(),
                    old(self).info,
                    x as int,
                    y as int,
                    intensity_bytes(old(self).info, intensity),
                )
            } else {
                old(self).fb()
            },
    {
        self.draw_pixel(x, y, intensity / 4, intensity, intensity / 2);
    }

    /// Draws a glyph with its top-left corner at the cursor, and moves the
    /// cursor past it.
    fn write_rendered_char(&mut self, glyph: &Glyph)
        requires
            old(self).wf(),
            old(self).cursor.x_pos + glyph.width <= usize::MAX,
        ensures
            final(self).wf(),
            final(self).info == old(self).info,
            final(self).fb().len() == old(self).fb().len(),
            final(self).previous_paddle_left_pos == old(self).previous_paddle_left_pos,
            final(self).previous_paddle_right_pos == old(self).previous_paddle_right_pos,
            final(self).cursor == (Writer {
                x_pos: (old(self).cursor.x_pos + glyph.width) as usize,
                y_pos: old(self).cursor.y_pos,
            }),
            hidden_as(old(self).info, old(self).fb(), final(self).fb(), false),
            forall|px: int, py: int|
                #![trigger pixel_of(final(self).framebuffer@, old(self).info, px, py)]
                old(self).info.on_screen(px, py) ==> pixel_of(
                    final(self).framebuffer@,
                    old(self).info,
                    px,
                    py,
                ) == match glyph_pixel(
                    glyph.rows.deep_view(),
                    old(self).cursor.x_pos as int,
                    old(self).cursor.y_pos as int,
                    px,
                    py,
                ) {
                    Some(v) => intensity_bytes(old(self).info, v),
                    None => pixel_of(old(self).fb(), old(self).info, px, py),
                },
    {
        let ghost info = self.info;
        let ghost before = self.framebuffer@;
        let ghost rows = glyph.rows.deep_view();
        let x0 = self.cursor.x_pos;
        let y0 = self.cursor.y_pos;
        let width = self.info.width;
        let height = self.info.height;
        let mut dy: usize = 0;
        while dy < glyph.rows.len()
            invariant
                self.wf(),
                self.same_state(old(self)),
                info == self.info,
                before == old(self).framebuffer@,
                rows == glyph.rows.deep_view(),
                x0 == old(self).cursor.x_pos,
                y0 == old(self).cursor.y_pos,
                width == info.width,
                height == info.height,
                dy <= rows.len(),
                forall|qx: int, qy: int|
                    #![trigger pixel_of(self.framebuffer@, info, qx, qy)]
                    info.on_screen(qx, qy) ==> pixel_of(self.framebuffer@, info, qx, qy) == match
                    glyph_pixel(rows, x0 as int, y0 as int, qx, qy) {
                        Some(v) => if qy - y0 < dy {
                            intensity_bytes(info, v)
                        } else {
                            pixel_of(before, info, qx, qy)
                        },
                        None => pixel_of(before, info, qx, qy),
                    },
            decreases rows.len() - dy,
        {
            let row = &glyph.rows[dy];
            let mut dx: usize = 0;
            while dx < row.len()
                invariant
                    self.wf(),
                    self.same_state(old(self)),
                    info == self.info,
                    rows == glyph.rows.deep_view(),
                    row@ == rows[dy as int],
                    x0 == old(self).cursor.x_pos,
                    y0 == old(self).cursor.y_pos,
                    width == info.width,
                    height == info.height,
                    dy < rows.len(),
                    dx <= row@.len(),
                    forall|qx: int, qy: int|
                        #![trigger pixel_of(self.framebuffer@, info, qx, qy)]
                        info.on_screen(qx, qy) ==> pixel_of(self.framebuffer@, info, qx, qy)
                            == match glyph_pixel(rows, x0 as int, y0 as int, qx, qy) {
                            Some(v) => if qy - y0 < dy || (qy - y0 == dy && qx - x0 < dx) {
                                intensity_bytes(info, v)
                            } else {
                                pixel_of(before, info, qx, qy)
                            },
                            None => pixel_of(before, info, qx, qy),
                        },
                decreases row@.len() - dx,
            {
                let v = row[dx];
                if x0 < width && dx < width - x0 && y0 < height && dy < height - y0 {
                    let ghost prev = self.framebuffer@;
                    self.write_pixel(x0 + dx, y0 + dy, v);
                    proof {
                        assert forall|qx: int, qy: int| info.on_screen(qx, qy) implies pixel_of(
                            self.framebuffer@,
                            info,
                            qx,
                            qy,
                        ) == match glyph_pixel(rows, x0 as int, y0 as int, qx, qy) {
                            Some(w) => if qy - y0 < dy || (qy - y0 == dy && qx - x0 < dx + 1) {
                                intensity_bytes(info, w)
                            } else {
                                pixel_of(before, info, qx, qy)
                            },
                            None => pixel_of(before, info, qx, qy),
                        } by {
                            lemma_paint_pixel(
                                prev,
                                info,
                                x0 + dx,
                                y0 + dy,
                                intensity_bytes(info, v),
                                qx,
                                qy,
                            );
                        }
                    }
                }
                dx = dx + 1;
            }
            dy = dy + 1;
        }
        self.cursor.x_pos = x0 + glyph.width;
    }

    fn newline(&mut self)
        ensures
            final(self).cursor == (Writer { x_pos: 0, y_pos: next_line(old(self).cursor.y_pos) }),
            final(self).framebuffer == old(self).framebuffer,
            final(self).info == old(self).info,
            final(self).previous_paddle_left_pos == old(self).previous_paddle_left_pos,
            final(self).previous_paddle_right_pos == old(self).previous_paddle_right_pos,
    {
        if self.cursor.y_pos > usize::MAX - (GLYPH_HEIGHT + LINE_SPACING) {
            self.cursor.y_pos = usize::MAX;
        } else {
            self.cursor.y_pos = self.cursor.y_pos + GLYPH_HEIGHT + LINE_SPACING;
        }
        self.carriage_return();
    }

    fn carriage_return(&mut self)
        ensures
            final(self).cursor == (Writer { x_pos: 0, y_pos: old(self).cursor.y_pos }),
            final(self).framebuffer == old(self).framebuffer,
            final(self).info == old(self).info,
            final(self).previous_paddle_left_pos == old(self).previous_paddle_left_pos,
            final(self).previous_paddle_right_pos == old(self).previous_paddle_right_pos,
    {
        self.cursor.x_pos = 0;
    }

    /// Writes one character at the cursor: a line feed or carriage return
    /// moves the cursor; a character that the font has is drawn, on a new
    /// line if it would cross the right edge, and on a cleared screen if it
    /// would run past the bottom; any other character is skipped.
    pub fn write_char(&mut self, c: char)
        requires
            old(self).wf(),
        ensures
            final(self).wf(),
            final(self).info == old(self).info,
            final(self).fb().len() == old(self).fb().len(),
            final(self).previous_paddle_left_pos == old(self).previous_paddle_left_pos,
            final(self).previous_paddle_right_pos == old(self).previous_paddle_right_pos,
            final(self).cursor == cursor_after(old(self).info, old(self).cursor, c),
            c != '\n' && c != '\r' && raster_of(c) is Some ==> {
                &&& raster_of(c)->0.len() == GLYPH_HEIGHT
                &&& forall|i: int|
                    0 <= i < GLYPH_HEIGHT ==> (#[trigger] raster_of(c)->0[i]).len() == GLYPH_WIDTH
            },
            hidden_as(
                old(self).info,
                old(self).fb(),
                final(self).fb(),
                char_clears(old(self).info, old(self).cursor, c),
            ),
            forall|px: int, py: int|
                #![trigger pixel_of(final(self).framebuffer@, old(self).info, px, py)]
                old(self).info.on_screen(px, py) ==> pixel_of(
                    final(self).framebuffer@,
                    old(self).info,
                    px,
                    py,
                ) == char_pixel(
                    old(self).info,
                    old(self).cursor,
                    c,
                    px,
                    py,
                    pixel_of(old(self).fb(), old(self).info, px, py),
                ),
    {
        if c == '\n' {
            self.newline();
        } else if c == '\r' {
            self.carriage_return();
        } else {
            match glyph_of(c) {
                Some(glyph) => {
                    assert forall|i: int| 0 <= i < GLYPH_HEIGHT implies (
                    #[trigger] raster_of(c)->0[i]).len() == GLYPH_WIDTH by {
                        assert(glyph.rows.deep_view()[i] =~= glyph.rows@[i]@);
                    }
                    if self.cursor.x_pos > self.info.width || glyph.width > self.info.width
                        - self.cursor.x_pos {
                        self.newline();
                    }
                    if self.cursor.y_pos > self.info.height || glyph.height > self.info.height
                        - self.cursor.y_pos {
                        let ghost info = self.info;
                        self.clear();
                        proof {
                            assert forall|px: int, py: int| info.on_screen(px, py) implies pixel_of(
                                self.framebuffer@,
                                info,
                                px,
                                py,
                            ) == color_bytes(info.format, 0, 0, 0, info.bytes_per_pixel as int) by {
                                lemma_cleared_pixel(self.framebuffer@, info, px, py);
                            }
                        }
                    }
                    self.write_rendered_char(&glyph);
                },
                None => {},
            }
        }
    }

    /// Writes each character of `s` in turn.
    pub fn write_str(&mut self, s: &str)
        requires
            old(self).wf(),
        ensures
            final(self).wf(),
            final(self).info == old(self).info,
            final(self).fb().len() == old(self).fb().len(),
            final(self).previous_paddle_left_pos == old(self).previous_paddle_left_pos,
            final(self).previous_paddle_right_pos == old(self).previous_paddle_right_pos,
            final(self).cursor == cursor_after_text(old(self).info, old(self).cursor, s@),
            hidden_as(
                old(self).info,
                old(self).fb(),
                final(self).fb(),
                text_clears(old(self).info, old(self).cursor, s@),
            ),
            forall|px: int, py: int|
                #![trigger pixel_of(final(self).framebuffer@, old(self).info, px, py)]
                old(self).info.on_screen(px, py) ==> pixel_of(
                    final(self).framebuffer@,
                    old(self).info,
                    px,
                    py,
                ) == text_pixel(
                    old(self).info,
                    old(self).cursor,
                    s@,
                    px,
                    py,
                    pixel_of(old(self).fb(), old(self).info, px, py),
                ),
    {
        let n = s.unicode_len();
        let mut i: usize = 0;
        while i < n
            invariant
                self.wf(),
                self.info == old(self).info,
                self.fb().len() == old(self).fb().len(),
                self.previous_paddle_left_pos == old(self).previous_paddle_left_pos,
                self.previous_paddle_right_pos == old(self).previous_paddle_right_pos,
                n == s@.len(),
                i <= n,
                self.cursor == cursor_after_text(old(self).info, old(self).cursor, s@.take(i as int)),
                hidden_as(
                    old(self).info,
                    old(self).fb(),
                    self.fb(),
                    text_clears(old(self).info, old(self).cursor, s@.take(i as int)),
                ),
                forall|px: int, py: int|
                    #![trigger pixel_of(self.framebuffer@, old(self).info, px, py)]
                    old(self).info.on_screen(px, py) ==> pixel_of(
                        self.framebuffer@,
                        old(self).info,
                        px,
                        py,
                    ) == text_pixel(
                        old(self).info,
                        old(self).cursor,
                        s@.take(i as int),
                        px,
                        py,
                        pixel_of(old(self).fb(), old(self).info, px, py),
                    ),
            decreases n - i,
        {
            let c = s.get_char(i);
            let ghost prev = self.framebuffer@;
            self.write_char(c);
            assert(s@.take(i + 1).drop_last() =~= s@.take(i as int));
            assert forall|px: int, py: int| old(self).info.on_screen(px, py) implies pixel_of(
                self.framebuffer@,
                old(self).info,
                px,
                py,
            ) == text_pixel(
                old(self).info,
                old(self).cursor,
                s@.take(i + 1),
                px,
                py,
                pixel_of(old(self).fb(), old(self).info, px, py),
            ) by {
                assert(pixel_of(prev, old(self).info, px, py) == pixel_of(prev, old(self).info, px, py));
            }
            i = i + 1;
        }
        assert(s@.take(n as int) =~= s@);
    }

    /// A renderer for the given buffer and layout, starting from a black
    /// screen with the cursor in the top-left corner.
    pub fn new(framebuffer: Vec<u8>, info: FrameGeometry) -> (r: ScreenWriter)
        requires
            info.fits(framebuffer@.len() as int),
        ensures
            r.wf(),
            r.info == info,
            r.cursor == (Writer { x_pos: 0, y_pos: 0 }),
            r.previous_paddle_left_pos == 0,
            r.previous_paddle_right_pos == 0,
            r.fb() == Seq::new(framebuffer@.len(), |i: int| 0u8),
    {
        let mut logger = ScreenWriter {
            framebuffer,
            info,
            cursor: Writer { x_pos: 0, y_pos: 0 },
            previous_paddle_left_pos: 0,
            previous_paddle_right_pos: 0,
        };
        logger.clear();
        logger
    }
}

} // verus!
