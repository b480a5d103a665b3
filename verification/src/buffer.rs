//! The pixel surface and the straight alpha-over compositing primitives.
//!
//! A `Buffer` is a row-major grid of RGBA colors. All compositing in the
//! library goes through `blend` (one pixel over another) and `overlay` (one
//! buffer over another at an offset, with silent clipping at the edges).

use vstd::prelude::*;
use vstd::arithmetic::div_mod::lemma_fundamental_div_mod;
use vstd::arithmetic::div_mod::lemma_fundamental_div_mod_converse;
use vstd::arithmetic::div_mod::lemma_multiply_divide_lt;

use crate::colors::Color;

verus! {

/// A row-major pixel grid of `width * height` RGBA colors.
#[derive(Debug)]
pub struct Buffer {
    pub width: u32,
    pub height: u32,
    pub data: Vec<Color>,
}

impl Buffer {
    /// The buffer holds exactly one color per pixel, and its byte size
    /// (four bytes per pixel) fits in a `usize`.
    pub open spec fn wf(self) -> bool {
        &&& self.data@.len() == (self.width as int) * (self.height as int)
        &&& 4 * (self.width as int) * (self.height as int) <= usize::MAX as int
    }
}

/// The color stored for the pixel at column `x`, row `y` of a row-major grid
/// that is `w` pixels wide.
pub open spec fn pixel_of(data: Seq<Color>, w: int, x: int, y: int) -> Color {
    data[y * w + x]
}

/// One channel of the straight alpha-over rule: the source channel weighted
/// by the source alpha, plus the destination channel weighted by the
/// remainder, in integer arithmetic over the 0..=255 range.
pub open spec fn blend_channel(s: u8, d: u8, a: u8) -> u8 {
    (((s as int) * (a as int) + (d as int) * (255 - a as int)) / 255) as u8
}

/// Straight alpha-over compositing of one source pixel over one destination
/// pixel: a fully transparent source leaves the destination unchanged, a
/// fully opaque source replaces it entirely, and a partial alpha blends the
/// two proportionally. The result alpha is the source alpha plus the part of
/// the destination alpha that shines through.
pub open spec fn blend_spec(src: Color, dst: Color) -> Color {
    Color {
        r: blend_channel(src.r, dst.r, src.a),
        g: blend_channel(src.g, dst.g, src.a),
        b: blend_channel(src.b, dst.b, src.a),
        a: (src.a as int + ((dst.a as int) * (255 - src.a as int)) / 255) as u8,
    }
}

/// The weighted sum of two channels stays within one channel's range.
proof fn lemma_channel_bound(s: int, d: int, a: int)
    requires
        0 <= s <= 255,
        0 <= d <= 255,
        0 <= a <= 255,
    ensures
        0 <= (s * a + d * (255 - a)) / 255 <= 255,
{
    assert(s * a + d * (255 - a) <= 255 * 255) by (nonlinear_arith)
        requires
            0 <= s <= 255,
            0 <= d <= 255,
            0 <= a <= 255,
    ;
    assert(0 <= s * a + d * (255 - a)) by (nonlinear_arith)
        requires
            0 <= s <= 255,
            0 <= d <= 255,
            0 <= a <= 255,
    ;
    assert((s * a + d * (255 - a)) / 255 <= 255int * 255 / 255) by {
        vstd::arithmetic::div_mod::lemma_div_is_ordered(s * a + d * (255 - a), 255int * 255, 255);
    }
}

/// The blended alpha stays within one channel's range.
proof fn lemma_alpha_bound(da: int, a: int)
    requires
        0 <= da <= 255,
        0 <= a <= 255,
    ensures
        0 <= (da * (255 - a)) / 255 <= 255 - a,
{
    assert(da * (255 - a) <= 255 * (255 - a)) by (nonlinear_arith)
        requires
            0 <= da <= 255,
            0 <= a <= 255,
    ;
    assert(0 <= da * (255 - a)) by (nonlinear_arith)
        requires
            0 <= da <= 255,
            0 <= a <= 255,
    ;
    assert((da * (255 - a)) / 255 <= (255 * (255 - a)) / 255) by {
        vstd::arithmetic::div_mod::lemma_div_is_ordered(da * (255 - a), 255 * (255 - a), 255);
    }
    assert((255 * (255 - a)) / 255 == 255 - a) by {
        vstd::arithmetic::div_mod::lemma_div_multiples_vanish(255 - a, 255);
    }
}

/// Straight alpha-over compositing of `src` over `dst`, in executable form.
pub fn blend(src: Color, dst: Color) -> (r: Color)
    ensures
        r == blend_spec(src, dst),
{
    let a: u32 = src.a as u32;
    proof {
        lemma_channel_bound(src.r as int, dst.r as int, src.a as int);
        lemma_channel_bound(src.g as int, dst.g as int, src.a as int);
        lemma_channel_bound(src.b as int, dst.b as int, src.a as int);
        lemma_alpha_bound(dst.a as int, src.a as int);
    }
    let r = ((src.r as u32 * a + dst.r as u32 * (255 - a)) / 255) as u8;
    let g = ((src.g as u32 * a + dst.g as u32 * (255 - a)) / 255) as u8;
    let b = ((src.b as u32 * a + dst.b as u32 * (255 - a)) / 255) as u8;
    let out_a = (a + dst.a as u32 * (255 - a) / 255) as u8;
    Color { r, g, b, a: out_a }
}

/// A fully transparent source pixel leaves the destination pixel unchanged.
pub proof fn lemma_blend_transparent(src: Color, dst: Color)
    requires
        src.a == 0,
    ensures
        blend_spec(src, dst) == dst,
{
    assert((dst.r as int * 255) / 255 == dst.r as int) by {
        vstd::arithmetic::div_mod::lemma_div_multiples_vanish(dst.r as int, 255);
    }
    assert((dst.g as int * 255) / 255 == dst.g as int) by {
        vstd::arithmetic::div_mod::lemma_div_multiples_vanish(dst.g as int, 255);
    }
    assert((dst.b as int * 255) / 255 == dst.b as int) by {
        vstd::arithmetic::div_mod::lemma_div_multiples_vanish(dst.b as int, 255);
    }
    assert((dst.a as int * 255) / 255 == dst.a as int) by {
        vstd::arithmetic::div_mod::lemma_div_multiples_vanish(dst.a as int, 255);
    }
}

/// A fully opaque source pixel replaces the destination pixel entirely.
pub proof fn lemma_blend_opaque(src: Color, dst: Color)
    requires
        src.a == 255,
    ensures
        blend_spec(src, dst) == src,
{
    assert((src.r as int * 255) / 255 == src.r as int) by {
        vstd::arithmetic::div_mod::lemma_div_multiples_vanish(src.r as int, 255);
    }
    assert((src.g as int * 255) / 255 == src.g as int) by {
        vstd::arithmetic::div_mod::lemma_div_multiples_vanish(src.g as int, 255);
    }
    assert((src.b as int * 255) / 255 == src.b as int) by {
        vstd::arithmetic::div_mod::lemma_div_multiples_vanish(src.b as int, 255);
    }
}

/// A sequence of `n` copies of one color: the state of a freshly filled
/// surface.
pub open spec fn solid_spec(n: int, c: Color) -> Seq<Color> {
    Seq::new(n as nat, |i: int| c)
}

/// A pixel's row-major index stays below the grid's area.
pub proof fn lemma_index_in_grid(w: int, h: int, x: int, y: int)
    requires
        0 <= x < w,
        0 <= y < h,
    ensures
        0 <= y * w + x < w * h,
        y * w + x < w * h <= 4 * w * h,
{
    assert(0 <= y * w + x < w * h) by (nonlinear_arith)
        requires
            0 <= x < w,
            0 <= y < h,
    ;
    assert(w * h <= 4 * w * h) by (nonlinear_arith)
        requires
            0 < w,
            0 < h,
    ;
}

/// A row-major index decomposes into its column and row, and does so
/// uniquely.
proof fn lemma_rowmajor(w: int, x: int, y: int)
    requires
        0 <= x < w,
        0 <= y,
    ensures
        (y * w + x) / w == y,
        (y * w + x) % w == x,
{
    lemma_fundamental_div_mod_converse(y * w + x, w, y, x);
}

/// Whether the pixel at `(px, py)` lies under a `sw * sh` element placed at
/// offset `(x, y)`.
pub open spec fn in_region(x: int, y: int, sw: int, sh: int, px: int, py: int) -> bool {
    x <= px < x + sw && y <= py < y + sh
}

/// The color of one destination pixel after a `sw * sh` source grid is
/// composited over the destination at offset `(x, y)`: pixels under the
/// source are alpha-over blended, all others keep their color.
pub open spec fn overlay_pixel(
    dst: Seq<Color>,
    w: int,
    src: Seq<Color>,
    sw: int,
    sh: int,
    x: int,
    y: int,
    px: int,
    py: int,
) -> Color {
    if in_region(x, y, sw, sh, px, py) {
        blend_spec(pixel_of(src, sw, px - x, py - y), pixel_of(dst, w, px, py))
    } else {
        pixel_of(dst, w, px, py)
    }
}

/// The whole destination grid after a source grid is composited over it at
/// offset `(x, y)`. Source pixels that fall outside the destination are
/// silently clipped, since only destination indices exist in the result.
pub open spec fn overlay_spec(
    dst: Seq<Color>,
    w: int,
    src: Seq<Color>,
    sw: int,
    sh: int,
    x: int,
    y: int,
) -> Seq<Color> {
    Seq::new(dst.len(), |p: int| overlay_pixel(dst, w, src, sw, sh, x, y, p % w, p / w))
}

/// The color of one destination pixel midway through compositing, after the
/// first `rows` full source rows and `cols` pixels of the next row have been
/// applied.
spec fn overlay_partial_pixel(
    dst: Seq<Color>,
    w: int,
    src: Seq<Color>,
    sw: int,
    sh: int,
    x: int,
    y: int,
    rows: int,
    cols: int,
    px: int,
    py: int,
) -> Color {
    if in_region(x, y, sw, sh, px, py) && (py - y < rows || (py - y == rows && px - x < cols)) {
        blend_spec(pixel_of(src, sw, px - x, py - y), pixel_of(dst, w, px, py))
    } else {
        pixel_of(dst, w, px, py)
    }
}

/// The pixels of the sub-rectangle of a grid that starts at `(x, y)` and is
/// `cw` columns by `ch` rows, in row-major order.
pub open spec fn crop_spec(src: Seq<Color>, sw: int, x: int, y: int, cw: int, ch: int) -> Seq<
    Color,
> {
    Seq::new((cw * ch) as nat, |p: int| pixel_of(src, sw, x + p % cw, y + p / cw))
}

/// One channel of a color, in storage order: red, green, blue, alpha.
pub open spec fn channel_of(c: Color, k: int) -> u8 {
    if k == 0 {
        c.r
    } else if k == 1 {
        c.g
    } else if k == 2 {
        c.b
    } else {
        c.a
    }
}

/// The raw byte stream of a pixel sequence: four bytes per pixel, in RGBA
/// order.
pub open spec fn bytes_of(data: Seq<Color>) -> Seq<u8> {
    Seq::new((4 * data.len()) as nat, |i: int| channel_of(data[i / 4], i % 4))
}

/// The pixel sequence read back from a raw RGBA byte stream.
pub open spec fn colors_of(bytes: Seq<u8>) -> Seq<Color> {
    Seq::new(
        (bytes.len() / 4) as nat,
        |p: int| Color { r: bytes[4 * p], g: bytes[4 * p + 1], b: bytes[4 * p + 2], a: bytes[4 * p + 3] },
    )
}

/// Equal row-major indices name the same pixel.
proof fn lemma_index_injective(w: int, x1: int, y1: int, x2: int, y2: int)
    requires
        0 <= x1 < w,
        0 <= x2 < w,
        0 <= y1,
        0 <= y2,
        y1 * w + x1 == y2 * w + x2,
    ensures
        x1 == x2,
        y1 == y2,
{
    lemma_rowmajor(w, x1, y1);
    lemma_rowmajor(w, x2, y2);
}

/// Reading `overlay_spec` at a pixel gives `overlay_pixel` of that pixel.
pub proof fn lemma_overlay_spec_pixel(
    dst: Seq<Color>,
    w: int,
    h: int,
    src: Seq<Color>,
    sw: int,
    sh: int,
    x: int,
    y: int,
    px: int,
    py: int,
)
    requires
        w > 0,
        dst.len() == w * h,
        0 <= px < w,
        0 <= py < h,
    ensures
        pixel_of(overlay_spec(dst, w, src, sw, sh, x, y), w, px, py) == overlay_pixel(
            dst,
            w,
            src,
            sw,
            sh,
            x,
            y,
            px,
            py,
        ),
{
    lemma_index_in_grid(w, h, px, py);
    lemma_rowmajor(w, px, py);
}

/// Two same-width grids of the same size whose pixels agree everywhere are
/// equal as sequences.
pub proof fn lemma_grid_pointwise_eq(a: Seq<Color>, b: Seq<Color>, w: int, h: int)
    requires
        w > 0,
        h >= 0,
        a.len() == w * h,
        b.len() == a.len(),
        forall|px: int, py: int|
            0 <= px < w && 0 <= py < h ==> pixel_of(a, w, px, py) == pixel_of(b, w, px, py),
    ensures
        a == b,
{
    assert forall|p: int| 0 <= p < a.len() implies a[p] == b[p] by {
        let px = p % w;
        let py = p / w;
        lemma_fundamental_div_mod(p, w);
        vstd::arithmetic::div_mod::lemma_mod_bound(p, w);
        vstd::arithmetic::div_mod::lemma_div_pos_is_pos(p, w);
        lemma_multiply_divide_lt(p, w, h);
        assert(a[p] == pixel_of(a, w, px, py));
        assert(b[p] == pixel_of(b, w, px, py));
    }
    assert(a =~= b);
}

impl Buffer {
    /// Allocates a `width * height` surface with every pixel set to `color`.
    pub fn from_pixel(width: u32, height: u32, color: Color) -> (b: Buffer)
        requires
            4 * (width as int) * (height as int) <= usize::MAX as int,
        ensures
            b.wf(),
            b.width == width,
            b.height == height,
            b.data@ == solid_spec((width as int) * (height as int), color),
    {
        proof {
            assert((width as int) * (height as int) <= 4 * (width as int) * (height as int))
                by (nonlinear_arith)
                requires
                    0 <= width as int,
                    0 <= height as int,
            ;
        }
        let n: usize = (width as usize) * (height as usize);
        let mut data: Vec<Color> = Vec::new();
        for i in 0..n
            invariant
                data@.len() == i,
                forall|j: int| 0 <= j < i ==> data@[j] == color,
        {
            data.push(color);
        }
        let b = Buffer { width, height, data };
        proof {
            assert(b.data@ =~= solid_spec((width as int) * (height as int), color));
        }
        b
    }

    /// Reads the pixel at column `x`, row `y`.
    pub fn get_pixel(&self, x: u32, y: u32) -> (c: Color)
        requires
            self.wf(),
            x < self.width,
            y < self.height,
        ensures
            c == pixel_of(self.data@, self.width as int, x as int, y as int),
    {
        proof {
            lemma_index_in_grid(self.width as int, self.height as int, x as int, y as int);
        }
        let idx: usize = (y as usize) * (self.width as usize) + (x as usize);
        self.data[idx]
    }

    /// Writes the pixel at column `x`, row `y`, leaving every other pixel
    /// unchanged.
    pub fn set_pixel(&mut self, x: u32, y: u32, color: Color)
        requires
            old(self).wf(),
            x < old(self).width,
            y < old(self).height,
        ensures
            final(self).wf(),
            final(self).width == old(self).width,
            final(self).height == old(self).height,
            final(self).data@ == old(self).data@.update(
                (y as int) * (old(self).width as int) + (x as int),
                color,
            ),
    {
        proof {
            lemma_index_in_grid(self.width as int, self.height as int, x as int, y as int);
        }
        let idx: usize = (y as usize) * (self.width as usize) + (x as usize);
        self.data.set(idx, color);
    }
}

/// Composites `src` over `dst` at offset `(x, y)` with straight alpha-over
/// blending. Source pixels that fall outside `dst` are silently clipped;
/// an offset that places the whole source outside leaves `dst` unchanged.
pub fn overlay(dst: &mut Buffer, src: &Buffer, x: u32, y: u32)
    requires
        old(dst).wf(),
        old(dst).width > 0,
        src.wf(),
    ensures
        final(dst).wf(),
        final(dst).width == old(dst).width,
        final(dst).height == old(dst).height,
        final(dst).data@ == overlay_spec(
            old(dst).data@,
            old(dst).width as int,
            src.data@,
            src.width as int,
            src.height as int,
            x as int,
            y as int,
        ),
{
    let w = dst.width;
    let h = dst.height;
    let sw = src.width;
    let sh = src.height;
    let ghost dst0 = dst.data@;
    for sy in 0..sh
        invariant
            dst.wf(),
            dst.width == w,
            dst.height == h,
            w > 0,
            src.wf(),
            src.width == sw,
            src.height == sh,
            dst.data@.len() == dst0.len(),
            dst0.len() == (w as int) * (h as int),
            forall|px: int, py: int|
                0 <= px < w as int && 0 <= py < h as int ==> pixel_of(
                    dst.data@,
                    w as int,
                    px,
                    py,
                ) == overlay_partial_pixel(
                    dst0,
                    w as int,
                    src.data@,
                    sw as int,
                    sh as int,
                    x as int,
                    y as int,
                    sy as int,
                    0,
                    px,
                    py,
                ),
    {
        for sx in 0..sw
            invariant
                dst.wf(),
                dst.width == w,
                dst.height == h,
                w > 0,
                src.wf(),
                src.width == sw,
                src.height == sh,
                sy < sh,
                dst.data@.len() == dst0.len(),
                dst0.len() == (w as int) * (h as int),
                forall|px: int, py: int|
                    0 <= px < w as int && 0 <= py < h as int ==> pixel_of(
                        dst.data@,
                        w as int,
                        px,
                        py,
                    ) == overlay_partial_pixel(
                        dst0,
                        w as int,
                        src.data@,
                        sw as int,
                        sh as int,
                        x as int,
                        y as int,
                        sy as int,
                        sx as int,
                        px,
                        py,
                    ),
        {
            let tx = x as u64 + sx as u64;
            let ty = y as u64 + sy as u64;
            let ghost pre = dst.data@;
            if tx < w as u64 && ty < h as u64 {
                let txs = tx as u32;
                let tys = ty as u32;
                let sc = src.get_pixel(sx, sy);
                let dc = dst.get_pixel(txs, tys);
                let c = blend(sc, dc);
                dst.set_pixel(txs, tys, c);
                proof {
                    lemma_index_in_grid(w as int, h as int, txs as int, tys as int);
                    assert forall|px: int, py: int|
                        0 <= px < w as int && 0 <= py < h as int implies pixel_of(
                        dst.data@,
                        w as int,
                        px,
                        py,
                    ) == overlay_partial_pixel(
                        dst0,
                        w as int,
                        src.data@,
                        sw as int,
                        sh as int,
                        x as int,
                        y as int,
                        sy as int,
                        sx as int + 1,
                        px,
                        py,
                    ) by {
                        lemma_index_in_grid(w as int, h as int, px, py);
                        if py * (w as int) + px == (tys as int) * (w as int) + (txs as int) {
                            lemma_index_injective(w as int, px, py, txs as int, tys as int);
                        } else {
                            assert(pixel_of(dst.data@, w as int, px, py) == pixel_of(
                                pre,
                                w as int,
                                px,
                                py,
                            ));
                        }
                    }
                }
            } else {
                proof {
                    assert forall|px: int, py: int|
                        0 <= px < w as int && 0 <= py < h as int implies overlay_partial_pixel(
                        dst0,
                        w as int,
                        src.data@,
                        sw as int,
                        sh as int,
                        x as int,
                        y as int,
                        sy as int,
                        sx as int,
                        px,
                        py,
                    ) == overlay_partial_pixel(
                        dst0,
                        w as int,
                        src.data@,
                        sw as int,
                        sh as int,
                        x as int,
                        y as int,
                        sy as int,
                        sx as int + 1,
                        px,
                        py,
                    ) by {}
                }
            }
        }
    }
    proof {
        let wi = w as int;
        let hi = h as int;
        let swi = sw as int;
        let shi = sh as int;
        let result = overlay_spec(dst0, wi, src.data@, swi, shi, x as int, y as int);
        assert forall|px: int, py: int|
            0 <= px < wi && 0 <= py < hi implies pixel_of(dst.data@, wi, px, py) == pixel_of(
            result,
            wi,
            px,
            py,
        ) by {
            lemma_overlay_spec_pixel(
                dst0,
                wi,
                hi,
                src.data@,
                swi,
                shi,
                x as int,
                y as int,
                px,
                py,
            );
        }
        lemma_grid_pointwise_eq(dst.data@, result, wi, hi);
    }
}

/// Extracts the `cw * ch` sub-rectangle of `src` that starts at `(x, y)`.
/// A region that exceeds the source dimensions is refused by the caller, not
/// clamped, so the precondition demands that it fits.
pub fn crop(src: &Buffer, x: u32, y: u32, cw: u32, ch: u32) -> (r: Buffer)
    requires
        src.wf(),
        x as int + cw as int <= src.width as int,
        y as int + ch as int <= src.height as int,
    ensures
        r.wf(),
        r.width == cw,
        r.height == ch,
        r.data@ == crop_spec(
            src.data@,
            src.width as int,
            x as int,
            y as int,
            cw as int,
            ch as int,
        ),
{
    proof {
        assert(4 * (cw as int) * (ch as int) <= 4 * (src.width as int) * (src.height as int))
            by (nonlinear_arith)
            requires
                0 <= cw as int <= src.width as int,
                0 <= ch as int <= src.height as int,
        ;
    }
    let mut data: Vec<Color> = Vec::new();
    proof {
        assert(0int * (cw as int) == 0) by (nonlinear_arith);
    }
    for cy in 0..ch
        invariant
            src.wf(),
            x as int + cw as int <= src.width as int,
            y as int + ch as int <= src.height as int,
            data@.len() == cy as int * cw as int,
            4 * (cw as int) * (ch as int) <= usize::MAX as int,
            forall|p: int|
                0 <= p < data@.len() ==> data@[p] == pixel_of(
                    src.data@,
                    src.width as int,
                    x as int + p % (cw as int),
                    y as int + p / (cw as int),
                ),
    {
        for cx in 0..cw
            invariant
                src.wf(),
                x as int + cw as int <= src.width as int,
                y as int + ch as int <= src.height as int,
                cy < ch,
                data@.len() == cy as int * cw as int + cx as int,
                4 * (cw as int) * (ch as int) <= usize::MAX as int,
                forall|p: int|
                    0 <= p < data@.len() ==> data@[p] == pixel_of(
                        src.data@,
                        src.width as int,
                        x as int + p % (cw as int),
                        y as int + p / (cw as int),
                    ),
        {
            proof {
                lemma_index_in_grid(cw as int, ch as int, cx as int, cy as int);
            }
            let c = src.get_pixel(x + cx, y + cy);
            data.push(c);
            proof {
                lemma_rowmajor(cw as int, cx as int, cy as int);
            }
        }
        proof {
            assert((cy as int + 1) * (cw as int) == cy as int * cw as int + cw as int)
                by (nonlinear_arith);
        }
    }
    let r = Buffer { width: cw, height: ch, data };
    proof {
        let spec_r = crop_spec(
            src.data@,
            src.width as int,
            x as int,
            y as int,
            cw as int,
            ch as int,
        );
        assert((cw as int) * (ch as int) == (ch as int) * (cw as int)) by (nonlinear_arith);
        assert(r.data@ =~= spec_r);
    }
    r
}

impl Buffer {
    /// The buffer's pixels as a raw RGBA byte stream, four bytes per pixel in
    /// row-major order: the layout handed to the PNG encoder.
    pub fn to_raw(&self) -> (r: Vec<u8>)
        requires
            self.wf(),
        ensures
            r@ == bytes_of(self.data@),
            r@.len() == 4 * self.data@.len(),
    {
        let n = self.data.len();
        let mut raw: Vec<u8> = Vec::new();
        for p in 0..n
            invariant
                self.wf(),
                n == self.data@.len(),
                raw@.len() == 4 * p,
                forall|i: int|
                    0 <= i < raw@.len() ==> raw@[i] == channel_of(self.data@[i / 4], i % 4),
        {
            let c = self.data[p];
            raw.push(c.r);
            raw.push(c.g);
            raw.push(c.b);
            raw.push(c.a);
            proof {
                lemma_rowmajor(4, 0, p as int);
                lemma_rowmajor(4, 1, p as int);
                lemma_rowmajor(4, 2, p as int);
                lemma_rowmajor(4, 3, p as int);
            }
        }
        proof {
            assert(raw@ =~= bytes_of(self.data@));
        }
        raw
    }

    /// Rebuilds a buffer from a raw RGBA byte stream of exactly
    /// `width * height` pixels.
    pub fn from_raw(width: u32, height: u32, bytes: &Vec<u8>) -> (r: Buffer)
        requires
            bytes@.len() == 4 * (width as int) * (height as int),
        ensures
            r.wf(),
            r.width == width,
            r.height == height,
            r.data@ == colors_of(bytes@),
    {
        proof {
            assert((width as int) * (height as int) <= 4 * (width as int) * (height as int))
                by (nonlinear_arith)
                requires
                    0 <= width as int,
                    0 <= height as int,
            ;
        }
        proof {
            assert(4 * (width as int) * (height as int) == 4 * ((width as int) * (height as int)))
                by (nonlinear_arith);
        }
        let nb: usize = bytes.len();
        let n: usize = (width as usize) * (height as usize);
        let mut data: Vec<Color> = Vec::new();
        for p in 0..n
            invariant
                bytes@.len() == nb,
                nb as int == 4 * ((width as int) * (height as int)),
                n == (width as int) * (height as int),
                data@.len() == p,
                forall|j: int|
                    0 <= j < data@.len() ==> data@[j] == (Color {
                        r: bytes@[4 * j],
                        g: bytes@[4 * j + 1],
                        b: bytes@[4 * j + 2],
                        a: bytes@[4 * j + 3],
                    }),
        {
            proof {
                assert(4 * (p as int) + 3 < nb as int);
            }
            let c = Color {
                r: bytes[4 * p],
                g: bytes[4 * p + 1],
                b: bytes[4 * p + 2],
                a: bytes[4 * p + 3],
            };
            data.push(c);
        }
        let r = Buffer { width, height, data };
        proof {
            let wh = (width as int) * (height as int);
            assert((4 * wh) / 4 == wh) by {
                vstd::arithmetic::div_mod::lemma_div_multiples_vanish(wh, 4);
            }
            assert(r.data@ =~= colors_of(bytes@));
        }
        r
    }
}

/// Cropping the full source rectangle copies the source unchanged.
pub proof fn lemma_crop_identity(data: Seq<Color>, w: int, h: int)
    requires
        w >= 0,
        h >= 0,
        data.len() == w * h,
    ensures
        crop_spec(data, w, 0, 0, w, h) == data,
{
    let c = crop_spec(data, w, 0, 0, w, h);
    if data.len() == 0 {
        assert(c =~= data);
        return ;
    }
    assert(w > 0 && h > 0) by (nonlinear_arith)
        requires
            w >= 0,
            h >= 0,
            w * h > 0,
    ;
    assert forall|p: int| 0 <= p < data.len() implies c[p] == data[p] by {
        lemma_fundamental_div_mod(p, w);
        vstd::arithmetic::div_mod::lemma_mod_bound(p, w);
        vstd::arithmetic::div_mod::lemma_div_pos_is_pos(p, w);
        lemma_multiply_divide_lt(p, w, h);
        assert(c[p] == pixel_of(data, w, p % w, p / w));
    }
    assert(c =~= data);
}

/// Compositing a fully transparent source grid leaves the destination
/// unchanged, pixel for pixel.
pub proof fn lemma_overlay_transparent_source(
    dst: Seq<Color>,
    w: int,
    h: int,
    src: Seq<Color>,
    sw: int,
    sh: int,
    x: int,
    y: int,
)
    requires
        w > 0,
        h >= 0,
        sw >= 0,
        sh >= 0,
        dst.len() == w * h,
        src.len() == sw * sh,
        forall|i: int| 0 <= i < src.len() ==> src[i].a == 0,
    ensures
        overlay_spec(dst, w, src, sw, sh, x, y) == dst,
{
    let result = overlay_spec(dst, w, src, sw, sh, x, y);
    assert forall|px: int, py: int|
        0 <= px < w && 0 <= py < h implies pixel_of(result, w, px, py) == pixel_of(
        dst,
        w,
        px,
        py,
    ) by {
        lemma_overlay_spec_pixel(dst, w, h, src, sw, sh, x, y, px, py);
        if in_region(x, y, sw, sh, px, py) {
            lemma_index_in_grid(sw, sh, px - x, py - y);
            lemma_blend_transparent(
                pixel_of(src, sw, px - x, py - y),
                pixel_of(dst, w, px, py),
            );
        }
    }
    lemma_grid_pointwise_eq(result, dst, w, h);
}

/// A source whose placement offset lies at or beyond the destination's
/// right or bottom edge is clipped in full: the destination is unchanged.
pub proof fn lemma_overlay_fully_outside(
    dst: Seq<Color>,
    w: int,
    h: int,
    src: Seq<Color>,
    sw: int,
    sh: int,
    x: int,
    y: int,
)
    requires
        w > 0,
        h >= 0,
        dst.len() == w * h,
        x >= w || y >= h,
    ensures
        overlay_spec(dst, w, src, sw, sh, x, y) == dst,
{
    let result = overlay_spec(dst, w, src, sw, sh, x, y);
    assert forall|px: int, py: int|
        0 <= px < w && 0 <= py < h implies pixel_of(result, w, px, py) == pixel_of(
        dst,
        w,
        px,
        py,
    ) by {
        lemma_overlay_spec_pixel(dst, w, h, src, sw, sh, x, y, px, py);
    }
    lemma_grid_pointwise_eq(result, dst, w, h);
}

} // verus!
