//! The integer part of drawing the timer text: turning a glyph coverage map
//! into premultiplied BGRA pixels with an outline, and placing the bitmap
//! over the game window.
//!
//! Glyph outlines, the gradient colors and the fade factor are floating
//! point and come from the caller: a color for each row, and the faded alpha
//! for each coverage value.

use vstd::prelude::*;
use vstd::arithmetic::div_mod::lemma_fundamental_div_mod_converse;

verus! {

/// Transparent border (in addition to the outline radius) around the text.
pub const PAD: u32 = 4;

/// A rasterized text bitmap ready for a layered window.
pub struct Glyph {
    pub w: u32,
    pub h: u32,
    /// `w * h * 4` bytes, BGRA, premultiplied alpha.
    pub bgra_premul: Vec<u8>,
}

/// Coverage at `(x, y)`; zero outside the bitmap.
pub open spec fn cov_at(cov: Seq<u8>, w: int, h: int, x: int, y: int) -> nat {
    if 0 <= x < w && 0 <= y < h {
        cov[y * w + x] as nat
    } else {
        0
    }
}

/// Coverage at offset `(dx, dy)` from `(px, py)` when the offset lies in the
/// disk of radius `r`, else zero.
pub open spec fn disk_cell(cov: Seq<u8>, w: int, h: int, r: int, px: int, py: int, dx: int, dy: int) -> nat {
    if dx * dx + dy * dy > r * r {
        0
    } else {
        cov_at(cov, w, h, px + dx, py + dy)
    }
}

pub open spec fn max_nat(a: nat, b: nat) -> nat {
    if a >= b {
        a
    } else {
        b
    }
}

/// Largest disk cell of row `dy` with `dx` in `-r .. end`.
pub open spec fn row_max(
    cov: Seq<u8>,
    w: int,
    h: int,
    r: int,
    px: int,
    py: int,
    dy: int,
    end: int,
) -> nat
    decreases end + r,
{
    if end <= -r {
        0
    } else {
        max_nat(row_max(cov, w, h, r, px, py, dy, end - 1), disk_cell(cov, w, h, r, px, py, end - 1, dy))
    }
}

/// Largest disk cell of rows `dy` in `-r .. end`.
pub open spec fn disk_max(cov: Seq<u8>, w: int, h: int, r: int, px: int, py: int, end: int) -> nat
    decreases end + r,
{
    if end <= -r {
        0
    } else {
        max_nat(disk_max(cov, w, h, r, px, py, end - 1), row_max(cov, w, h, r, px, py, end - 1, r + 1))
    }
}

/// Outline strength at `(px, py)`: the largest coverage within distance `r`.
pub open spec fn outline_cov(cov: Seq<u8>, w: int, h: int, r: int, px: int, py: int) -> nat {
    disk_max(cov, w, h, r, px, py, r + 1)
}

/// Premultiplied BGRA of pixel `(px, py)`: a covered pixel takes its row's
/// fill color and its own coverage, an uncovered one the outline color and
/// the outline strength; the coverage goes through `alpha` (the faded alpha
/// of each coverage value); nothing is drawn where that gives zero.
pub open spec fn pixel(
    cov: Seq<u8>,
    w: int,
    h: int,
    r: int,
    fill: Seq<(u8, u8, u8)>,
    outline: (u8, u8, u8),
    alpha: Seq<u8>,
    px: int,
    py: int,
) -> (u8, u8, u8, u8) {
    let center = cov[py * w + px] as nat;
    let color = if center > 0 {
        fill[py]
    } else {
        outline
    };
    let base = if center > 0 {
        center
    } else {
        outline_cov(cov, w, h, r, px, py)
    };
    if base == 0 || alpha[base as int] == 0 {
        (0, 0, 0, 0)
    } else {
        let a = alpha[base as int] as nat;
        (
            (color.2 as nat * a / 255) as u8,
            (color.1 as nat * a / 255) as u8,
            (color.0 as nat * a / 255) as u8,
            a as u8,
        )
    }
}

/// The inputs `compose_bgra` accepts: a coverage map of `w * h` bytes whose
/// BGRA image fits in `u32` bytes, a fill color per row, an alpha for each
/// coverage value, and a radius whose squared distances (`dx * dx + dy * dy`
/// up to `2 * radius * radius`) fit in `i32`.
pub open spec fn compose_ok(
    cov_len: nat,
    w: u32,
    h: u32,
    radius: u32,
    fill_len: nat,
    alpha_len: nat,
) -> bool {
    &&& cov_len == w * h
    &&& w * h * 4 <= u32::MAX
    &&& fill_len == h
    &&& alpha_len == 256
    &&& radius <= 32767
}

proof fn lemma_index_bound(w: int, h: int, x: int, y: int)
    requires
        0 <= x < w,
        0 <= y < h,
    ensures
        0 <= y * w + x < w * h,
        y * w + x + 1 <= w * h,
{
    assert(y * w + x < (y + 1) * w) by (nonlinear_arith)
        requires
            0 <= x < w,
    ;
    assert((y + 1) * w <= h * w) by (nonlinear_arith)
        requires
            0 <= y < h,
            0 < w,
    ;
    assert(0 <= y * w) by (nonlinear_arith)
        requires
            0 <= y,
            0 < w,
    ;
    assert(h * w == w * h) by (nonlinear_arith);
}

/// The outline strength at `(px, py)`.
fn outline_strength(cov: &Vec<u8>, w: u32, h: u32, radius: u32, px: i32, py: i32) -> (m: u8)
    requires
        cov@.len() == w * h,
        w * h * 4 <= u32::MAX,
        radius <= 32767,
        0 <= px < w,
        0 <= py < h,
    ensures
        m as nat == outline_cov(cov@, w as int, h as int, radius as int, px as int, py as int),
{
    let r = radius as i32;
    assert(0 <= r * r <= 1073676289) by (nonlinear_arith)
        requires
            0 <= r <= 32767,
    ;
    let r2 = r * r;
    proof {
        assert(w <= 0x4000_0000 && h <= 0x4000_0000) by (nonlinear_arith)
            requires
                0 <= px < w,
                0 <= py < h,
                w * h * 4 <= u32::MAX,
        ;
    }
    let ghost c = cov@;
    let ghost (wi, hi, ri) = (w as int, h as int, radius as int);
    let mut max_n: u8 = 0;
    let mut dy: i32 = -r;
    while dy <= r
        invariant
            c == cov@,
            wi == w,
            hi == h,
            ri == radius,
            r == radius,
            r2 == r * r,
            radius <= 32767,
            w <= 0x4000_0000,
            h <= 0x4000_0000,
            c.len() == w * h,
            w * h * 4 <= u32::MAX,
            0 <= px < w,
            0 <= py < h,
            -r <= dy <= r + 1,
            max_n as nat == disk_max(c, wi, hi, ri, px as int, py as int, dy as int),
        decreases r + 1 - dy,
    {
        let mut dx: i32 = -r;
        while dx <= r
            invariant
                c == cov@,
                wi == w,
                hi == h,
                ri == radius,
                r == radius,
                r2 == r * r,
                radius <= 32767,
                w <= 0x4000_0000,
                h <= 0x4000_0000,
                c.len() == w * h,
                w * h * 4 <= u32::MAX,
                0 <= px < w,
                0 <= py < h,
                -r <= dy <= r,
                -r <= dx <= r + 1,
                max_n as nat == max_nat(
                    disk_max(c, wi, hi, ri, px as int, py as int, dy as int),
                    row_max(c, wi, hi, ri, px as int, py as int, dy as int, dx as int),
                ),
            decreases r + 1 - dx,
        {
            assert(0 <= dx * dx <= 1073676289) by (nonlinear_arith)
                requires
                    -32767 <= dx <= 32767,
            ;
            assert(0 <= dy * dy <= 1073676289) by (nonlinear_arith)
                requires
                    -32767 <= dy <= 32767,
            ;
            let dx2 = dx * dx;
            let dy2 = dy * dy;
            let d2 = dx2 + dy2;
            let mut cell: u8 = 0;
            if d2 <= r2 {
                let nx = px + dx;
                let ny = py + dy;
                if !(nx < 0 || ny < 0 || nx as u32 >= w || ny as u32 >= h) {
                    let nyu = ny as usize;
                    let nxu = nx as usize;
                    let wu = w as usize;
                    proof {
                        lemma_index_bound(wi, hi, nxu as int, nyu as int);
                        assert(nyu * wu <= nyu * wu + nxu);
                        assert(w * h <= u32::MAX);
                    }
                    let idx = nyu * wu + nxu;
                    cell = cov[idx];
                }
            }
            assert(cell as nat == disk_cell(c, wi, hi, ri, px as int, py as int, dx as int, dy as int));
            if cell > max_n {
                max_n = cell;
            }
            dx += 1;
        }
        dy += 1;
    }
    max_n
}

/// Premultiplied BGRA of one pixel.
fn compose_pixel(
    cov: &Vec<u8>,
    w: u32,
    h: u32,
    radius: u32,
    fill_rows: &Vec<(u8, u8, u8)>,
    outline: (u8, u8, u8),
    alpha: &Vec<u8>,
    px: i32,
    py: i32,
) -> (p: (u8, u8, u8, u8))
    requires
        compose_ok(cov@.len(), w, h, radius, fill_rows@.len(), alpha@.len()),
        0 <= px < w,
        0 <= py < h,
    ensures
        p == pixel(
            cov@,
            w as int,
            h as int,
            radius as int,
            fill_rows@,
            outline,
            alpha@,
            px as int,
            py as int,
        ),
{
    proof {
        lemma_index_bound(w as int, h as int, px as int, py as int);
    }
    let center = cov[(py as usize) * (w as usize) + (px as usize)];
    let (color, base) = if center > 0 {
        (fill_rows[py as usize], center)
    } else {
        (outline, outline_strength(cov, w, h, radius, px, py))
    };
    if base == 0 {
        return (0, 0, 0, 0);
    }
    let a = alpha[base as usize];
    if a == 0 {
        return (0, 0, 0, 0);
    }
    let a32 = a as u32;
    proof {
        assert((color.2 as u32) * a32 <= 255 * 255 && (color.1 as u32) * a32 <= 255 * 255 && (
        color.0 as u32) * a32 <= 255 * 255) by (nonlinear_arith)
            requires
                a32 <= 255,
                color.0 <= 255,
                color.1 <= 255,
                color.2 <= 255,
        ;
    }
    let b = (color.2 as u32) * a32 / 255;
    let g = (color.1 as u32) * a32 / 255;
    let rr = (color.0 as u32) * a32 / 255;
    (b as u8, g as u8, rr as u8, a)
}

/// Premultiplied BGRA bytes for a `w` by `h` coverage map, row by row: pixel
/// `q` (column `q % w`, row `q / w`) is bytes `4q .. 4q + 4`.
pub fn compose_bgra(
    cov: &Vec<u8>,
    w: u32,
    h: u32,
    radius: u32,
    fill_rows: &Vec<(u8, u8, u8)>,
    outline: (u8, u8, u8),
    alpha: &Vec<u8>,
) -> (out: Vec<u8>)
    requires
        compose_ok(cov@.len(), w, h, radius, fill_rows@.len(), alpha@.len()),
    ensures
        out@.len() == 4 * w * h,
        forall|q: int|
            0 <= q < w * h ==> {
                let p = #[trigger] pixel(
                    cov@,
                    w as int,
                    h as int,
                    radius as int,
                    fill_rows@,
                    outline,
                    alpha@,
                    q % (w as int),
                    q / (w as int),
                );
                &&& out@[4 * q] == p.0
                &&& out@[4 * q + 1] == p.1
                &&& out@[4 * q + 2] == p.2
                &&& out@[4 * q + 3] == p.3
            },
{
    let mut out: Vec<u8> = Vec::new();
    let mut q: usize = 0;
    let mut py: u32 = 0;
    let ghost wi = w as int;
    proof {
        assert(w * h * 4 == 4 * w * h) by (nonlinear_arith);
    }
    while py < h
        invariant
            compose_ok(cov@.len(), w, h, radius, fill_rows@.len(), alpha@.len()),
            wi == w,
            py <= h,
            q == py * w,
            q <= w * h,
            out@.len() == 4 * q,
            forall|k: int|
                0 <= k < q ==> {
                    let p = #[trigger] pixel(
                        cov@,
                        w as int,
                        h as int,
                        radius as int,
                        fill_rows@,
                        outline,
                        alpha@,
                        k % wi,
                        k / wi,
                    );
                    &&& out@[4 * k] == p.0
                    &&& out@[4 * k + 1] == p.1
                    &&& out@[4 * k + 2] == p.2
                    &&& out@[4 * k + 3] == p.3
                },
        decreases h - py,
    {
        let mut px: u32 = 0;
        while px < w
            invariant
                compose_ok(cov@.len(), w, h, radius, fill_rows@.len(), alpha@.len()),
                wi == w,
                py < h,
                px <= w,
                q == py * w + px,
                out@.len() == 4 * q,
                forall|k: int|
                    0 <= k < q ==> {
                        let p = #[trigger] pixel(
                            cov@,
                            w as int,
                            h as int,
                            radius as int,
                            fill_rows@,
                            outline,
                            alpha@,
                            k % wi,
                            k / wi,
                        );
                        &&& out@[4 * k] == p.0
                        &&& out@[4 * k + 1] == p.1
                        &&& out@[4 * k + 2] == p.2
                        &&& out@[4 * k + 3] == p.3
                    },
            decreases w - px,
        {
            proof {
                lemma_index_bound(w as int, h as int, px as int, py as int);
                assert(w <= 0x4000_0000 && h <= 0x4000_0000) by (nonlinear_arith)
                    requires
                        0 <= px < w,
                        0 <= py < h,
                        w * h * 4 <= u32::MAX,
                ;
                lemma_fundamental_div_mod_converse(q as int, wi, py as int, px as int);
            }
            let p = compose_pixel(cov, w, h, radius, fill_rows, outline, alpha, px as i32, py as i32);
            let ghost before = out@;
            out.push(p.0);
            out.push(p.1);
            out.push(p.2);
            out.push(p.3);
            proof {
                assert forall|k: int| 0 <= k < q + 1 implies {
                    let pp = #[trigger] pixel(
                        cov@,
                        w as int,
                        h as int,
                        radius as int,
                        fill_rows@,
                        outline,
                        alpha@,
                        k % wi,
                        k / wi,
                    );
                    &&& out@[4 * k] == pp.0
                    &&& out@[4 * k + 1] == pp.1
                    &&& out@[4 * k + 2] == pp.2
                    &&& out@[4 * k + 3] == pp.3
                } by {
                    if k < q {
                        assert(out@[4 * k] == before[4 * k]);
                        assert(out@[4 * k + 1] == before[4 * k + 1]);
                        assert(out@[4 * k + 2] == before[4 * k + 2]);
                        assert(out@[4 * k + 3] == before[4 * k + 3]);
                    }
                }
            }
            q += 1;
            px += 1;
        }
        proof {
            assert(q == (py + 1) * w && (py + 1) * w <= w * h) by (nonlinear_arith)
                requires
                    q == py * w + w,
                    py + 1 <= h,
            ;
        }
        py += 1;
    }
    proof {
        assert(q == w * h) by (nonlinear_arith)
            requires
                q == py * w,
                py == h,
        ;
        assert(4 * q == 4 * w * h) by (nonlinear_arith)
            requires
                q == w * h,
        ;
    }
    out
}

/// Size of the bitmap for text of `text_w` by `text_h` pixels: the padding
/// and the outline radius on every side.
pub fn bitmap_size(text_w: u32, text_h: u32, radius: u32) -> (s: (u32, u32))
    requires
        text_w + 2 * (PAD + radius) <= u32::MAX,
        text_h + 2 * (PAD + radius) <= u32::MAX,
    ensures
        s.0 == text_w + 2 * (PAD + radius),
        s.1 == text_h + 2 * (PAD + radius),
{
    let pad = PAD + radius;
    (text_w + pad * 2, text_h + pad * 2)
}

/// Top-left corner of a `gw` by `gh` bitmap centered on the window's client
/// area `(cx, cy, cw, ch)`, 100 pixels below its middle.
pub fn overlay_origin(cx: i32, cy: i32, cw: i32, ch: i32, gw: u32, gh: u32) -> (o: (i32, i32))
    requires
        cw > 0,
        ch > 0,
        gw <= i32::MAX,
        gh <= i32::MAX,
        i32::MIN <= cx + cw / 2 - (gw as i32) / 2 <= i32::MAX,
        i32::MIN <= cx + cw / 2 <= i32::MAX,
        i32::MIN <= cy + ch / 2 <= i32::MAX,
        i32::MIN <= cy + ch / 2 + 100 <= i32::MAX,
        i32::MIN <= cy + ch / 2 + 100 - (gh as i32) / 2 <= i32::MAX,
    ensures
        o.0 == cx + cw / 2 - (gw as i32) / 2,
        o.1 == cy + ch / 2 + 100 - (gh as i32) / 2,
{
    let x = cx + cw / 2 - (gw as i32) / 2;
    let y = cy + ch / 2 + 100 - (gh as i32) / 2;
    (x, y)
}

/// Premultiplied alpha: no color channel of a pixel exceeds its alpha, and
/// a pixel with zero alpha is fully transparent.
pub proof fn premultiplied_pixels(
    cov: Seq<u8>,
    w: int,
    h: int,
    r: int,
    fill: Seq<(u8, u8, u8)>,
    outline: (u8, u8, u8),
    alpha: Seq<u8>,
    px: int,
    py: int,
)
    ensures
        ({
            let p = pixel(cov, w, h, r, fill, outline, alpha, px, py);
            &&& p.0 <= p.3
            &&& p.1 <= p.3
            &&& p.2 <= p.3
            &&& p.3 == 0 ==> p == (0u8, 0u8, 0u8, 0u8)
        }),
{
    let center = cov[py * w + px] as nat;
    let color = if center > 0 {
        fill[py]
    } else {
        outline
    };
    let base = if center > 0 {
        center
    } else {
        outline_cov(cov, w, h, r, px, py)
    };
    if !(base == 0 || alpha[base as int] == 0) {
        let a = alpha[base as int] as nat;
        assert(color.0 as nat * a / 255 <= a && color.1 as nat * a / 255 <= a && color.2 as nat * a
            / 255 <= a) by (nonlinear_arith)
            requires
                color.0 <= 255,
                color.1 <= 255,
                color.2 <= 255,
                a <= 255,
        ;
    }
}

/// `c` premultiplied by alpha `a`, in BGRA order; transparent when `a` is zero.
pub open spec fn premultiplied(c: (u8, u8, u8), a: u8) -> (u8, u8, u8, u8) {
    if a == 0 {
        (0, 0, 0, 0)
    } else {
        (
            (c.2 as nat * a as nat / 255) as u8,
            (c.1 as nat * a as nat / 255) as u8,
            (c.0 as nat * a as nat / 255) as u8,
            a,
        )
    }
}

/// A pixel the glyph covers keeps its own coverage: it is its row's fill
/// color under the faded alpha of the pixel's own coverage, whatever the
/// coverage around it (so the glyph's anti-aliased edges stay soft).
pub proof fn covered_pixel_keeps_its_coverage(
    cov: Seq<u8>,
    w: int,
    h: int,
    r: int,
    fill: Seq<(u8, u8, u8)>,
    outline: (u8, u8, u8),
    alpha: Seq<u8>,
    px: int,
    py: int,
)
    requires
        cov[py * w + px] > 0,
    ensures
        pixel(cov, w, h, r, fill, outline, alpha, px, py) == premultiplied(
            fill[py],
            alpha[cov[py * w + px] as int],
        ),
{
}

/// A pixel the glyph does not cover is outline: the outline color under the
/// faded alpha of the outline strength there (nothing when that is zero).
pub proof fn uncovered_pixel_is_outline(
    cov: Seq<u8>,
    w: int,
    h: int,
    r: int,
    fill: Seq<(u8, u8, u8)>,
    outline: (u8, u8, u8),
    alpha: Seq<u8>,
    px: int,
    py: int,
)
    requires
        cov[py * w + px] == 0,
    ensures
        pixel(cov, w, h, r, fill, outline, alpha, px, py) == (if outline_cov(cov, w, h, r, px, py) == 0 {
            (0u8, 0u8, 0u8, 0u8)
        } else {
            premultiplied(outline, alpha[outline_cov(cov, w, h, r, px, py) as int])
        }),
{
}

/// The outline strength at `(px, py)` is the largest coverage of the pixels
/// within distance `r` of it (pixels outside the bitmap count as zero): no
/// such pixel has more, and unless it is zero some such pixel has exactly it.
pub proof fn outline_is_largest_near_coverage(cov: Seq<u8>, w: int, h: int, r: int, px: int, py: int)
    requires
        r >= 0,
    ensures
        forall|x: int, y: int|
            (x - px) * (x - px) + (y - py) * (y - py) <= r * r ==> #[trigger] cov_at(cov, w, h, x, y)
                <= outline_cov(cov, w, h, r, px, py),
        outline_cov(cov, w, h, r, px, py) == 0 || exists|x: int, y: int|
            (x - px) * (x - px) + (y - py) * (y - py) <= r * r && #[trigger] cov_at(cov, w, h, x, y)
                == outline_cov(cov, w, h, r, px, py),
{
    lemma_disk_max(cov, w, h, r, px, py, r + 1);
    let m = outline_cov(cov, w, h, r, px, py);
    assert forall|x: int, y: int|
        (x - px) * (x - px) + (y - py) * (y - py) <= r * r implies #[trigger] cov_at(cov, w, h, x, y) <= m by {
        let (dx, dy) = (x - px, y - py);
        assert(-r <= dx <= r && -r <= dy <= r) by (nonlinear_arith)
            requires
                dx * dx + dy * dy <= r * r,
                r >= 0,
        ;
        assert(disk_cell(cov, w, h, r, px, py, dx, dy) == cov_at(cov, w, h, x, y));
    }
    if m != 0 {
        let (dx, dy) = choose|dx: int, dy: int|
            -r <= dx <= r && -r <= dy <= r && #[trigger] disk_cell(cov, w, h, r, px, py, dx, dy) == m;
        assert(dx * dx + dy * dy <= r * r);
        assert(cov_at(cov, w, h, px + dx, py + dy) == m);
        assert((px + dx - px) * (px + dx - px) + (py + dy - py) * (py + dy - py) <= r * r);
    }
}

proof fn lemma_row_max(cov: Seq<u8>, w: int, h: int, r: int, px: int, py: int, dy: int, end: int)
    requires
        r >= 0,
    ensures
        forall|dx: int| -r <= dx < end ==> #[trigger] disk_cell(cov, w, h, r, px, py, dx, dy) <= row_max(
            cov,
            w,
            h,
            r,
            px,
            py,
            dy,
            end,
        ),
        row_max(cov, w, h, r, px, py, dy, end) == 0 || exists|dx: int|
            -r <= dx < end && #[trigger] disk_cell(cov, w, h, r, px, py, dx, dy) == row_max(
                cov,
                w,
                h,
                r,
                px,
                py,
                dy,
                end,
            ),
    decreases end + r,
{
    if end > -r {
        lemma_row_max(cov, w, h, r, px, py, dy, end - 1);
        let prev = row_max(cov, w, h, r, px, py, dy, end - 1);
        if prev != 0 && prev >= disk_cell(cov, w, h, r, px, py, end - 1, dy) {
            let dx = choose|dx: int| -r <= dx < end - 1 && #[trigger] disk_cell(cov, w, h, r, px, py, dx, dy) == prev;
            assert(-r <= dx < end);
        }
    }
}

proof fn lemma_disk_max(cov: Seq<u8>, w: int, h: int, r: int, px: int, py: int, end: int)
    requires
        r >= 0,
    ensures
        forall|dx: int, dy: int|
            -r <= dx <= r && -r <= dy < end ==> #[trigger] disk_cell(cov, w, h, r, px, py, dx, dy) <= disk_max(
                cov,
                w,
                h,
                r,
                px,
                py,
                end,
            ),
        disk_max(cov, w, h, r, px, py, end) == 0 || exists|dx: int, dy: int|
            -r <= dx <= r && -r <= dy < end && #[trigger] disk_cell(cov, w, h, r, px, py, dx, dy)
                == disk_max(cov, w, h, r, px, py, end),
    decreases end + r,
{
    if end > -r {
        lemma_disk_max(cov, w, h, r, px, py, end - 1);
        lemma_row_max(cov, w, h, r, px, py, end - 1, r + 1);
        let prev = disk_max(cov, w, h, r, px, py, end - 1);
        let row = row_max(cov, w, h, r, px, py, end - 1, r + 1);
        if prev >= row {
            if prev != 0 {
                let (dx, dy) = choose|dx: int, dy: int|
                    -r <= dx <= r && -r <= dy < end - 1 && #[trigger] disk_cell(cov, w, h, r, px, py, dx, dy)
                        == prev;
                assert(-r <= dy < end);
            }
        } else {
            let dx = choose|dx: int|
                -r <= dx < r + 1 && #[trigger] disk_cell(cov, w, h, r, px, py, dx, end - 1) == row;
            assert(-r <= dx <= r && -r <= end - 1 < end);
        }
    }
}

} // verus!
