//! The image compositor: alpha-blends a resized overlay over a base raster
//! with bottom alignment.
//!
//! A raster is row-major bytes with an explicit geometry. The overlay is
//! scaled to the base width keeping its aspect ratio (height rounded to
//! nearest), placed so its bottom edge meets the base's bottom edge, and
//! cropped at the bottom when taller than the base. Pixels are blended with
//! straight alpha; the result is always four channels with the base's
//! dimensions.

use vstd::prelude::*;
use vstd::arithmetic::div_mod::lemma_multiply_divide_lt;

verus! {

/// Largest width or height a raster may have. Keeps every index and size
/// computation comfortably inside 64-bit arithmetic.
pub const MAX_DIM: u32 = 0xFFFF;

/// Why a composition was refused.
#[derive(Clone, Copy, PartialEq, Eq, Structural, Debug)]
pub enum ComposeError {
    /// The base raster has neither three nor four channels.
    UnsupportedFormat,
}

/// A raster image: `channels` bytes per pixel, rows stored top to bottom.
pub struct Raster {
    pub width: u32,
    pub height: u32,
    pub channels: u32,
    pub data: Vec<u8>,
}

impl Raster {
    /// Geometry is in range and the byte buffer has exactly one byte per
    /// channel of every pixel.
    pub open spec fn wf(self) -> bool {
        &&& 1 <= self.width <= MAX_DIM
        &&& 1 <= self.height <= MAX_DIM
        &&& 1 <= self.channels <= 4
        &&& self.data@.len() == (self.width * self.height) * self.channels
    }

    /// The byte of channel `c` of the pixel in row `y`, column `x`.
    pub open spec fn pix(self, y: int, x: int, c: int) -> u8 {
        self.data@[(y * self.width + x) * self.channels + c]
    }
}

/// Height of the overlay once scaled to width `bw` keeping the aspect ratio
/// `ow : oh`, rounded to the nearest row (half up).
pub open spec fn resized_overlay_height(bw: int, ow: int, oh: int) -> int {
    (2 * bw * oh + ow) / (2 * ow)
}

/// First base row covered by the resized overlay: the overlay sits at the
/// bottom of the base, except that an overlay taller than the base keeps its
/// top at row zero.
pub open spec fn overlay_y_offset(bh: int, rh: int) -> int {
    if rh > bh {
        0
    } else {
        bh - rh
    }
}

/// How many overlay rows are actually drawn: all of them, or, when the
/// resized overlay is taller than the base, only the topmost `bh` rows
/// (the rest is cropped at the bottom).
pub open spec fn overlay_rows_used(bh: int, rh: int) -> int {
    if rh < bh {
        rh
    } else {
        bh
    }
}

/// Source row of the overlay sampled for row `ry` of the resized overlay.
pub open spec fn sample_src(r: int, src_len: int, dst_len: int) -> int {
    r * src_len / dst_len
}

/// One colour channel blended with straight alpha `a`.
pub open spec fn blend_channel(b: u8, o: u8, a: u8) -> u8 {
    (((255 - a) * b + a * o) / 255) as u8
}

/// Channel `c` of the base pixel once promoted to four channels: a missing
/// alpha plane reads as fully opaque.
pub open spec fn promoted_pix(base: Raster, y: int, x: int, c: int) -> u8 {
    if c < base.channels {
        base.pix(y, x, c)
    } else {
        255u8
    }
}

/// Channel `c` of the composed pixel in row `y`, column `x`: where the
/// resized overlay covers the base and its alpha is positive, the colour
/// channels are blended and the alpha channel becomes opaque; everywhere
/// else the promoted base pixel shows through.
pub open spec fn out_pix(base: Raster, overlay: Raster, y: int, x: int, c: int) -> u8 {
    let rh = resized_overlay_height(base.width as int, overlay.width as int, overlay.height as int);
    let y_off = overlay_y_offset(base.height as int, rh);
    let h_use = overlay_rows_used(base.height as int, rh);
    if y_off <= y < y_off + h_use {
        let sy = sample_src(y - y_off, overlay.height as int, rh);
        let sx = sample_src(x, overlay.width as int, base.width as int);
        let a = overlay.pix(sy, sx, 3);
        if a > 0 {
            if c == 3 {
                255u8
            } else {
                blend_channel(promoted_pix(base, y, x, c), overlay.pix(sy, sx, c), a)
            }
        } else {
            promoted_pix(base, y, x, c)
        }
    } else {
        promoted_pix(base, y, x, c)
    }
}

/// What `overlay_image` promises of a successful result: the base's
/// dimensions, four channels, and every pixel as `out_pix` gives it.
pub open spec fn composed(base: Raster, overlay: Raster, out: Raster) -> bool {
    &&& out.wf()
    &&& out.width == base.width
    &&& out.height == base.height
    &&& out.channels == 4
    &&& forall|yy: int, xx: int, cc: int|
        #![trigger out_pix(base, overlay, yy, xx, cc)]
        0 <= yy < base.height && 0 <= xx < base.width && 0 <= cc < 4
            ==> out.pix(yy, xx, cc) == out_pix(base, overlay, yy, xx, cc)
}

/// Composition is a function of the base and overlay alone: any two rasters
/// that meet the composition contract for the same base and overlay agree in
/// geometry and in every pixel. In particular, nothing else handed to
/// `overlay_image` — such as its `_previous_result` argument — can influence
/// what comes out.
pub proof fn lemma_compose_deterministic(base: Raster, overlay: Raster, r1: Raster, r2: Raster)
    requires
        composed(base, overlay, r1),
        composed(base, overlay, r2),
    ensures
        r1.width == r2.width,
        r1.height == r2.height,
        r1.channels == r2.channels,
        r1.data@.len() == r2.data@.len(),
        forall|yy: int, xx: int, cc: int|
            #![trigger r1.pix(yy, xx, cc), r2.pix(yy, xx, cc)]
            0 <= yy < base.height && 0 <= xx < base.width && 0 <= cc < 4
                ==> r1.pix(yy, xx, cc) == r2.pix(yy, xx, cc),
{
    assert forall|yy: int, xx: int, cc: int|
        0 <= yy < base.height && 0 <= xx < base.width && 0 <= cc < 4
            implies #[trigger] r1.pix(yy, xx, cc) == #[trigger] r2.pix(yy, xx, cc) by {
        assert(r1.pix(yy, xx, cc) == out_pix(base, overlay, yy, xx, cc));
        assert(r2.pix(yy, xx, cc) == out_pix(base, overlay, yy, xx, cc));
    }
}

/// Reads one channel byte of one pixel.
fn read_byte(r: &Raster, y: u32, x: u32, c: u32) -> (b: u8)
    requires
        r.wf(),
        y < r.height,
        x < r.width,
        c < r.channels,
    ensures
        b == r.pix(y as int, x as int, c as int),
{
    proof {
        assert((y as int) * (r.width as int) <= 0xFFFF * 0xFFFF) by (nonlinear_arith)
            requires
                0 <= y as int <= 0xFFFF,
                0 <= r.width as int <= 0xFFFF;
        assert(((y as int) * (r.width as int) + (x as int)) * (r.channels as int) + (c as int)
            <= 0x10_0000_0000) by (nonlinear_arith)
            requires
                0 <= (y as int) * (r.width as int) <= 0xFFFF * 0xFFFF,
                0 <= x as int <= 0xFFFF,
                0 <= r.channels as int <= 4,
                0 <= c as int <= 4;
        assert(((y as int) * (r.width as int) + (x as int)) * (r.channels as int) + (c as int)
            < ((r.width as int) * (r.height as int)) * (r.channels as int)) by (nonlinear_arith)
            requires
                0 <= y as int && (y as int) < r.height as int,
                0 <= x as int && (x as int) < r.width as int,
                0 <= c as int && (c as int) < r.channels as int;
    }
    let idx64: u64 = ((y as u64) * (r.width as u64) + (x as u64)) * (r.channels as u64) + (c as u64);
    let n = r.data.len();
    proof {
        assert(idx64 < n as u64);
    }
    let idx: usize = idx64 as usize;
    r.data[idx]
}

/// Channel `c` of the base pixel promoted to four channels.
fn promoted_channel(base: &Raster, y: u32, x: u32, c: u32) -> (r: u8)
    requires
        base.wf(),
        base.channels == 3 || base.channels == 4,
        y < base.height,
        x < base.width,
        c < 4,
    ensures
        r == promoted_pix(*base, y as int, x as int, c as int),
{
    if c < base.channels {
        read_byte(base, y, x, c)
    } else {
        255
    }
}

/// The scaled overlay height, as `resized_overlay_height` gives it.
fn resized_height(bw: u32, ow: u32, oh: u32) -> (r: u64)
    requires
        1 <= bw <= MAX_DIM,
        1 <= ow <= MAX_DIM,
        1 <= oh <= MAX_DIM,
    ensures
        r == resized_overlay_height(bw as int, ow as int, oh as int),
{
    proof {
        assert(2 * (bw as int) * (oh as int) <= 2 * 0xFFFF * 0xFFFF) by (nonlinear_arith)
            requires
                0 <= bw as int <= 0xFFFF,
                0 <= oh as int <= 0xFFFF;
    }
    (2u64 * (bw as u64) * (oh as u64) + (ow as u64)) / (2u64 * (ow as u64))
}

/// One channel of the composed pixel at (`y`, `x`).
fn out_channel(base: &Raster, overlay: &Raster, y: u32, x: u32, c: u32) -> (r: u8)
    requires
        base.wf(),
        overlay.wf(),
        overlay.channels == 4,
        base.channels == 3 || base.channels == 4,
        y < base.height,
        x < base.width,
        c < 4,
    ensures
        r == out_pix(*base, *overlay, y as int, x as int, c as int),
{
    let rh = resized_height(base.width, overlay.width, overlay.height);
    let bh64 = base.height as u64;
    let y_off: u64 = if rh > bh64 { 0 } else { bh64 - rh };
    let h_use: u64 = if rh < bh64 { rh } else { bh64 };
    let y64 = y as u64;
    if y64 >= y_off && y64 < y_off + h_use {
        let ry = y64 - y_off;
        proof {
            assert(ry < rh);
            assert((ry as int) * (overlay.height as int) <= 0xFFFF * 0xFFFF) by (nonlinear_arith)
                requires
                    0 <= ry as int <= 0xFFFF,
                    0 <= overlay.height as int <= 0xFFFF;
            assert(((ry as int) * (overlay.height as int)) < (rh as int) * (overlay.height as int))
                by (nonlinear_arith)
                requires
                    0 <= ry as int && (ry as int) < rh as int,
                    0 < overlay.height as int;
            lemma_multiply_divide_lt(
                (ry as int) * (overlay.height as int), rh as int, overlay.height as int);
            assert((x as int) * (overlay.width as int) <= 0xFFFF * 0xFFFF) by (nonlinear_arith)
                requires
                    0 <= x as int <= 0xFFFF,
                    0 <= overlay.width as int <= 0xFFFF;
            assert(((x as int) * (overlay.width as int)) < (base.width as int) * (overlay.width as int))
                by (nonlinear_arith)
                requires
                    0 <= x as int && (x as int) < base.width as int,
                    0 < overlay.width as int;
            lemma_multiply_divide_lt(
                (x as int) * (overlay.width as int), base.width as int, overlay.width as int);
        }
        let sy = (ry * (overlay.height as u64)) / rh;
        let sx = ((x as u64) * (overlay.width as u64)) / (base.width as u64);
        let a = read_byte(overlay, sy as u32, sx as u32, 3);
        if a > 0 {
            if c == 3 {
                255
            } else {
                let b = read_byte(base, y, x, c);
                let o = read_byte(overlay, sy as u32, sx as u32, c);
                proof {
                    assert((255 - a as int) * (b as int) + (a as int) * (o as int) <= 255 * 255)
                        by (nonlinear_arith)
                        requires
                            0 <= a as int <= 255,
                            0 <= b as int <= 255,
                            0 <= o as int <= 255;
                }
                ((((255u32 - (a as u32)) * (b as u32)) + (a as u32) * (o as u32)) / 255u32) as u8
            }
        } else {
            promoted_channel(base, y, x, c)
        }
    } else {
        promoted_channel(base, y, x, c)
    }
}

/// Composites `overlay` onto `base`: scales the overlay to the base width,
/// aligns its bottom edge with the base's bottom edge (cropping overlay rows
/// below the base), and alpha-blends it. The result has the base's
/// dimensions and four channels, and depends on the base and overlay alone;
/// the `_previous_result` argument has no effect on it.
pub fn overlay_image(base: &Raster, overlay: &Raster, _previous_result: Option<&Raster>) -> (r: Result<Raster, ComposeError>)
    requires
        base.wf(),
        overlay.wf(),
        overlay.channels == 4,
    ensures
        match r {
            Ok(out) => (base.channels == 3 || base.channels == 4) && composed(*base, *overlay, out),
            Err(e) => {
                &&& e == ComposeError::UnsupportedFormat
                &&& base.channels != 3 && base.channels != 4
            },
        },
{
    if !(base.channels == 3 || base.channels == 4) {
        return Err(ComposeError::UnsupportedFormat);
    }
    let bw = base.width;
    let bh = base.height;
    let mut data: Vec<u8> = Vec::new();
    let mut y: u32 = 0;
    while y < bh
        invariant
            base.wf(),
            overlay.wf(),
            overlay.channels == 4,
            base.channels == 3 || base.channels == 4,
            bw == base.width,
            bh == base.height,
            0 <= y <= bh,
            data@.len() == (y as int * bw as int) * 4,
            forall|yy: int, xx: int, cc: int|
                #![trigger out_pix(*base, *overlay, yy, xx, cc)]
                0 <= yy < y as int && 0 <= xx < bw as int && 0 <= cc < 4
                    ==> data@[(yy * bw as int + xx) * 4 + cc] == out_pix(*base, *overlay, yy, xx, cc),
        decreases bh - y,
    {
        let mut x: u32 = 0;
        proof {
            assert((y as int * bw as int) * 4 == (y as int * bw as int + 0) * 4);
        }
        while x < bw
            invariant
                base.wf(),
                overlay.wf(),
                overlay.channels == 4,
                base.channels == 3 || base.channels == 4,
                bw == base.width,
                bh == base.height,
                y < bh,
                0 <= x <= bw,
                data@.len() == (y as int * bw as int + x as int) * 4,
                forall|yy: int, xx: int, cc: int|
                    #![trigger out_pix(*base, *overlay, yy, xx, cc)]
                    0 <= yy < y as int && 0 <= xx < bw as int && 0 <= cc < 4
                        ==> data@[(yy * bw as int + xx) * 4 + cc] == out_pix(*base, *overlay, yy, xx, cc),
                forall|xx: int, cc: int|
                    #![trigger out_pix(*base, *overlay, y as int, xx, cc)]
                    0 <= xx < x as int && 0 <= cc < 4
                        ==> data@[(y as int * bw as int + xx) * 4 + cc]
                            == out_pix(*base, *overlay, y as int, xx, cc),
            decreases bw - x,
        {
            let mut c: u32 = 0;
            while c < 4
                invariant
                    base.wf(),
                    overlay.wf(),
                    overlay.channels == 4,
                    base.channels == 3 || base.channels == 4,
                    bw == base.width,
                    bh == base.height,
                    y < bh,
                    x < bw,
                    0 <= c <= 4,
                    data@.len() == (y as int * bw as int + x as int) * 4 + c as int,
                    forall|yy: int, xx: int, cc: int|
                        #![trigger out_pix(*base, *overlay, yy, xx, cc)]
                        0 <= yy < y as int && 0 <= xx < bw as int && 0 <= cc < 4
                            ==> data@[(yy * bw as int + xx) * 4 + cc] == out_pix(*base, *overlay, yy, xx, cc),
                    forall|xx: int, cc: int|
                        #![trigger out_pix(*base, *overlay, y as int, xx, cc)]
                        0 <= xx < x as int && 0 <= cc < 4
                            ==> data@[(y as int * bw as int + xx) * 4 + cc]
                                == out_pix(*base, *overlay, y as int, xx, cc),
                    forall|cc: int|
                        #![trigger out_pix(*base, *overlay, y as int, x as int, cc)]
                        0 <= cc < c as int
                            ==> data@[(y as int * bw as int + x as int) * 4 + cc]
                                == out_pix(*base, *overlay, y as int, x as int, cc),
                decreases 4 - c,
            {
                let b = out_channel(base, overlay, y, x, c);
                data.push(b);
                proof {
                    assert forall|yy: int, xx: int, cc: int|
                        #![trigger out_pix(*base, *overlay, yy, xx, cc)]
                        0 <= yy < y as int && 0 <= xx < bw as int && 0 <= cc < 4
                            implies data@[(yy * bw as int + xx) * 4 + cc]
                                == out_pix(*base, *overlay, yy, xx, cc) by {
                        assert((yy * bw as int + xx) * 4 + cc
                            < (y as int * bw as int + x as int) * 4 + c as int) by (nonlinear_arith)
                            requires
                                0 <= yy && yy + 1 <= y as int,
                                0 <= xx && xx < bw as int,
                                0 <= cc < 4,
                                0 <= x as int,
                                0 <= c as int,
                                bw as int >= 1;
                    }
                    assert forall|xx: int, cc: int|
                        #![trigger out_pix(*base, *overlay, y as int, xx, cc)]
                        0 <= xx < x as int && 0 <= cc < 4
                            implies data@[(y as int * bw as int + xx) * 4 + cc]
                                == out_pix(*base, *overlay, y as int, xx, cc) by {
                        assert((y as int * bw as int + xx) * 4 + cc
                            < (y as int * bw as int + x as int) * 4 + c as int);
                    }
                }
                c = c + 1;
            }
            proof {
                assert forall|xx: int, cc: int|
                    #![trigger out_pix(*base, *overlay, y as int, xx, cc)]
                    0 <= xx < x as int + 1 && 0 <= cc < 4
                        implies data@[(y as int * bw as int + xx) * 4 + cc]
                            == out_pix(*base, *overlay, y as int, xx, cc) by {
                    if xx == x as int {
                        assert(data@[(y as int * bw as int + x as int) * 4 + cc]
                            == out_pix(*base, *overlay, y as int, x as int, cc));
                    }
                }
            }
            x = x + 1;
        }
        proof {
            assert((y as int * bw as int + bw as int) * 4 == ((y as int + 1) * bw as int) * 4)
                by (nonlinear_arith);
            assert forall|yy: int, xx: int, cc: int|
                #![trigger out_pix(*base, *overlay, yy, xx, cc)]
                0 <= yy < y as int + 1 && 0 <= xx < bw as int && 0 <= cc < 4
                    implies data@[(yy * bw as int + xx) * 4 + cc]
                        == out_pix(*base, *overlay, yy, xx, cc) by {
                if yy == y as int {
                    assert(data@[(y as int * bw as int + xx) * 4 + cc]
                        == out_pix(*base, *overlay, y as int, xx, cc));
                }
            }
        }
        y = y + 1;
    }
    let out = Raster { width: bw, height: bh, channels: 4, data };
    proof {
        assert((bh as int * bw as int) * 4 == (bw as int * bh as int) * 4) by (nonlinear_arith);
        assert forall|yy: int, xx: int, cc: int|
            #![trigger out_pix(*base, *overlay, yy, xx, cc)]
            0 <= yy < base.height && 0 <= xx < base.width && 0 <= cc < 4
                implies out.pix(yy, xx, cc) == out_pix(*base, *overlay, yy, xx, cc) by {
            assert(out.pix(yy, xx, cc) == out.data@[(yy * bw as int + xx) * 4 + cc]);
        }
    }
    Ok(out)
}

/// True when a raster of the given dimensions counts as portrait: its
/// height exceeds its width by more than five percent, that is,
/// `height / width > 21 / 20`.
pub fn is_portrait(width: u32, height: u32) -> (r: bool)
    ensures
        r == (20 * height > 21 * width),
{
    20u64 * (height as u64) > 21u64 * (width as u64)
}

} // verus!
