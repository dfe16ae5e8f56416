//! The snapshot pipeline's pixel work: stitching per-monitor captures into
//! one virtual-desktop RGBA canvas, the all-black safety refusal, the
//! single-slot job mailbox that feeds the stitch worker, and the BMP
//! encoding of the finished canvas.
//!
//! Captures arrive as raw BGRA buffers read from each hosted window; the
//! canvas is RGBA with opaque alpha, initialized black.

use crate::geometry::{bounding_box, Rect};
use vstd::prelude::*;

verus! {

/// One monitor's captured pixels: the monitor rectangle and its raw BGRA
/// buffer, four bytes per pixel, rows top to bottom.
#[derive(Debug, Clone, PartialEq, Eq)]
pub struct Capture {
    pub rect: Rect,
    pub pixels: Vec<u8>,
}

/// The pixel width a capture is read with, clamped to at least one.
pub open spec fn cap_w(c: Capture) -> int {
    if c.rect.right - c.rect.left >= 1 {
        c.rect.right - c.rect.left
    } else {
        1
    }
}

/// The pixel height a capture is read with, clamped to at least one.
pub open spec fn cap_h(c: Capture) -> int {
    if c.rect.bottom - c.rect.top >= 1 {
        c.rect.bottom - c.rect.top
    } else {
        1
    }
}

/// The canvas-local x offset a capture is blitted at.
pub open spec fn cap_ox(c: Capture, min_left: int) -> int {
    if c.rect.left - min_left >= 0 {
        c.rect.left - min_left
    } else {
        0
    }
}

/// The canvas-local y offset a capture is blitted at.
pub open spec fn cap_oy(c: Capture, min_top: int) -> int {
    if c.rect.top - min_top >= 0 {
        c.rect.top - min_top
    } else {
        0
    }
}

/// An all-black, fully opaque RGBA canvas of `n` pixels.
pub open spec fn black_canvas(n: int) -> Seq<u8>
    decreases n,
{
    if n <= 0 {
        Seq::<u8>::empty()
    } else {
        black_canvas(n - 1).push(0).push(0).push(0).push(255)
    }
}

/// One source pixel of a capture written onto the canvas: BGRA read,
/// swizzled to RGBA with opaque alpha; skipped when the source byte range
/// runs past the buffer or the destination lies outside the canvas.
pub open spec fn blit_px(
    canvas: Seq<u8>,
    c: Capture,
    w: int,
    h: int,
    min_left: int,
    min_top: int,
    sy: int,
    sx: int,
) -> Seq<u8> {
    let src = (sy * cap_w(c) + sx) * 4;
    if src + 3 < c.pixels@.len() {
        let bb = c.pixels@[src];
        let gg = c.pixels@[src + 1];
        let rr = c.pixels@[src + 2];
        let dx = cap_ox(c, min_left) + sx;
        let dy = cap_oy(c, min_top) + sy;
        if dx < w && dy < h {
            let base = (dy * w + dx) * 4;
            canvas.update(base, rr).update(base + 1, gg).update(base + 2, bb).update(
                base + 3,
                255,
            )
        } else {
            canvas
        }
    } else {
        canvas
    }
}

/// The first `nx` pixels of row `sy` written onto the canvas.
pub open spec fn blit_row(
    canvas: Seq<u8>,
    c: Capture,
    w: int,
    h: int,
    min_left: int,
    min_top: int,
    sy: int,
    nx: int,
) -> Seq<u8>
    decreases nx,
{
    if nx <= 0 {
        canvas
    } else {
        blit_px(
            blit_row(canvas, c, w, h, min_left, min_top, sy, nx - 1),
            c,
            w,
            h,
            min_left,
            min_top,
            sy,
            nx - 1,
        )
    }
}

/// The first `ny` rows of a capture written onto the canvas.
pub open spec fn blit_rows(
    canvas: Seq<u8>,
    c: Capture,
    w: int,
    h: int,
    min_left: int,
    min_top: int,
    ny: int,
) -> Seq<u8>
    decreases ny,
{
    if ny <= 0 {
        canvas
    } else {
        blit_row(
            blit_rows(canvas, c, w, h, min_left, min_top, ny - 1),
            c,
            w,
            h,
            min_left,
            min_top,
            ny - 1,
            cap_w(c),
        )
    }
}

/// A whole capture written onto the canvas.
pub open spec fn blit_capture(
    canvas: Seq<u8>,
    c: Capture,
    w: int,
    h: int,
    min_left: int,
    min_top: int,
) -> Seq<u8> {
    blit_rows(canvas, c, w, h, min_left, min_top, cap_h(c))
}

/// Every capture written onto the canvas, in order; later captures win
/// where they overlap.
pub open spec fn stitch_rec(
    cs: Seq<Capture>,
    canvas: Seq<u8>,
    w: int,
    h: int,
    min_left: int,
    min_top: int,
) -> Seq<u8>
    decreases cs.len(),
{
    if cs.len() == 0 {
        canvas
    } else {
        blit_capture(
            stitch_rec(cs.drop_last(), canvas, w, h, min_left, min_top),
            cs.last(),
            w,
            h,
            min_left,
            min_top,
        )
    }
}

/// The finished stitch: every capture blitted onto the black canvas.
pub open spec fn stitch_spec(
    cs: Seq<Capture>,
    w: int,
    h: int,
    min_left: int,
    min_top: int,
) -> Seq<u8> {
    stitch_rec(cs, black_canvas(w * h), w, h, min_left, min_top)
}

/// Whether a capture holds any non-black source pixel within its read
/// range. This looks at the source buffer, as the capture pass does, not at
/// where pixels land.
pub open spec fn cap_has_color(c: Capture) -> bool {
    exists|p: int|
        {
            &&& 0 <= p < cap_w(c) * cap_h(c)
            &&& #[trigger] (p * 4) + 3 < c.pixels@.len()
            &&& (c.pixels@[p * 4] != 0 || c.pixels@[p * 4 + 1] != 0 || c.pixels@[p * 4 + 2] != 0)
        }
}

/// Whether any capture holds a non-black pixel; an all-black set usually
/// means a capture raced window teardown, and the write is refused.
pub open spec fn any_capture_has_color(cs: Seq<Capture>) -> bool {
    exists|i: int| 0 <= i < cs.len() && cap_has_color(#[trigger] cs[i])
}

/// Why a stitch produced no image.
#[derive(Debug, Clone, Copy, PartialEq, Eq, Structural)]
pub enum StitchRefusal {
    /// Every source pixel was black: the result would hide the desktop
    /// behind a black image, so the write is refused.
    AllBlack,
    /// The virtual canvas would not fit in memory on this machine.
    CanvasTooLarge,
}

/// Scans one capture for a non-black source pixel.
fn capture_has_color(c: &Capture) -> (r: bool)
    requires
        1 <= cap_w(*c) <= 0x100000000,
        1 <= cap_h(*c) <= 0x100000000,
    ensures
        r == cap_has_color(*c),
{
    let cw = cap_w_of(c);
    let ch = cap_h_of(c);
    proof {
        assert((cw as i128) * (ch as i128) == cap_w(*c) * cap_h(*c) && 1 <= (cw as i128) * (
        ch as i128) <= 0x10000000000000000) by (nonlinear_arith)
            requires
                cw as int == cap_w(*c),
                ch as int == cap_h(*c),
                1 <= cw <= 0x100000000,
                1 <= ch <= 0x100000000,
        ;
    }
    let total: i128 = (cw as i128) * (ch as i128);
    let mut p: i128 = 0;
    while p < total
        invariant
            0 <= p <= total,
            total == cap_w(*c) * cap_h(*c),
            total <= 0x10000000000000000,
            forall|q: int|
                0 <= q < p ==> !(#[trigger] (q * 4) + 3 < c.pixels@.len() && (c.pixels@[q * 4]
                    != 0 || c.pixels@[q * 4 + 1] != 0 || c.pixels@[q * 4 + 2] != 0)),
        decreases total - p,
    {
        let src: i128 = p * 4;
        if src + 3 < c.pixels.len() as i128 {
            let s = src as usize;
            let bb = c.pixels[s];
            let gg = c.pixels[s + 1];
            let rr = c.pixels[s + 2];
            if bb != 0 || gg != 0 || rr != 0 {
                return true;
            }
        }
        p += 1;
    }
    false
}

/// Stitches the captures into one virtual-desktop RGBA canvas of the given
/// size, black where nothing was captured. Refuses an all-black capture set
/// (the write would hide the desktop behind black) and a canvas that cannot
/// fit in this machine's memory.
pub fn stitch_snapshot(
    captures: &Vec<Capture>,
    min_left: i32,
    min_top: i32,
    width: i64,
    height: i64,
) -> (r: Result<Vec<u8>, StitchRefusal>)
    requires
        1 <= width <= 0x100000000,
        1 <= height <= 0x100000000,
    ensures
        match r {
            Ok(canvas) => {
                &&& 4 * (width * height) <= usize::MAX
                &&& any_capture_has_color(captures@)
                &&& canvas@ == stitch_spec(
                    captures@,
                    width as int,
                    height as int,
                    min_left as int,
                    min_top as int,
                )
            },
            Err(StitchRefusal::CanvasTooLarge) => 4 * (width * height) > usize::MAX,
            Err(StitchRefusal::AllBlack) => {
                &&& 4 * (width * height) <= usize::MAX
                &&& !any_capture_has_color(captures@)
            },
        },
{
    let w = width;
    let h = height;
    let ghost wi = width as int;
    let ghost hi = height as int;
    let ghost ml = min_left as int;
    let ghost mt = min_top as int;
    proof {
        assert(1 <= (w as i128) * (h as i128) <= 0x10000000000000000 && (w as i128) * (h as i128)
            == wi * hi) by (nonlinear_arith)
            requires
                1 <= w <= 0x100000000,
                1 <= h <= 0x100000000,
                wi == w as int,
                hi == h as int,
        ;
    }
    let wh: i128 = (w as i128) * (h as i128);
    let area: i128 = 4 * wh;
    if area > usize::MAX as i128 {
        proof {
            assert(4 * (width * height) > usize::MAX);
        }
        return Err(StitchRefusal::CanvasTooLarge);
    }
    proof {
        assert(4 * (width * height) <= usize::MAX);
    }
    // The all-black refusal: scan every capture's source pixels.
    let mut any_color = false;
    let mut ci: usize = 0;
    while ci < captures.len()
        invariant
            0 <= ci <= captures@.len(),
            any_color == (exists|j: int| 0 <= j < ci && cap_has_color(#[trigger] captures@[j])),
        decreases captures@.len() - ci,
    {
        if capture_has_color(&captures[ci]) {
            any_color = true;
        }
        ci += 1;
    }
    if !any_color {
        return Err(StitchRefusal::AllBlack);
    }
    // Allocate the black canvas.
    let npix: usize = wh as usize;
    proof {
        assert(npix as int == wi * hi);
        assert(4 * npix <= usize::MAX);
    }
    let mut canvas: Vec<u8> = Vec::new();
    let mut p: usize = 0;
    proof {
        assert(canvas@ =~= black_canvas(0));
    }
    while p < npix
        invariant
            0 <= p <= npix,
            4 * npix <= usize::MAX,
            canvas@ == black_canvas(p as int),
            canvas@.len() == 4 * p,
        decreases npix - p,
    {
        canvas.push(0);
        canvas.push(0);
        canvas.push(0);
        canvas.push(255);
        p += 1;
    }
    // Blit each capture in order.
    let ghost base_canvas = canvas@;
    let mut i: usize = 0;
    while i < captures.len()
        invariant
            0 <= i <= captures@.len(),
            1 <= w <= 0x100000000,
            1 <= h <= 0x100000000,
            wi == w as int,
            hi == h as int,
            ml == min_left as int,
            mt == min_top as int,
            base_canvas.len() == 4 * (wi * hi),
            4 * (wi * hi) <= usize::MAX,
            (w as i128) * (h as i128) == wi * hi,
            canvas@ == stitch_rec(captures@.take(i as int), base_canvas, wi, hi, ml, mt),
            canvas@.len() == base_canvas.len(),
        decreases captures@.len() - i,
    {
        let ghost capstart = canvas@;
        let c = &captures[i];
        let cw = cap_w_of(c);
        let ch = cap_h_of(c);
        let oxr: i64 = c.rect.left as i64 - min_left as i64;
        let ox: i64 = if oxr >= 0 {
            oxr
        } else {
            0
        };
        let oyr: i64 = c.rect.top as i64 - min_top as i64;
        let oy: i64 = if oyr >= 0 {
            oyr
        } else {
            0
        };
        proof {
            assert(ox as int == cap_ox(captures@[i as int], ml));
            assert(oy as int == cap_oy(captures@[i as int], mt));
        }
        let mut y: i64 = 0;
        while y < ch
            invariant
                0 <= y <= ch,
                1 <= w <= 0x100000000,
                1 <= h <= 0x100000000,
                wi == w as int,
                hi == h as int,
                ml == min_left as int,
                mt == min_top as int,
                0 <= i < captures@.len(),
                c == &captures@[i as int],
                cw as int == cap_w(captures@[i as int]),
                ch as int == cap_h(captures@[i as int]),
                1 <= cw <= 0x100000000,
                1 <= ch <= 0x100000000,
                ox as int == cap_ox(captures@[i as int], ml),
                oy as int == cap_oy(captures@[i as int], mt),
                0 <= ox,
                0 <= oy,
                capstart.len() == 4 * (wi * hi),
                4 * (wi * hi) <= usize::MAX,
                (w as i128) * (h as i128) == wi * hi,
                canvas@ == blit_rows(capstart, captures@[i as int], wi, hi, ml, mt, y as int),
                canvas@.len() == capstart.len(),
            decreases ch - y,
        {
            let ghost rowstart = canvas@;
            proof {
                assert(0 <= (y as i128) * (cw as i128) <= 0x10000000000000000) by (
                nonlinear_arith)
                    requires
                        0 <= y,
                        y <= 0x100000000,
                        1 <= cw <= 0x100000000,
                ;
            }
            let srow: i128 = (y as i128) * (cw as i128);
            proof {
                assert(oy + y <= 0x200000000);
                assert(0 <= ((oy + y) as i128) * (w as i128) <= 0x1000000000000000000)
                    by (nonlinear_arith)
                    requires
                        0 <= oy + y,
                        oy + y <= 0x200000000,
                        1 <= w <= 0x100000000,
                ;
            }
            let drow_y: i128 = ((oy + y) as i128) * (w as i128);
            proof {
                if oy + y < h {
                    assert(drow_y + w <= (w as i128) * (h as i128)) by (nonlinear_arith)
                        requires
                            drow_y == ((oy + y) as i128) * (w as i128),
                            0 <= oy + y,
                            oy + y < h,
                            1 <= w,
                            h <= 0x100000000,
                            w <= 0x100000000,
                    ;
                }
            }
            let mut x: i64 = 0;
            while x < cw
                invariant
                    0 <= x <= cw,
                    0 <= y < ch,
                    1 <= w <= 0x100000000,
                    1 <= h <= 0x100000000,
                    wi == w as int,
                    hi == h as int,
                    ml == min_left as int,
                    mt == min_top as int,
                    0 <= i < captures@.len(),
                    c == &captures@[i as int],
                    cw as int == cap_w(captures@[i as int]),
                    ch as int == cap_h(captures@[i as int]),
                    1 <= cw <= 0x100000000,
                    1 <= ch <= 0x100000000,
                    ox as int == cap_ox(captures@[i as int], ml),
                    oy as int == cap_oy(captures@[i as int], mt),
                    0 <= ox,
                    0 <= oy,
                    srow == (y as i128) * (cw as i128),
                    0 <= srow <= 0x10000000000000000,
                    drow_y == ((oy + y) as i128) * (w as i128),
                    0 <= drow_y <= 0x1000000000000000000,
                    oy + y < h ==> drow_y + w <= (w as i128) * (h as i128),
                    rowstart.len() == 4 * (wi * hi),
                    4 * (wi * hi) <= usize::MAX,
                    (w as i128) * (h as i128) == wi * hi,
                    canvas@ == blit_row(
                        rowstart,
                        captures@[i as int],
                        wi,
                        hi,
                        ml,
                        mt,
                        y as int,
                        x as int,
                    ),
                    canvas@.len() == rowstart.len(),
                decreases cw - x,
            {
                let ghost before = canvas@;
                let src: i128 = (srow + (x as i128)) * 4;
                proof {
                    assert(src == ((y as int) * cap_w(captures@[i as int]) + (x as int)) * 4);
                }
                if src + 3 < c.pixels.len() as i128 {
                    let s = src as usize;
                    let bb = c.pixels[s];
                    let gg = c.pixels[s + 1];
                    let rr = c.pixels[s + 2];
                    let dx: i64 = ox + x;
                    let dy: i64 = oy + y;
                    if dx < w && dy < h {
                        let base128: i128 = (drow_y + (dx as i128)) * 4;
                        proof {
                            assert(drow_y + dx < (w as i128) * (h as i128));
                            assert(0 <= base128 && base128 + 3 < 4 * (wi * hi));
                            assert(base128 == ((dy as int) * wi + (dx as int)) * 4);
                        }
                        let base = base128 as usize;
                        canvas[base] = rr;
                        canvas[base + 1] = gg;
                        canvas[base + 2] = bb;
                        canvas[base + 3] = 255;
                    }
                }
                proof {
                    assert(canvas@ == blit_px(
                        before,
                        captures@[i as int],
                        wi,
                        hi,
                        ml,
                        mt,
                        y as int,
                        x as int,
                    ));
                }
                x += 1;
            }
            y += 1;
        }
        proof {
            assert(canvas@ == blit_capture(capstart, captures@[i as int], wi, hi, ml, mt));
            assert(captures@.take(i + 1).drop_last() =~= captures@.take(i as int));
            assert(captures@.take(i + 1).last() == captures@[i as int]);
        }
        i += 1;
    }
    proof {
        assert(captures@.take(captures@.len() as int) =~= captures@);
    }
    Ok(canvas)
}

/// The virtual-desktop geometry of a capture set: the least left and top
/// edge and the clamped size of the union bounding box. `None` exactly when
/// no rectangle is given.
pub struct SnapshotGeometry {
    pub min_left: i32,
    pub min_top: i32,
    pub width: i64,
    pub height: i64,
}

/// Computes the bounding geometry the stitch canvas uses: minimal left/top,
/// maximal right/bottom, each side clamped to at least one pixel.
pub fn snapshot_geometry(rects: &Vec<Rect>) -> (r: Option<SnapshotGeometry>)
    ensures
        (r is Some) == (rects@.len() > 0),
        r matches Some(g) ==> {
            &&& 1 <= g.width <= 0x100000000
            &&& 1 <= g.height <= 0x100000000
            &&& forall|i: int|
                0 <= i < rects@.len() ==> {
                    &&& g.min_left <= #[trigger] rects@[i].left
                    &&& g.min_top <= rects@[i].top
                    &&& g.min_left + g.width >= rects@[i].right || g.width == 1
                    &&& g.min_top + g.height >= rects@[i].bottom || g.height == 1
                }
            &&& exists|i: int| 0 <= i < rects@.len() && g.min_left == #[trigger] rects@[i].left
            &&& exists|i: int| 0 <= i < rects@.len() && g.min_top == #[trigger] rects@[i].top
            &&& exists|i: int|
                0 <= i < rects@.len() && (g.width == rects@[i].right - g.min_left || g.width
                    == 1)
            &&& exists|i: int|
                0 <= i < rects@.len() && (g.height == rects@[i].bottom - g.min_top || g.height
                    == 1)
        },
{
    match bounding_box(rects) {
        None => None,
        Some(b) => {
            let wraw: i64 = b.right as i64 - b.left as i64;
            let hraw: i64 = b.bottom as i64 - b.top as i64;
            let width: i64 = if wraw >= 1 {
                wraw
            } else {
                1
            };
            let height: i64 = if hraw >= 1 {
                hraw
            } else {
                1
            };
            proof {
                if wraw >= 1 {
                    let iw = choose|i: int|
                        0 <= i < rects@.len() && b.right == #[trigger] rects@[i].right;
                    assert(0 <= iw < rects@.len() && (width == rects@[iw].right - b.left || width
                        == 1));
                } else {
                    assert(0 <= 0 < rects@.len() && (width == rects@[0].right - b.left || width
                        == 1));
                }
                if hraw >= 1 {
                    let ih = choose|i: int|
                        0 <= i < rects@.len() && b.bottom == #[trigger] rects@[i].bottom;
                    assert(0 <= ih < rects@.len() && (height == rects@[ih].bottom - b.top
                        || height == 1));
                } else {
                    assert(0 <= 0 < rects@.len() && (height == rects@[0].bottom - b.top || height
                        == 1));
                }
            }
            Some(SnapshotGeometry { min_left: b.left, min_top: b.top, width, height })
        },
    }
}

/// One stitch job: the captured buffers and the canvas geometry, handed
/// from the tick thread to the stitch worker as owned data.
pub struct SnapshotJob {
    pub captures: Vec<Capture>,
    pub geometry: SnapshotGeometry,
}

/// The depth-one job mailbox between the tick thread and the stitch
/// worker: offering never blocks and never fails; a newer job replaces any
/// job still waiting.
pub struct SnapshotMailbox {
    slot: Option<SnapshotJob>,
}

impl SnapshotMailbox {
    /// The job waiting in the slot, if any.
    pub closed spec fn pending(&self) -> Option<SnapshotJob> {
        self.slot
    }

    /// An empty mailbox.
    pub fn new() -> (r: Self)
        ensures
            r.pending() is None,
    {
        SnapshotMailbox { slot: None }
    }

    /// Offers a job: the mailbox afterwards holds exactly this job,
    /// whatever it held before. The producer never waits; a superseded job
    /// is simply dropped.
    pub fn offer(&mut self, job: SnapshotJob)
        ensures
            final(self).pending() == Some(job),
    {
        self.slot = Some(job);
    }

    /// Takes the waiting job, leaving the mailbox empty.
    pub fn take(&mut self) -> (r: Option<SnapshotJob>)
        ensures
            r == old(self).pending(),
            final(self).pending() is None,
    {
        self.slot.take()
    }
}

/// The BMP byte stream the image encoder produces for an RGBA canvas of
/// the given size. The encoding depends on the dimensions and pixel bytes
/// alone.
pub uninterp spec fn bmp_encoding(width: u32, height: u32, rgba: Seq<u8>) -> Seq<u8>;

/// Relies on image's `BmpEncoder::encode` with the RGBA color type: it
/// writes the BMP encoding of the pixel buffer into the output vector, a
/// function of the dimensions and bytes alone, and fails only through the
/// returned error. Its failure paths are the encoder's `u32` size checks
/// (row bytes `4*w`, pixel bytes `4*w*h`, and the file size, which adds the
/// 122 bytes of file and V4 info header); the writer is a `Vec`, which
/// cannot fail, so within those bounds the call succeeds.
#[verifier::external_body]
fn encode_bmp_rgba(width: u32, height: u32, rgba: &Vec<u8>) -> (r: Option<Vec<u8>>)
    requires
        rgba@.len() == 4 * ((width as int) * (height as int)),
    ensures
        r matches Some(b) ==> b@ == bmp_encoding(width, height, rgba@),
        (height >= 1 && 4 * ((width as int) * (height as int)) + 122 <= u32::MAX) ==> r is Some,
{
    let mut out: Vec<u8> = Vec::new();
    let mut encoder = image::codecs::bmp::BmpEncoder::new(&mut out);
    match encoder.encode(rgba.as_slice(), width, height, image::ExtendedColorType::Rgba8) {
        Ok(()) => Some(out),
        Err(_) => None,
    }
}

/// Encodes a stitched canvas as a BMP byte stream, checking that the
/// dimensions are encodable and match the buffer before handing the pixels
/// to the encoder. Encoding is owed whenever the dimensions are positive,
/// the buffer matches them, and the encoded file size fits the format's
/// 32-bit limit.
pub fn encode_snapshot_bmp(width: i64, height: i64, rgba: &Vec<u8>) -> (r: Option<Vec<u8>>)
    ensures
        r matches Some(b) ==> {
            &&& 1 <= width <= u32::MAX
            &&& 1 <= height <= u32::MAX
            &&& rgba@.len() == 4 * (width * height)
            &&& b@ == bmp_encoding(width as u32, height as u32, rgba@)
        },
        (width < 1 || width > u32::MAX || height < 1 || height > u32::MAX) ==> r is None,
        (1 <= width && 1 <= height && rgba@.len() == 4 * (width * height) && 4 * (width * height)
            + 122 <= u32::MAX) ==> r is Some,
{
    proof {
        if 1 <= width && 1 <= height && 4 * (width * height) + 122 <= u32::MAX {
            assert(width <= u32::MAX && height <= u32::MAX) by (nonlinear_arith)
                requires
                    1 <= width,
                    1 <= height,
                    4 * (width * height) + 122 <= u32::MAX,
            ;
        }
    }
    if width < 1 || height < 1 || width > u32::MAX as i64 || height > u32::MAX as i64 {
        return None;
    }
    proof {
        assert(0 <= (width as i128) * (height as i128) <= 0x10000000000000000 && (width as i128)
            * (height as i128) == width * height) by (nonlinear_arith)
            requires
                1 <= width <= 0x100000000,
                1 <= height <= 0x100000000,
        ;
    }
    let expected: i128 = 4 * ((width as i128) * (height as i128));
    if rgba.len() as i128 != expected {
        return None;
    }
    encode_bmp_rgba(width as u32, height as u32, rgba)
}

/// The clamped capture width, executable form.
fn cap_w_of(c: &Capture) -> (r: i64)
    ensures
        r as int == cap_w(*c),
{
    let w: i64 = c.rect.right as i64 - c.rect.left as i64;
    if w >= 1 {
        w
    } else {
        1
    }
}

/// The clamped capture height, executable form.
fn cap_h_of(c: &Capture) -> (r: i64)
    ensures
        r as int == cap_h(*c),
{
    let h: i64 = c.rect.bottom as i64 - c.rect.top as i64;
    if h >= 1 {
        h
    } else {
        1
    }
}

} // verus!
