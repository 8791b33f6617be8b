//! In-memory model of a raster and the window-extraction step: copying the
//! samples of a pixel window out of every band of a source raster into a new
//! raster sized to the window.  A sample is carried as a raw 64-bit pattern;
//! extraction copies patterns verbatim, so it is exact for any sample type
//! that fits 64 bits.

use vstd::prelude::*;
use vstd::arithmetic::div_mod::lemma_fundamental_div_mod;
use vstd::arithmetic::div_mod::lemma_fundamental_div_mod_converse;
use vstd::arithmetic::mul::lemma_mul_inequality;
use crate::window::PixelWindow;

verus! {

/// A raster held in memory: one row-major sample buffer per band, each of
/// exactly `width * height` samples.  Band order is significant and is
/// preserved by extraction.
pub struct Raster {
    pub width: usize,
    pub height: usize,
    pub bands: Vec<Vec<u64>>,
}

impl Raster {
    /// Every band holds exactly one sample per pixel.
    pub open spec fn wf(self) -> bool {
        forall|b: int|
            0 <= b < self.bands@.len() ==> (#[trigger] self.bands@[b])@.len() == self.width
                * self.height
    }
}

/// Whether window `w` lies inside the pixel grid of raster `r`.
pub open spec fn window_in(r: Raster, w: PixelWindow) -> bool {
    w.x_off + w.width <= r.width && w.y_off + w.height <= r.height
}

/// The samples of band `b` of raster `r` that lie in window `w`, row-major.
pub open spec fn band_window_seq(r: Raster, b: int, w: PixelWindow) -> Seq<u64> {
    Seq::new(
        (w.width * w.height) as nat,
        |i: int|
            {
                let row = w.y_off + i / (w.width as int);
                let col = w.x_off + i % (w.width as int);
                r.bands@[b]@[row * r.width + col]
            },
    )
}

/// The window that covers all of raster `r`.
pub open spec fn full_window(r: Raster) -> PixelWindow {
    PixelWindow { x_off: 0, y_off: 0, width: r.width, height: r.height }
}

/// Copy the samples of window `w` of band `b` out of `r`, row-major.
pub fn read_band_window(r: &Raster, b: usize, w: &PixelWindow) -> (buf: Vec<u64>)
    requires
        r.wf(),
        b < r.bands@.len(),
        window_in(*r, *w),
    ensures
        buf@ == band_window_seq(*r, b as int, *w),
{
    let band: &Vec<u64> = &r.bands[b];
    let band_len = band.len();
    let mut buf: Vec<u64> = Vec::new();
    let mut row: usize = 0;
    while row < w.height
        invariant
            r.wf(),
            b < r.bands@.len(),
            window_in(*r, *w),
            band@ == r.bands@[b as int]@,
            band_len == band@.len(),
            row <= w.height,
            buf@.len() == row * w.width,
            forall|i: int|
                0 <= i < buf@.len() ==> buf@[i] == band_window_seq(*r, b as int, *w)[i],
        decreases w.height - row,
    {
        let mut col: usize = 0;
        while col < w.width
            invariant
                r.wf(),
                b < r.bands@.len(),
                window_in(*r, *w),
                band@ == r.bands@[b as int]@,
                band_len == band@.len(),
                row < w.height,
                col <= w.width,
                buf@.len() == row * w.width + col,
                forall|i: int|
                    0 <= i < buf@.len() ==> buf@[i] == band_window_seq(*r, b as int, *w)[i],
            decreases w.width - col,
        {
            proof {
                lemma_mul_inequality(
                    (w.y_off + row + 1) as int,
                    r.height as int,
                    r.width as int,
                );
                assert((w.y_off + row + 1) * r.width == (w.y_off + row) * r.width + r.width)
                    by (nonlinear_arith);
                assert(r.height * r.width == r.width * r.height) by (nonlinear_arith);
                lemma_mul_inequality((row + 1) as int, w.height as int, w.width as int);
                assert((row + 1) * w.width == row * w.width + w.width) by (nonlinear_arith);
                assert(w.height * w.width == w.width * w.height) by (nonlinear_arith);
                lemma_fundamental_div_mod_converse(
                    row * w.width + col,
                    w.width as int,
                    row as int,
                    col as int,
                );
            }
            let idx = (w.y_off + row) * r.width + (w.x_off + col);
            buf.push(band[idx]);
            col += 1;
        }
        proof {
            assert((row + 1) * w.width == row * w.width + w.width) by (nonlinear_arith);
        }
        row += 1;
    }
    proof {
        assert(w.height * w.width == w.width * w.height) by (nonlinear_arith);
        assert(buf@ =~= band_window_seq(*r, b as int, *w));
    }
    buf
}

/// Extract window `w` from every band of `src`, in band order, into a new
/// raster whose pixel grid is exactly the window.  The output has the same
/// band count as the source, and band `b` of the output holds precisely the
/// windowed samples of band `b` of the source: no band is dropped,
/// reordered, resampled or partially written.
pub fn extract_tile(src: &Raster, w: &PixelWindow) -> (out: Raster)
    requires
        src.wf(),
        window_in(*src, *w),
    ensures
        out.wf(),
        out.width == w.width,
        out.height == w.height,
        out.bands@.len() == src.bands@.len(),
        forall|b: int|
            0 <= b < src.bands@.len() ==> (#[trigger] out.bands@[b])@ == band_window_seq(
                *src,
                b,
                *w,
            ),
{
    let mut bands: Vec<Vec<u64>> = Vec::new();
    let n = src.bands.len();
    let mut b: usize = 0;
    while b < n
        invariant
            src.wf(),
            window_in(*src, *w),
            n == src.bands@.len(),
            b <= n,
            bands@.len() == b,
            forall|i: int|
                0 <= i < b ==> (#[trigger] bands@[i])@ == band_window_seq(*src, i, *w),
        decreases n - b,
    {
        let buf = read_band_window(src, b, w);
        bands.push(buf);
        b += 1;
    }
    let out = Raster { width: w.width, height: w.height, bands };
    proof {
        assert(w.width * w.height == out.width * out.height);
    }
    out
}

/// Assemble a raster from externally produced band buffers, accepting them
/// only when every buffer holds exactly one sample per pixel of a `width`
/// by `height` grid; otherwise no raster is produced at all, so a raster is
/// never assembled with a partially written band.
pub fn from_bands(width: usize, height: usize, bands: Vec<Vec<u64>>) -> (r: Option<Raster>)
    ensures
        r is Some <==> (forall|b: int|
            0 <= b < bands@.len() ==> (#[trigger] bands@[b])@.len() == width * height),
        r matches Some(ra) ==> {
            &&& ra.wf()
            &&& ra.width == width
            &&& ra.height == height
            &&& ra.bands@ == bands@
        },
{
    if bands.len() == 0 {
        return Some(Raster { width, height, bands });
    }
    let first_len = bands[0].len();
    let expected = match width.checked_mul(height) {
        Some(e) => e,
        None => {
            proof {
                assert(first_len < width * height);
                assert(bands@[0]@.len() != width * height);
            }
            return None;
        },
    };
    let n = bands.len();
    let mut b: usize = 0;
    while b < n
        invariant
            n == bands@.len(),
            b <= n,
            expected == width * height,
            forall|i: int| 0 <= i < b ==> (#[trigger] bands@[i])@.len() == width * height,
        decreases n - b,
    {
        if bands[b].len() != expected {
            return None;
        }
        b += 1;
    }
    Some(Raster { width, height, bands })
}

/// A tile's content is a function of the source raster and the window
/// alone: any two rasters that satisfy `extract_tile`'s contract for the
/// same source and window hold identical samples in every band.  The order
/// in which tiles are extracted, or how many are extracted at once,
/// therefore cannot change what any one tile holds.
pub proof fn lemma_extraction_deterministic(
    src: Raster,
    w: PixelWindow,
    out1: Raster,
    out2: Raster,
)
    requires
        out1.bands@.len() == src.bands@.len(),
        forall|b: int|
            0 <= b < src.bands@.len() ==> (#[trigger] out1.bands@[b])@ == band_window_seq(
                src,
                b,
                w,
            ),
        out2.bands@.len() == src.bands@.len(),
        forall|b: int|
            0 <= b < src.bands@.len() ==> (#[trigger] out2.bands@[b])@ == band_window_seq(
                src,
                b,
                w,
            ),
    ensures
        out1.bands@.len() == out2.bands@.len(),
        forall|b: int|
            0 <= b < out1.bands@.len() ==> (#[trigger] out1.bands@[b])@ == out2.bands@[b]@,
{
}

/// Reading back any band of an extracted tile through the tile's own full
/// window yields exactly the samples that reading the same window from the
/// source yields: extraction is a lossless crop.
pub proof fn lemma_extract_round_trip(src: Raster, out: Raster, w: PixelWindow, b: int)
    requires
        src.wf(),
        window_in(src, w),
        out.width == w.width,
        out.height == w.height,
        out.bands@.len() == src.bands@.len(),
        forall|i: int|
            0 <= i < out.bands@.len() ==> (#[trigger] out.bands@[i])@ == band_window_seq(
                src,
                i,
                w,
            ),
        0 <= b < src.bands@.len(),
    ensures
        band_window_seq(out, b, full_window(out)) == band_window_seq(src, b, w),
{
    let fw = full_window(out);
    let lhs = band_window_seq(out, b, fw);
    let rhs = band_window_seq(src, b, w);
    assert(lhs.len() == rhs.len());
    assert forall|i: int| 0 <= i < lhs.len() implies lhs[i] == rhs[i] by {
        let ww = w.width as int;
        lemma_fundamental_div_mod(i, ww);
        assert((i / ww) * ww + (i % ww) == i) by (nonlinear_arith)
            requires
                i == ww * (i / ww) + (i % ww),
        ;
        assert(lhs[i] == out.bands@[b]@[i]);
        assert(out.bands@[b]@ == rhs);
    };
    assert(lhs =~= rhs);
}

} // verus!
