//! RGBA pixel buffers as the `image` crate lays them out (four bytes per
//! pixel, row by row), with the two operations the tool takes from `image`:
//! building a buffer from raw bytes and cropping it.

use vstd::prelude::*;
use crate::text::{hex2, push_hex2, push_str};

verus! {

/// The byte length an RGBA buffer of `width` x `height` pixels needs.
pub open spec fn rgba_len(width: u32, height: u32) -> int {
    4 * (width as int) * (height as int)
}

/// `ImageBuffer::from_raw` accepts `len` bytes for this size: the needed
/// length (computed as `4 * width`, then times `height`) fits in `usize`
/// and `len` is at least that long.
pub open spec fn fits(width: u32, height: u32, len: int) -> bool {
    &&& 4 * (width as int) <= usize::MAX
    &&& rgba_len(width, height) <= usize::MAX
    &&& rgba_len(width, height) <= len
}

/// Channel `c` of pixel (`x`, `y`) in a buffer `width` pixels wide.
pub open spec fn rgba_at(data: Seq<u8>, width: u32, x: int, y: int, c: int) -> u8 {
    data[4 * (y * width + x) + c]
}

/// Where a crop starting at `start` and `len` long lands along an axis of
/// `full` pixels: `image::imageops::crop_imm` moves the start into the image
/// and shortens the length to what is left.
pub open spec fn clamp_start(full: u32, start: u32) -> u32 {
    if start <= full {
        start
    } else {
        full
    }
}

pub open spec fn clamp_len(full: u32, start: u32, len: u32) -> u32 {
    let s = clamp_start(full, start);
    if len <= full - s {
        len
    } else {
        (full - s) as u32
    }
}

/// Calls `image::RgbaImage::from_raw`, handing the buffer back through
/// `into_raw`: `Some` with the same bytes exactly when the container is big
/// enough for the size and the size's byte count fits in `usize`.
#[verifier::external_body]
fn image_from_raw(width: u32, height: u32, data: Vec<u8>) -> (res: Option<Vec<u8>>)
    ensures
        match res {
            Some(d) => fits(width, height, data@.len() as int) && d@ == data@,
            None => !fits(width, height, data@.len() as int),
        },
{
    match image::RgbaImage::from_raw(width, height, data) {
        Some(b) => Some(b.into_raw()),
        None => None,
    }
}

/// Calls `image::imageops::crop_imm` on the buffer and copies the view out
/// with `SubImage::to_image`: the start is moved into the image, the size
/// shortened to what is left, and every pixel of the result is the source
/// pixel at the same offset from the start.
#[verifier::external_body]
fn image_crop(width: u32, height: u32, data: Vec<u8>, x: u32, y: u32, w: u32, h: u32) -> (res: (
    u32,
    u32,
    Vec<u8>,
))
    requires
        fits(width, height, data@.len() as int),
    ensures
        res.0 == clamp_len(width, x, w),
        res.1 == clamp_len(height, y, h),
        res.2@.len() == rgba_len(res.0, res.1),
        forall|i: int, j: int, c: int|
            0 <= i < res.0 && 0 <= j < res.1 && 0 <= c < 4 ==> #[trigger] rgba_at(
                res.2@,
                res.0,
                i,
                j,
                c,
            ) == rgba_at(data@, width, clamp_start(width, x) + i, clamp_start(height, y) + j, c),
{
    let buf = image::RgbaImage::from_raw(width, height, data).unwrap_or_default();
    let out = image::imageops::crop_imm(&buf, x, y, w, h).to_image();
    (out.width(), out.height(), out.into_raw())
}

/// An RGBA image: `width` x `height` pixels, four bytes each, row by row.
pub struct RgbaPixels {
    pub width: u32,
    pub height: u32,
    pub data: Vec<u8>,
}

impl RgbaPixels {
    /// The buffer holds every pixel of the size.
    pub open spec fn wf(&self) -> bool {
        fits(self.width, self.height, self.data@.len() as int)
    }

    /// Channel `c` of pixel (`x`, `y`).
    pub open spec fn at(&self, x: int, y: int, c: int) -> u8 {
        rgba_at(self.data@, self.width, x, y, c)
    }

    /// An image over raw bytes, as `image::RgbaImage::from_raw` builds it:
    /// `None` when the bytes are too few for the size.
    pub fn from_raw(width: u32, height: u32, data: Vec<u8>) -> (res: Option<RgbaPixels>)
        ensures
            match res {
                Some(p) => fits(width, height, data@.len() as int) && p.width == width && p.height
                    == height && p.data@ == data@ && p.wf(),
                None => !fits(width, height, data@.len() as int),
            },
    {
        match image_from_raw(width, height, data) {
            Some(d) => Some(RgbaPixels { width, height, data: d }),
            None => None,
        }
    }

    /// The part of the image from (`x`, `y`) of size `w` x `h`, clamped to the
    /// image as `image::imageops::crop_imm` clamps it.
    pub fn crop(&self, x: u32, y: u32, w: u32, h: u32) -> (r: RgbaPixels)
        requires
            self.wf(),
        ensures
            r.wf(),
            r.width == clamp_len(self.width, x, w),
            r.height == clamp_len(self.height, y, h),
            forall|i: int, j: int, c: int|
                0 <= i < r.width && 0 <= j < r.height && 0 <= c < 4 ==> #[trigger] r.at(i, j, c)
                    == self.at(clamp_start(self.width, x) + i, clamp_start(self.height, y) + j, c),
    {
        let (cw, ch, d) = image_crop(self.width, self.height, self.data.clone(), x, y, w, h);
        proof {
            let ww = self.width as int;
            let hh = self.height as int;
            assert(4 * (cw as int) * (ch as int) <= 4 * ww * hh) by (nonlinear_arith)
                requires
                    cw <= ww,
                    ch <= hh,
                    0 <= cw,
                    0 <= ch,
            ;
        }
        let r = RgbaPixels { width: cw, height: ch, data: d };
        assert forall|i: int, j: int, c: int|
            0 <= i < r.width && 0 <= j < r.height && 0 <= c < 4 implies #[trigger] r.at(i, j, c)
            == self.at(clamp_start(self.width, x) + i, clamp_start(self.height, y) + j, c) by {
            assert(rgba_at(r.data@, cw, i, j, c) == rgba_at(
                self.data@,
                self.width,
                clamp_start(self.width, x) + i,
                clamp_start(self.height, y) + j,
                c,
            ));
        }
        r
    }

    /// The colour at (`x`, `y`) as `#RRGGBB`, or `#000000` outside the image.
    pub fn pick_color(&self, x: u32, y: u32) -> (s: String)
        requires
            self.wf(),
        ensures
            s@ == if x < self.width && y < self.height {
                "#"@ + hex2(self.at(x as int, y as int, 0)) + hex2(self.at(x as int, y as int, 1))
                    + hex2(self.at(x as int, y as int, 2))
            } else {
                "#000000"@
            },
    {
        let mut s = String::new();
        if x >= self.width || y >= self.height {
            push_str(&mut s, "#000000");
            return s;
        }
        proof {
            let ww = self.width as int;
            let hh = self.height as int;
            assert(4 * ((y as int) * ww + (x as int)) + 3 < 4 * ww * hh) by (nonlinear_arith)
                requires
                    0 <= x < ww,
                    0 <= y < hh,
            ;
        }
        let i = 4 * ((y as usize) * (self.width as usize) + (x as usize));
        push_str(&mut s, "#");
        push_hex2(&mut s, self.data[i]);
        push_hex2(&mut s, self.data[i + 1]);
        push_hex2(&mut s, self.data[i + 2]);
        s
    }
}

} // verus!
