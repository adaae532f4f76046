//! Grayscale pixel buffers and the binarizer.

use vstd::prelude::*;

verus! {

/// Largest pixel count a buffer may hold. The bound keeps every quantity
/// of the exact between-class-variance comparison inside 128-bit
/// arithmetic; it admits any image of up to 4 gigapixels.
pub const MAX_PIXELS: u64 = 0xffff_ffff;

/// An 8-bit single-channel pixel matrix, row-major. Dimensions are fixed
/// at construction; sample `i` is the pixel at row `i / width`, column
/// `i % width`.
pub struct GrayBuffer {
    pub width: u32,
    pub height: u32,
    pub data: Vec<u8>,
}

impl GrayBuffer {
    /// The buffer holds exactly `width * height` samples, and the pixel
    /// count leaves the threshold solver its arithmetic headroom.
    pub open spec fn wf(&self) -> bool {
        &&& self.data@.len() == (self.width as nat) * (self.height as nat)
        &&& self.data@.len() <= MAX_PIXELS as nat
    }

    pub open spec fn pixel_count(&self) -> nat {
        self.data@.len()
    }

    /// Every sample is strictly black or strictly white.
    pub open spec fn is_binary(&self) -> bool {
        forall|i: int| 0 <= i < self.data@.len() ==> self.data@[i] == 0 || self.data@[i] == 255
    }

    /// Assembles a buffer from the raw parts a decoder hands back,
    /// rejecting a zero-area image and one whose pixel count exceeds
    /// [`MAX_PIXELS`].
    pub fn new(width: u32, height: u32, data: Vec<u8>) -> (r: Option<GrayBuffer>)
        ensures
            (r is Some) <==> (data@.len() == (width as nat) * (height as nat)
                && 0 < data@.len() <= MAX_PIXELS as nat),
            r is Some ==> {
                let g = r.unwrap();
                &&& g.wf()
                &&& g.width == width
                &&& g.height == height
                &&& g.data@ == data@
                &&& g.pixel_count() > 0
            },
    {
        proof {
            vstd::arithmetic::mul::lemma_mul_upper_bound(
                width as int, 0xffff_ffffint, height as int, 0xffff_ffffint);
        }
        let area = (width as u64) * (height as u64);
        if area == 0 || area > MAX_PIXELS {
            return None;
        }
        if (data.len() as u64) != area {
            return None;
        }
        Some(GrayBuffer { width, height, data })
    }
}

/// The exact binarization rule: a sample strictly above the threshold
/// becomes white (255), a sample at or below it becomes black (0).
pub open spec fn binarize_pixel(p: u8, t: u8) -> u8 {
    if p > t { 255 } else { 0 }
}

/// The binarizer is total and two-level: for every sample and threshold
/// the output is 0 or 255 and never any other value, white exactly on
/// samples strictly above the threshold.
pub proof fn lemma_binarizer_total(p: u8, t: u8)
    ensures
        binarize_pixel(p, t) == 0 || binarize_pixel(p, t) == 255,
        p > t ==> binarize_pixel(p, t) == 255,
        p <= t ==> binarize_pixel(p, t) == 0,
{
}

/// Applies the threshold to every sample, keeping the dimensions.
pub fn apply(g: &GrayBuffer, t: u8) -> (r: GrayBuffer)
    requires
        g.wf(),
    ensures
        r.wf(),
        r.width == g.width,
        r.height == g.height,
        r.data@.len() == g.data@.len(),
        forall|i: int| 0 <= i < g.data@.len() ==> r.data@[i] == binarize_pixel(g.data@[i], t),
        r.is_binary(),
{
    let mut out: Vec<u8> = Vec::new();
    let mut i: usize = 0;
    while i < g.data.len()
        invariant
            g.wf(),
            i <= g.data@.len(),
            out@.len() == i,
            forall|j: int| 0 <= j < i ==> out@[j] == binarize_pixel(g.data@[j], t),
        decreases g.data@.len() - i,
    {
        let p = g.data[i];
        if p > t {
            out.push(255);
        } else {
            out.push(0);
        }
        i = i + 1;
    }
    GrayBuffer { width: g.width, height: g.height, data: out }
}

} // verus!
