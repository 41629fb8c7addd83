//! The RGBA raster that every stage of the pipeline writes into.
use vstd::prelude::*;

verus! {

/// RGBA8 image, row-major, four bytes per pixel.
#[derive(Debug, Clone)]
pub struct ImageBuffer {
    pub width: usize,
    pub height: usize,
    pub data: Vec<u8>,
}

/// The four bytes of pixel `p` (row-major index) of a raster.
pub open spec fn pixel_bytes(data: Seq<u8>, p: int) -> (u8, u8, u8, u8) {
    (data[4 * p], data[4 * p + 1], data[4 * p + 2], data[4 * p + 3])
}

/// The four bytes of pixel `(x, y)` of a raster `w` pixels wide.
pub open spec fn pixel_at(data: Seq<u8>, w: int, x: int, y: int) -> (u8, u8, u8, u8) {
    pixel_bytes(data, y * w + x)
}

impl ImageBuffer {
    /// The buffer holds exactly `width * height` pixels.
    pub open spec fn wf(&self) -> bool {
        self.data@.len() == self.width * self.height * 4
    }

    /// Number of pixels.
    pub open spec fn pixel_count(&self) -> int {
        self.width * self.height
    }

    /// Every pixel of the raster is fully opaque.
    pub open spec fn is_opaque(&self) -> bool {
        forall|p: int| 0 <= p < self.pixel_count() ==> #[trigger] self.data@[4 * p + 3] == 255u8
    }
}

} // verus!
