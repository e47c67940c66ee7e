//! The rendered pixel buffer held by the view's cache.

use vstd::prelude::*;
use crate::coords::RES_LIMIT;

verus! {

/// A rendered image: row-major RGBA8 pixel data, four bytes per pixel,
/// row `0` at the top as the renderer draws it.
#[derive(Clone, Debug)]
pub struct Frame {
    pub data: Vec<u8>,
    pub width: u32,
    pub height: u32,
}

impl Frame {
    /// The buffer holds exactly `width * height` RGBA8 pixels, and the
    /// dimensions fit the supported render-target sizes.
    pub open spec fn wf(self) -> bool {
        &&& self.width <= RES_LIMIT
        &&& self.height <= RES_LIMIT
        &&& self.data@.len() == 4 * self.pixel_count()
    }

    /// Number of pixels in the buffer.
    pub open spec fn pixel_count(self) -> int {
        self.width * self.height
    }

    /// Red channel of the pixel at linear index `i`.
    pub open spec fn red(self, i: int) -> u8 {
        self.data@[4 * i]
    }

    /// Wrap an RGBA8 byte buffer.  Returns `None` exactly when the
    /// dimensions are out of range or the buffer length does not match
    /// them.
    pub fn from_rgba(width: u32, height: u32, data: Vec<u8>) -> (r: Option<Frame>)
        ensures
            r is Some <==> (width <= RES_LIMIT && height <= RES_LIMIT && data@.len() == 4 * (
            width * height)),
            r matches Some(f) ==> f == (Frame { data, width, height }) && f.wf(),
    {
        if width <= RES_LIMIT && height <= RES_LIMIT {
            proof {
                assert((width as u64) * (height as u64) <= 100_000u64 * 100_000u64)
                    by (nonlinear_arith)
                    requires
                        width <= 100_000u64,
                        height <= 100_000u64,
                ;
            }
            let pixels: u64 = (width as u64) * (height as u64);
            if (data.len() as u64) == 4 * pixels {
                Some(Frame { data, width, height })
            } else {
                None
            }
        } else {
            None
        }
    }
}

} // verus!
