use vstd::prelude::*;

verus! {

/// One decoded picture: a tightly packed RGBA byte buffer (4 bytes per pixel,
/// row-major, stride `width * 4`) together with the raw presentation
/// timestamp the stream gave it, if any. A frame without a timestamp cannot
/// be scheduled for display; the selector recycles its buffer on sight.
#[derive(Debug)]
pub struct VideoFrame {
    pub width: u32,
    pub height: u32,
    pub data: Vec<u8>,
    pub pts: Option<i64>,
}

impl VideoFrame {
    /// The buffer holds exactly one tightly packed RGBA pixel per coordinate.
    pub open spec fn sized_for(&self, width: u32, height: u32) -> bool {
        &&& self.width == width
        &&& self.height == height
        &&& self.data@.len() == width as int * height as int * 4
    }
}

} // verus!
