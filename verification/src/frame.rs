use vstd::prelude::*;

verus! {

/// One captured image: a tightly packed, row-major RGBA pixel buffer
/// (4 bytes per pixel), its dimensions, and the zero-based sequence
/// index assigned when it was accepted into a session.
pub struct FrameData {
    pub pixels: Vec<u8>,
    pub width: u32,
    pub height: u32,
    pub index: u32,
}

/// A frame is well formed when both dimensions are positive and the
/// buffer holds exactly 4 bytes per pixel.
pub open spec fn frame_dims_valid(len: nat, width: u32, height: u32) -> bool {
    &&& width > 0
    &&& height > 0
    &&& len == width * height * 4
}

impl FrameData {
    pub open spec fn wf(self) -> bool {
        frame_dims_valid(self.pixels@.len(), self.width, self.height)
    }

    /// Copies the caller's pixel buffer byte for byte into a fresh
    /// frame unit carrying the given dimensions and sequence index;
    /// the caller's buffer is never retained or aliased.
    pub fn new(pixels: &[u8], width: u32, height: u32, index: u32) -> (f: FrameData)
        ensures
            f.pixels@ == pixels@,
            f.width == width,
            f.height == height,
            f.index == index,
    {
        FrameData { pixels: vstd::slice::slice_to_vec(pixels), width, height, index }
    }
}

/// Checks the frame-buffer invariant on plain values: positive
/// dimensions and a buffer of exactly `width * height * 4` bytes.
pub fn dims_valid(len: usize, width: u32, height: u32) -> (r: bool)
    ensures
        r == frame_dims_valid(len as nat, width, height),
{
    let w: u128 = width as u128;
    let h: u128 = height as u128;
    proof {
        assert(w * h <= 0xffff_ffff * 0xffff_ffff) by (nonlinear_arith)
            requires
                w <= 0xffff_ffff,
                h <= 0xffff_ffff,
        ;
    }
    width > 0 && height > 0 && (len as u128) == w * h * 4
}

} // verus!
