//! An NV12 frame read back from the GPU: the luma plane, then the
//! interleaved chroma plane, in one buffer.

use vstd::prelude::*;

verus! {

/// An NV12 frame in memory: `data` holds the luma rows (`stride_y` apart),
/// then the chroma rows (`stride_uv` apart).
#[derive(Debug, Clone)]
pub struct Nv12Cpu {
    pub data: Vec<u8>,
    pub stride_y: u32,
    pub stride_uv: u32,
    pub width: u32,
    pub height: u32,
}

/// Where the luma plane ends: after `stride_y * height` bytes, or at the end
/// of a shorter buffer.
pub open spec fn luma_end(f: Nv12Cpu) -> int {
    let n = f.stride_y as int * f.height as int;
    if n < f.data@.len() {
        n
    } else {
        f.data@.len() as int
    }
}

impl Nv12Cpu {
    /// The luma plane and the chroma plane.
    pub fn planes(&self) -> (r: (&[u8], &[u8]))
        requires
            self.stride_y as int * self.height as int <= u32::MAX,
        ensures
            r.0@ == self.data@.take(luma_end(*self)),
            r.1@ == self.data@.skip(luma_end(*self)),
    {
        let n = (self.stride_y * self.height) as usize;
        let split = if n < self.data.len() {
            n
        } else {
            self.data.len()
        };
        let (a, b) = self.data.as_slice().split_at(split);
        assert(a@ =~= self.data@.take(luma_end(*self)));
        assert(b@ =~= self.data@.skip(luma_end(*self)));
        (a, b)
    }
}

} // verus!
