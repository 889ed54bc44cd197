//! The size of a window's drawing surface.

use vstd::prelude::*;

verus! {

/// The size the surface is configured with.
#[derive(Debug, Clone, Copy, PartialEq, Eq, Structural)]
pub struct SurfaceSize {
    pub width: u32,
    pub height: u32,
}

impl SurfaceSize {
    /// Takes the window size `width` by `height`: an empty or unchanged size
    /// is ignored. Returns whether the surface must be configured anew.
    pub fn resize(&mut self, width: u32, height: u32) -> (r: bool)
        ensures
            r == (width != 0 && height != 0 && !(old(self).width == width && old(self).height == height)),
            *final(self) == if r {
                SurfaceSize { width, height }
            } else {
                *old(self)
            },
    {
        if width == 0 || height == 0 {
            return false;
        }
        if self.width == width && self.height == height {
            return false;
        }
        self.width = width;
        self.height = height;
        true
    }
}

} // verus!
