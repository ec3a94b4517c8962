use vstd::prelude::*;

verus! {

/// A size in physical pixels.
#[derive(Clone, Copy, Debug, PartialEq, Eq, Structural)]
pub struct PhysicalSize {
    pub width: u32,
    pub height: u32,
}

/// A camera viewport: its offset and size in physical pixels.
#[derive(Clone, Copy, Debug, PartialEq, Eq, Structural)]
pub struct ViewportRect {
    pub x: u32,
    pub y: u32,
    pub width: u32,
    pub height: u32,
}

impl ViewportRect {
    /// The rectangle ends within a target of size `size` on both axes.
    pub open spec fn fits_within_spec(self, size: PhysicalSize) -> bool {
        &&& self.x + self.width <= size.width
        &&& self.y + self.height <= size.height
    }

    pub fn fits_within(&self, size: PhysicalSize) -> (r: bool)
        ensures
            r == self.fits_within_spec(size),
    {
        (self.x as u64) + (self.width as u64) <= size.width as u64 && (self.y as u64) + (
        self.height as u64) <= size.height as u64
    }
}

} // verus!
