//! Pictures in memory.
use vstd::prelude::*;
use crate::geometry::PhysicalSize;

verus! {

/// A picture with four bytes per pixel, row by row.
#[derive(Clone, Debug, PartialEq, Eq)]
pub struct RgbaSurface {
    /// Its dimensions.
    pub size: PhysicalSize,
    /// Its pixels.
    pub pixels: Vec<u8>,
}

impl RgbaSurface {
    /// Whether the picture holds exactly the pixels of its dimensions.
    pub open spec fn wf(self) -> bool {
        self.pixels@.len() == 4 * self.size.pixel_count()
    }

    /// The picture of the given dimensions and bytes, where they agree.
    pub fn new(size: PhysicalSize, pixels: Vec<u8>) -> (surface: Option<RgbaSurface>)
        ensures
            match surface {
                Some(value) => value.wf() && value.size == size && value.pixels == pixels,
                None => pixels@.len() != 4 * size.pixel_count(),
            },
    {
        if pixels.len() as u128 == 4 * (size.area() as u128) {
            Some(RgbaSurface { size, pixels })
        } else {
            None
        }
    }
}

} // verus!
