//! Regions of a picture.

use vstd::prelude::*;

verus! {

/// A set of pixels, given by their numbers, with one colour.
pub struct Region {
    pub id: usize,
    pub color: u32,
    pixels: Vec<u32>,
}

/// What a `Region` holds.
pub ghost struct RegionView {
    pub id: usize,
    pub color: u32,
    pub pixels: Seq<u32>,
}

impl View for Region {
    type V = RegionView;

    closed spec fn view(&self) -> RegionView {
        RegionView { id: self.id, color: self.color, pixels: self.pixels@ }
    }
}

impl Region {
    /// The region `id` of colour `color` that holds `pixels`.
    pub fn new(id: usize, color: u32, pixels: Vec<u32>) -> (r: Region)
        ensures
            r@ == (RegionView { id, color, pixels: pixels@ }),
    {
        Region { id, color, pixels }
    }

    /// How many pixels the region holds.
    pub fn pixel_count(&self) -> (n: usize)
        ensures
            n == self@.pixels.len(),
    {
        self.pixels.len()
    }

    /// The pixels of the region, in the order they were given in.
    pub fn get_pixels(&self) -> (p: &[u32])
        ensures
            p@ == self@.pixels,
    {
        self.pixels.as_slice()
    }
}

} // verus!
