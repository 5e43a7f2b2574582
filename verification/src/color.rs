//! A list of colours.

use vstd::prelude::*;

verus! {

/// Colours, each packed in 32 bits, in a fixed order.
pub struct ColorPalette {
    colors: Vec<u32>,
}

impl View for ColorPalette {
    type V = Seq<u32>;

    closed spec fn view(&self) -> Seq<u32> {
        self.colors@
    }
}

impl ColorPalette {
    /// The palette of `colors`, in their order.
    pub fn new(colors: Vec<u32>) -> (p: ColorPalette)
        ensures
            p@ == colors@,
    {
        ColorPalette { colors }
    }

    /// A copy of the colours, in their order.
    pub fn get_colors(&self) -> (colors: Vec<u32>)
        ensures
            colors@ == self@,
    {
        self.colors.clone()
    }
}

} // verus!
