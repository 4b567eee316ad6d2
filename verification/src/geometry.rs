//! A rectangle and its two measures — independent computations, fit to be
//! evaluated on parallel workers.

use vstd::prelude::*;

verus! {

/// An axis-aligned rectangle.
#[derive(Clone, Copy)]
pub struct Rectangle {
    pub height: u32,
    pub width: u32,
}

impl Rectangle {
    /// The enclosed area.
    pub fn area(&self) -> (r: u32)
        requires
            self.height * self.width <= u32::MAX,
        ensures
            r == self.height * self.width,
    {
        self.height * self.width
    }

    /// The length of the outline.
    pub fn perimeter(&self) -> (r: u32)
        requires
            2 * (self.height + self.width) <= u32::MAX,
        ensures
            r == 2 * (self.height + self.width),
    {
        2 * (self.height + self.width)
    }
}

} // verus!
