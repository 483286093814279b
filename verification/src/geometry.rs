//! Rectangles and sizes whose coordinates are carried exactly, each as the
//! bit pattern of the 32-bit float it stands for.
use vstd::prelude::*;

verus! {

/// A rectangle: position and extent, each the bit pattern of an `f32`.
#[derive(Clone, Copy, Debug, PartialEq, Eq, Structural)]
pub struct Rectangle {
    pub x: u32,
    pub y: u32,
    pub width: u32,
    pub height: u32,
}

/// A size: width and height, each the bit pattern of an `f32`.
#[derive(Clone, Copy, Debug, PartialEq, Eq, Structural)]
pub struct Size {
    pub width: u32,
    pub height: u32,
}

impl Rectangle {
    /// The size of the rectangle.
    pub fn size(&self) -> (s: Size)
        ensures
            s.width == self.width,
            s.height == self.height,
    {
        Size { width: self.width, height: self.height }
    }
}

} // verus!
