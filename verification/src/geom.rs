//! Rectangles used by the detectors: caption boxes and crop regions.

use vstd::prelude::*;

verus! {

/// An axis-aligned rectangle found by the box detector, in pixel units,
/// within the bounds of the frame it was detected on.
#[derive(Clone, Copy, Debug, PartialEq, Eq, Structural)]
pub struct BoundingBox {
    pub x: u32,
    pub y: u32,
    pub w: u32,
    pub h: u32,
}

impl BoundingBox {
    /// Area of the rectangle in pixels.
    pub open spec fn area(self) -> int {
        self.w * self.h
    }

    /// The detector never returns a degenerate rectangle.
    pub open spec fn wf(self) -> bool {
        self.w > 0 && self.h > 0
    }

    /// The rectangle lies within a frame of the given dimensions.
    pub open spec fn within(self, width: int, height: int) -> bool {
        self.x + self.w <= width && self.y + self.h <= height
    }
}

/// The sub-rectangle of a frame to keep when stripping static borders.
/// Same shape as `BoundingBox`, but it names the region that stays.
#[derive(Clone, Copy, Debug, PartialEq, Eq, Structural)]
pub struct CropRect {
    pub x: u32,
    pub y: u32,
    pub w: u32,
    pub h: u32,
}

impl CropRect {
    /// A crop region never has zero width or height.
    pub open spec fn wf(self) -> bool {
        self.w > 0 && self.h > 0
    }

    /// The region lies within a frame of the given dimensions.
    pub open spec fn within(self, width: int, height: int) -> bool {
        self.x + self.w <= width && self.y + self.h <= height
    }
}

} // verus!
