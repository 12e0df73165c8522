//! Rectangles of cells and the two axes of a list.

use vstd::prelude::*;

verus! {

/// The axis along which a list scrolls: its main axis. The other axis is its
/// cross axis.
#[derive(Clone, Copy, Debug, PartialEq, Eq, Structural)]
pub enum ScrollAxis {
    /// The list scrolls up and down: heights are sizes along the main axis.
    Vertical,
    /// The list scrolls left and right: widths are sizes along the main axis.
    Horizontal,
}

impl Default for ScrollAxis {
    /// Lists scroll vertically unless they are told otherwise.
    fn default() -> (axis: ScrollAxis)
        ensures
            axis == ScrollAxis::Vertical,
    {
        ScrollAxis::Vertical
    }
}

/// A rectangle of cells, as a mathematical value.
pub ghost struct AreaModel {
    /// Column of the left edge.
    pub x: int,
    /// Row of the top edge.
    pub y: int,
    /// Number of columns.
    pub width: int,
    /// Number of rows.
    pub height: int,
}

impl AreaModel {
    /// The rectangle lies in the grid of cells that 16-bit coordinates reach.
    pub open spec fn fits(self) -> bool {
        &&& 0 <= self.x
        &&& 0 <= self.y
        &&& 0 <= self.width
        &&& 0 <= self.height
        &&& self.x + self.width <= u16::MAX
        &&& self.y + self.height <= u16::MAX
    }

    /// The length of the rectangle along the main axis.
    pub open spec fn main_length(self, axis: ScrollAxis) -> int {
        match axis {
            ScrollAxis::Vertical => self.height,
            ScrollAxis::Horizontal => self.width,
        }
    }

    /// The length of the rectangle along the cross axis.
    pub open spec fn cross_length(self, axis: ScrollAxis) -> int {
        match axis {
            ScrollAxis::Vertical => self.width,
            ScrollAxis::Horizontal => self.height,
        }
    }

    /// The part of the rectangle that begins `start` cells after its leading
    /// edge and is `length` cells long, both along the main axis. It has the
    /// full length of the rectangle along the cross axis. A part that would
    /// reach over the trailing edge is cut off there.
    pub open spec fn strip(self, axis: ScrollAxis, start: int, length: int) -> AreaModel {
        let total = self.main_length(axis);
        let from = if start < total {
            start
        } else {
            total
        };
        let kept = if length < total - from {
            length
        } else {
            total - from
        };
        match axis {
            ScrollAxis::Vertical => AreaModel { y: self.y + from, height: kept, ..self },
            ScrollAxis::Horizontal => AreaModel { x: self.x + from, width: kept, ..self },
        }
    }

    /// Whether `inner` lies inside this rectangle.
    pub open spec fn contains(self, inner: AreaModel) -> bool {
        &&& self.x <= inner.x
        &&& self.y <= inner.y
        &&& inner.x + inner.width <= self.x + self.width
        &&& inner.y + inner.height <= self.y + self.height
    }
}

/// A rectangle of cells. Its right and bottom edges are always inside the
/// grid that 16-bit coordinates reach.
#[derive(Clone, Copy, Debug, PartialEq, Eq)]
pub struct Area {
    x: u16,
    y: u16,
    width: u16,
    height: u16,
}

impl View for Area {
    type V = AreaModel;

    closed spec fn view(&self) -> AreaModel {
        AreaModel {
            x: self.x as int,
            y: self.y as int,
            width: self.width as int,
            height: self.height as int,
        }
    }
}

impl Area {
    #[verifier::type_invariant]
    spec fn inside_grid(self) -> bool {
        self@.fits()
    }

    /// The rectangle with its top left corner at column `x` and row `y`. A
    /// width or height that would reach over the edge of the grid is cut off
    /// there.
    pub fn new(x: u16, y: u16, width: u16, height: u16) -> (area: Area)
        ensures
            area@.fits(),
            area@.x == x,
            area@.y == y,
            area@.width == if x + width <= u16::MAX {
                width as int
            } else {
                u16::MAX - x
            },
            area@.height == if y + height <= u16::MAX {
                height as int
            } else {
                u16::MAX - y
            },
    {
        let most_wide: u16 = u16::MAX - x;
        let most_high: u16 = u16::MAX - y;
        Area {
            x,
            y,
            width: if width > most_wide {
                most_wide
            } else {
                width
            },
            height: if height > most_high {
                most_high
            } else {
                height
            },
        }
    }

    /// Column of the left edge.
    pub fn x(&self) -> (x: u16)
        ensures
            x == self@.x,
            self@.fits(),
    {
        proof {
            use_type_invariant(self);
        }
        self.x
    }

    /// Row of the top edge.
    pub fn y(&self) -> (y: u16)
        ensures
            y == self@.y,
            self@.fits(),
    {
        proof {
            use_type_invariant(self);
        }
        self.y
    }

    /// Number of columns.
    pub fn width(&self) -> (width: u16)
        ensures
            width == self@.width,
            self@.fits(),
    {
        proof {
            use_type_invariant(self);
        }
        self.width
    }

    /// Number of rows.
    pub fn height(&self) -> (height: u16)
        ensures
            height == self@.height,
            self@.fits(),
    {
        proof {
            use_type_invariant(self);
        }
        self.height
    }

    /// The length of the rectangle along the main axis.
    pub fn main_length(&self, axis: ScrollAxis) -> (length: u16)
        ensures
            length == self@.main_length(axis),
            self@.fits(),
    {
        proof {
            use_type_invariant(self);
        }
        match axis {
            ScrollAxis::Vertical => self.height,
            ScrollAxis::Horizontal => self.width,
        }
    }

    /// The length of the rectangle along the cross axis.
    pub fn cross_length(&self, axis: ScrollAxis) -> (length: u16)
        ensures
            length == self@.cross_length(axis),
            self@.fits(),
    {
        proof {
            use_type_invariant(self);
        }
        match axis {
            ScrollAxis::Vertical => self.width,
            ScrollAxis::Horizontal => self.height,
        }
    }

    /// The part of the rectangle that begins `start` cells after its leading
    /// edge and is `length` cells long, both along the main axis. A part that
    /// would reach over the trailing edge is cut off there.
    pub fn strip(&self, axis: ScrollAxis, start: u16, length: u16) -> (part: Area)
        ensures
            part@ == self@.strip(axis, start as int, length as int),
            part@.fits(),
            self@.contains(part@),
    {
        proof {
            use_type_invariant(self);
        }
        let total: u16 = self.main_length(axis);
        let from: u16 = if start < total {
            start
        } else {
            total
        };
        let kept: u16 = if length < total - from {
            length
        } else {
            total - from
        };
        match axis {
            ScrollAxis::Vertical => Area {
                x: self.x,
                y: self.y + from,
                width: self.width,
                height: kept,
            },
            ScrollAxis::Horizontal => Area {
                x: self.x + from,
                y: self.y,
                width: kept,
                height: self.height,
            },
        }
    }
}

} // verus!
