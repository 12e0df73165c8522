//! The types of the host framework that items are drawn with. The library
//! hands them on and never looks inside them.

use crate::area::Area;
use ratatui::buffer::Buffer;
use ratatui::layout::Rect;
use vstd::prelude::*;

verus! {

/// ratatui's `Rect`, the rectangle that its widgets are drawn in. The
/// library builds one for every visible item and does not read it.
#[verifier::external_type_specification]
#[verifier::external_body]
pub struct ExRect(Rect);

/// ratatui's `Buffer`, the grid of cells that its widgets are drawn into.
/// The library passes it to the items and does not read or write it.
#[verifier::external_type_specification]
#[verifier::external_body]
pub struct ExBuffer(Buffer);

/// Calls ratatui's `Rect::new` with the corner and the lengths of `area`.
/// `Rect::new` keeps a width and a height that stay inside the grid of 16-bit
/// coordinates, as those of an `Area` always do. Nothing is claimed of the
/// result, which the library only hands to the item that is drawn.
#[verifier::external_body]
pub(crate) fn host_rect(area: &Area) -> Rect {
    Rect::new(area.x(), area.y(), area.width(), area.height())
}

} // verus!
