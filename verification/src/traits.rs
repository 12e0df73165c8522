//! What an item of a list has to offer.

use ratatui::buffer::Buffer;
use ratatui::layout::Rect;
use vstd::prelude::*;

verus! {

/// Should be implemented on widget list items to be used in a list.
pub trait WidgetItem {
    /// Returns the height of the item.
    fn height(&self) -> usize;

    /// Highlight the selected widget. Optional. If None, no highlighting
    /// is applied. An item that does not provide this method has no
    /// highlighted form.
    #[must_use]
    fn highlighted(&self) -> (highlighted: Option<Self>) where Self: Sized
        default_ensures
            highlighted is None,
    {
        None
    }

    /// Render the item. Similar to ratatui's widget trait, but here the
    /// item is rendered through a reference.
    fn render(&self, area: Rect, buf: &mut Buffer);
}

} // verus!
