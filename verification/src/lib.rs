//! A scrollable list of variable-sized items for terminal user interfaces.
//!
//! The crate computes which items of a list are visible in a viewport, at
//! which offsets, and how the viewport has to scroll so that the selected item
//! stays in view. Item sizes are measured on demand, so that only the items
//! near the viewport are ever asked for their size.
//!
//! - `window` is the mathematical model: anchors, windows, and the anchor
//!   that a layout pass settles on.
//! - `resolve` is the layout engine that computes them.
//! - `laws` states what holds of every window and every layout pass.
//! - `state` is the scroll state with its navigation.
//! - `view` runs a layout pass for a list whose items are built on demand,
//!   places the visible items in the viewport and draws them.
//! - `area`, `traits` and `host` hold rectangles, the item trait and the
//!   types of the host framework.

pub mod area;
pub mod host;
pub mod laws;
pub mod measure;
pub mod resolve;
pub mod state;
pub mod traits;
pub mod view;
pub mod window;

pub use area::{Area, ScrollAxis};
pub use resolve::resolve;
pub use state::ListState;
pub use traits::WidgetItem;
pub use view::{place_item, place_window, ItemContext, ListView, Placement};
pub use window::{LayoutElement, ScrollAnchor};
