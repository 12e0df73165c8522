//! The mathematical model of a window: the items that a viewport shows,
//! starting at a scroll anchor, with their offsets along the main axis.

use vstd::prelude::*;

verus! {

/// The first item of a window and how much of its leading edge is scrolled
/// past the start of the viewport.
#[derive(Clone, Copy, Debug, PartialEq, Eq, Structural)]
pub struct ScrollAnchor {
    /// Index of the first item that is shown.
    pub index: usize,
    /// Cells of that item that lie before the start of the viewport.
    pub offset: u16,
}

/// One visible item of a window.
#[derive(Clone, Copy, Debug, PartialEq, Eq, Structural)]
pub struct LayoutElement {
    /// Index of the item in the list.
    pub index: usize,
    /// Where the item starts, relative to the start of the viewport. Negative
    /// for a first item that is partly scrolled past.
    pub main_axis_offset: i32,
    /// The item's full size along the main axis.
    pub main_axis_size: u16,
    /// Whether the item lies inside the viewport with all of its cells.
    pub is_fully_visible: bool,
}

impl ScrollAnchor {
    /// The anchor at the very start of a list.
    pub open spec fn origin_spec() -> ScrollAnchor {
        ScrollAnchor { index: 0, offset: 0 }
    }

    /// The anchor at the very start of a list.
    pub fn origin() -> (a: ScrollAnchor)
        ensures
            a == Self::origin_spec(),
    {
        ScrollAnchor { index: 0, offset: 0 }
    }

    /// An anchor at the leading edge of item `index`.
    pub fn at(index: usize) -> (a: ScrollAnchor)
        ensures
            a == (ScrollAnchor { index, offset: 0 }),
    {
        ScrollAnchor { index, offset: 0 }
    }

    /// An anchor is settled in a list when it names an item of the list and
    /// scrolls past less than that whole item. In an empty list only the
    /// origin is settled.
    pub open spec fn settled(self, sizes: Seq<u16>) -> bool {
        if sizes.len() == 0 {
            self == Self::origin_spec()
        } else {
            &&& self.index < sizes.len()
            &&& (self.offset == 0 || self.offset < sizes[self.index as int])
        }
    }
}

/// The sum of the sizes of the items `lo..hi`.
pub open spec fn span(sizes: Seq<u16>, lo: int, hi: int) -> int
    decreases hi - lo,
{
    if lo >= hi {
        0
    } else {
        span(sizes, lo, hi - 1) + sizes[hi - 1]
    }
}

/// Where item `i` starts, relative to the start of the viewport, when the
/// list is scrolled to `anchor`.
pub open spec fn position(sizes: Seq<u16>, anchor: ScrollAnchor, i: int) -> int {
    span(sizes, anchor.index as int, i) - anchor.offset
}

/// The index at which a walk stops that goes forward from item `i` and takes
/// every item that starts before the end of the viewport.
pub open spec fn walk_end(viewport: u16, sizes: Seq<u16>, anchor: ScrollAnchor, i: int) -> int
    decreases sizes.len() - i,
{
    if i < sizes.len() && position(sizes, anchor, i) < viewport {
        walk_end(viewport, sizes, anchor, i + 1)
    } else {
        i
    }
}

/// One past the last item of the window at `anchor`. A viewport without
/// length shows nothing.
pub open spec fn window_end(viewport: u16, sizes: Seq<u16>, anchor: ScrollAnchor) -> int {
    if viewport == 0 {
        anchor.index as int
    } else {
        walk_end(viewport, sizes, anchor, anchor.index as int)
    }
}

/// The layout of item `i` in the window at `anchor`.
pub open spec fn element(viewport: u16, sizes: Seq<u16>, anchor: ScrollAnchor, i: int)
    -> LayoutElement {
    let at = position(sizes, anchor, i);
    LayoutElement {
        index: i as usize,
        main_axis_offset: at as i32,
        main_axis_size: sizes[i],
        is_fully_visible: 0 <= at && at + sizes[i] <= viewport,
    }
}

/// The window at `anchor`: the items from the anchor's on, in index order,
/// as long as they start before the end of the viewport.
pub open spec fn window(viewport: u16, sizes: Seq<u16>, anchor: ScrollAnchor) -> Seq<
    LayoutElement,
> {
    Seq::new(
        (window_end(viewport, sizes, anchor) - anchor.index) as nat,
        |k: int| element(viewport, sizes, anchor, anchor.index + k),
    )
}

/// What holds of the items of every window at `anchor`, whatever the sizes
/// of the list are: the items follow each other in index order from the
/// anchor's item on, each starts where the one before it ends and before the
/// end of the viewport, the first one as far before the viewport as the
/// anchor says, and an item counts as fully visible exactly when it lies
/// inside the viewport from its first cell to its last.
pub open spec fn laid_out(viewport: u16, anchor: ScrollAnchor, items: Seq<LayoutElement>) -> bool {
    &&& items.len() > 0 ==> viewport > 0 && items[0].main_axis_offset == -anchor.offset
    &&& forall|k: int|
        0 <= k < items.len() ==> {
            &&& (#[trigger] items[k]).index == anchor.index + k
            &&& items[k].main_axis_offset < viewport
            &&& items[k].is_fully_visible <==> 0 <= items[k].main_axis_offset
                && items[k].main_axis_offset + items[k].main_axis_size <= viewport
        }
    &&& forall|k: int|
        0 < k < items.len() ==> (#[trigger] items[k]).main_axis_offset == items[k
            - 1].main_axis_offset + items[k - 1].main_axis_size
}

/// The anchor that is used in place of `anchor` in a list of these sizes: an
/// index past the end falls back to the last item, and an offset that is not
/// inside its item to the item's leading edge.
pub open spec fn settle(sizes: Seq<u16>, anchor: ScrollAnchor) -> ScrollAnchor {
    if sizes.len() == 0 {
        ScrollAnchor::origin_spec()
    } else if anchor.index >= sizes.len() {
        ScrollAnchor { index: (sizes.len() - 1) as usize, offset: 0 }
    } else if anchor.offset < sizes[anchor.index as int] {
        anchor
    } else {
        ScrollAnchor { index: anchor.index, offset: 0 }
    }
}

/// The anchor found by a walk that goes backward from item `last` and has
/// come to item `first`: the walk stops as soon as the items `first..=last`
/// fill the viewport, and the anchor then puts the trailing edge of `last` on
/// the trailing edge of the viewport. A walk that comes to the start of the
/// list before that ends at the origin.
pub open spec fn fill_back(viewport: u16, sizes: Seq<u16>, last: int, first: int) -> ScrollAnchor
    decreases first,
{
    let filled = span(sizes, first, last + 1);
    if filled >= viewport {
        ScrollAnchor { index: first as usize, offset: (filled - viewport) as u16 }
    } else if first <= 0 {
        ScrollAnchor::origin_spec()
    } else {
        fill_back(viewport, sizes, last, first - 1)
    }
}

/// The anchor that shows item `last` at the trailing edge of the viewport.
pub open spec fn trailing_anchor(viewport: u16, sizes: Seq<u16>, last: int) -> ScrollAnchor {
    fill_back(viewport, sizes, last, last)
}

/// The selection as the layout uses it: an index past the end counts as the
/// last item.
pub open spec fn clamp_selected(sizes: Seq<u16>, selected: Option<usize>) -> Option<usize> {
    match selected {
        Some(s) if sizes.len() > 0 && s >= sizes.len() => Some((sizes.len() - 1) as usize),
        _ => selected,
    }
}

/// The anchor that a layout pass uses. It is the settled anchor, unless the
/// selected item is outside the window there: a selected item before the
/// anchor becomes the anchor, and one after the window is put at the trailing
/// edge of the viewport. Without items or without viewport length nothing is
/// corrected.
pub open spec fn resolved_anchor(
    viewport: u16,
    sizes: Seq<u16>,
    anchor: ScrollAnchor,
    selected: Option<usize>,
) -> ScrollAnchor {
    let start = settle(sizes, anchor);
    if sizes.len() == 0 || viewport == 0 {
        start
    } else {
        match clamp_selected(sizes, selected) {
            None => start,
            Some(s) => if s < start.index {
                ScrollAnchor { index: s, offset: 0 }
            } else if s < window_end(viewport, sizes, start) {
                start
            } else {
                trailing_anchor(viewport, sizes, s as int)
            },
        }
    }
}

/// The window that a layout pass returns: the one at the anchor it uses.
pub open spec fn resolved_window(
    viewport: u16,
    sizes: Seq<u16>,
    anchor: ScrollAnchor,
    selected: Option<usize>,
) -> Seq<LayoutElement> {
    window(viewport, sizes, resolved_anchor(viewport, sizes, anchor, selected))
}

/// A span over nothing is empty, and a span over items is never negative.
pub proof fn lemma_span_nonnegative(sizes: Seq<u16>, lo: int, hi: int)
    ensures
        0 <= span(sizes, lo, hi),
        lo >= hi ==> span(sizes, lo, hi) == 0,
    decreases hi - lo,
{
    if lo < hi {
        lemma_span_nonnegative(sizes, lo, hi - 1);
    }
}

/// A span is the sum of its two parts.
pub proof fn lemma_span_split(sizes: Seq<u16>, lo: int, mid: int, hi: int)
    requires
        lo <= mid <= hi,
    ensures
        span(sizes, lo, hi) == span(sizes, lo, mid) + span(sizes, mid, hi),
    decreases hi - mid,
{
    if mid < hi {
        lemma_span_split(sizes, lo, mid, hi - 1);
    }
}

/// A span grows by the size of the item that is added in front of it.
pub proof fn lemma_span_front(sizes: Seq<u16>, lo: int, hi: int)
    requires
        lo < hi,
    ensures
        span(sizes, lo, hi) == sizes[lo] + span(sizes, lo + 1, hi),
{
    lemma_span_split(sizes, lo, lo + 1, hi);
    assert(span(sizes, lo, lo + 1) == span(sizes, lo, lo) + sizes[lo]);
}

/// A span that reaches further is at least as long.
pub proof fn lemma_span_monotone(sizes: Seq<u16>, lo: int, mid: int, hi: int)
    requires
        lo <= mid <= hi,
    ensures
        span(sizes, lo, mid) <= span(sizes, lo, hi),
        span(sizes, mid, hi) <= span(sizes, lo, hi),
{
    lemma_span_split(sizes, lo, mid, hi);
    lemma_span_nonnegative(sizes, lo, mid);
    lemma_span_nonnegative(sizes, mid, hi);
}

/// Items further down the list start no earlier.
pub proof fn lemma_position_monotone(sizes: Seq<u16>, anchor: ScrollAnchor, i: int, j: int)
    requires
        anchor.index <= i <= j,
    ensures
        position(sizes, anchor, i) <= position(sizes, anchor, j),
{
    lemma_span_monotone(sizes, anchor.index as int, i, j);
}

/// What a forward walk from `i` takes: every item up to its end starts
/// before the end of the viewport, and the item at its end, if there is one,
/// does not.
pub proof fn lemma_walk_end(viewport: u16, sizes: Seq<u16>, anchor: ScrollAnchor, i: int)
    requires
        i <= sizes.len(),
    ensures
        i <= walk_end(viewport, sizes, anchor, i) <= sizes.len(),
        forall|j: int|
            i <= j < walk_end(viewport, sizes, anchor, i) ==> #[trigger] position(sizes, anchor, j)
                < viewport,
        walk_end(viewport, sizes, anchor, i) < sizes.len() ==> position(
            sizes,
            anchor,
            walk_end(viewport, sizes, anchor, i),
        ) >= viewport,
    decreases sizes.len() - i,
{
    if i < sizes.len() && position(sizes, anchor, i) < viewport {
        lemma_walk_end(viewport, sizes, anchor, i + 1);
    }
}

/// A forward walk ends at `end` when every item before `end` starts before
/// the end of the viewport and the item at `end`, if there is one, does not.
pub proof fn lemma_walk_end_is(
    viewport: u16,
    sizes: Seq<u16>,
    anchor: ScrollAnchor,
    i: int,
    end: int,
)
    requires
        i <= end <= sizes.len(),
        forall|j: int| i <= j < end ==> #[trigger] position(sizes, anchor, j) < viewport,
        end < sizes.len() ==> position(sizes, anchor, end) >= viewport,
    ensures
        walk_end(viewport, sizes, anchor, i) == end,
    decreases end - i,
{
    if i < end {
        lemma_walk_end_is(viewport, sizes, anchor, i + 1, end);
    }
}

/// The window at an anchor inside the list ends inside the list, and not
/// before the anchor.
pub proof fn lemma_window_end_bounds(viewport: u16, sizes: Seq<u16>, anchor: ScrollAnchor)
    requires
        anchor.index <= sizes.len(),
    ensures
        anchor.index <= window_end(viewport, sizes, anchor) <= sizes.len(),
        window(viewport, sizes, anchor).len() == window_end(viewport, sizes, anchor)
            - anchor.index,
{
    lemma_walk_end(viewport, sizes, anchor, anchor.index as int);
}

} // verus!
