//! What holds of every window and of every layout pass.

use crate::window::{
    clamp_selected, fill_back, lemma_position_monotone, lemma_span_front,
    lemma_span_monotone, lemma_span_nonnegative, lemma_span_split, lemma_walk_end,
    lemma_window_end_bounds, position, resolved_anchor, resolved_window, settle, span, trailing_anchor,
    window, window_end, LayoutElement, ScrollAnchor,
};
use vstd::prelude::*;

verus! {

/// The sum of the sizes of the items of a window.
pub open spec fn window_size(items: Seq<LayoutElement>) -> int
    decreases items.len(),
{
    if items.len() == 0 {
        0
    } else {
        window_size(items.drop_last()) + items.last().main_axis_size
    }
}

/// The items of a window come in index order, one after the other: each has
/// the size of its item and starts where the one before it ends, the first
/// one as far before the viewport as the anchor says. An item counts as fully
/// visible exactly when it lies inside the viewport from its first cell to
/// its last.
pub proof fn lemma_window_items(viewport: u16, sizes: Seq<u16>, anchor: ScrollAnchor, k: int)
    requires
        sizes.len() <= usize::MAX,
        anchor.index <= sizes.len(),
        0 <= k < window(viewport, sizes, anchor).len(),
    ensures
        viewport > 0,
        anchor.index + k < sizes.len(),
        window(viewport, sizes, anchor)[k].index == anchor.index + k,
        window(viewport, sizes, anchor)[k].main_axis_size == sizes[anchor.index + k],
        window(viewport, sizes, anchor)[k].main_axis_offset == position(
            sizes,
            anchor,
            anchor.index + k,
        ),
        -anchor.offset <= window(viewport, sizes, anchor)[k].main_axis_offset < viewport,
        k == 0 ==> window(viewport, sizes, anchor)[k].main_axis_offset == -anchor.offset,
        k > 0 ==> window(viewport, sizes, anchor)[k].main_axis_offset == window(
            viewport,
            sizes,
            anchor,
        )[k - 1].main_axis_offset + window(viewport, sizes, anchor)[k - 1].main_axis_size,
        window(viewport, sizes, anchor)[k].is_fully_visible <==> 0 <= window(
            viewport,
            sizes,
            anchor,
        )[k].main_axis_offset && window(viewport, sizes, anchor)[k].main_axis_offset + window(
            viewport,
            sizes,
            anchor,
        )[k].main_axis_size <= viewport,
{
    let first = anchor.index as int;
    let i = first + k;
    lemma_walk_end(viewport, sizes, anchor, first);
    lemma_span_nonnegative(sizes, first, i);
    lemma_span_nonnegative(sizes, first, first);
    if k > 0 {
        lemma_span_nonnegative(sizes, first, i - 1);
    }
}

/// The sizes of the items of a window add up to the span from the anchor's
/// item to the window's end.
pub proof fn lemma_window_size(viewport: u16, sizes: Seq<u16>, anchor: ScrollAnchor)
    requires
        sizes.len() <= usize::MAX,
        anchor.index <= sizes.len(),
    ensures
        window_size(window(viewport, sizes, anchor)) == span(
            sizes,
            anchor.index as int,
            window_end(viewport, sizes, anchor),
        ),
{
    let items = window(viewport, sizes, anchor);
    lemma_walk_end(viewport, sizes, anchor, anchor.index as int);
    lemma_prefix_size(viewport, sizes, anchor, items.len() as int);
    assert(items.take(items.len() as int) =~= items);
}

proof fn lemma_prefix_size(viewport: u16, sizes: Seq<u16>, anchor: ScrollAnchor, n: int)
    requires
        sizes.len() <= usize::MAX,
        anchor.index <= sizes.len(),
        0 <= n <= window(viewport, sizes, anchor).len(),
    ensures
        window_size(window(viewport, sizes, anchor).take(n)) == span(
            sizes,
            anchor.index as int,
            anchor.index + n,
        ),
    decreases n,
{
    let items = window(viewport, sizes, anchor);
    if n > 0 {
        lemma_prefix_size(viewport, sizes, anchor, n - 1);
        lemma_window_items(viewport, sizes, anchor, n - 1);
        assert(items.take(n).drop_last() =~= items.take(n - 1));
    }
}

/// A window overhangs the viewport by less than its last item: the last item
/// starts inside the viewport, and without it the window, measured from the
/// start of the viewport, is shorter than the viewport.
pub proof fn lemma_window_overhang(viewport: u16, sizes: Seq<u16>, anchor: ScrollAnchor)
    requires
        sizes.len() <= usize::MAX,
        anchor.index <= sizes.len(),
        window(viewport, sizes, anchor).len() > 0,
    ensures
        window(viewport, sizes, anchor).last().main_axis_offset < viewport,
        window_size(window(viewport, sizes, anchor)) - anchor.offset - window(
            viewport,
            sizes,
            anchor,
        ).last().main_axis_size < viewport,
        window_size(window(viewport, sizes, anchor)) - anchor.offset == window(
            viewport,
            sizes,
            anchor,
        ).last().main_axis_offset + window(viewport, sizes, anchor).last().main_axis_size,
{
    let items = window(viewport, sizes, anchor);
    let end = window_end(viewport, sizes, anchor);
    lemma_window_end_bounds(viewport, sizes, anchor);
    lemma_window_size(viewport, sizes, anchor);
    lemma_window_items(viewport, sizes, anchor, items.len() - 1);
}

/// Settling an anchor gives a settled anchor, and leaves a settled anchor as
/// it is.
pub proof fn lemma_settle(sizes: Seq<u16>, anchor: ScrollAnchor)
    requires
        sizes.len() <= usize::MAX,
    ensures
        settle(sizes, anchor).settled(sizes),
        anchor.settled(sizes) ==> settle(sizes, anchor) == anchor,
        settle(sizes, settle(sizes, anchor)) == settle(sizes, anchor),
{
}

/// Where a backward walk ends. The anchor that it finds is settled and not
/// after the item it started from; it either puts the trailing edge of that
/// item on the trailing edge of the viewport, or it is the origin of a list
/// that is too short to fill the viewport up to that item.
pub proof fn lemma_trailing_anchor(viewport: u16, sizes: Seq<u16>, last: int)
    requires
        sizes.len() <= usize::MAX,
        0 <= last < sizes.len(),
        viewport > 0,
    ensures
        trailing_anchor(viewport, sizes, last).settled(sizes),
        trailing_anchor(viewport, sizes, last).index <= last,
        position(sizes, trailing_anchor(viewport, sizes, last), last) + sizes[last] == viewport
            || (trailing_anchor(viewport, sizes, last) == ScrollAnchor::origin_spec() && span(
            sizes,
            0,
            last + 1,
        ) < viewport),
{
    lemma_span_nonnegative(sizes, last + 1, last + 1);
    lemma_fill_back(viewport, sizes, last, last);
}

proof fn lemma_fill_back(viewport: u16, sizes: Seq<u16>, last: int, first: int)
    requires
        sizes.len() <= usize::MAX,
        0 <= first <= last < sizes.len(),
        viewport > 0,
        span(sizes, first + 1, last + 1) < viewport,
    ensures
        fill_back(viewport, sizes, last, first).settled(sizes),
        fill_back(viewport, sizes, last, first).index <= first,
        position(sizes, fill_back(viewport, sizes, last, first), last) + sizes[last] == viewport
            || (fill_back(viewport, sizes, last, first) == ScrollAnchor::origin_spec() && span(
            sizes,
            0,
            last + 1,
        ) < viewport),
    decreases first,
{
    let filled = span(sizes, first, last + 1);
    lemma_span_front(sizes, first, last + 1);
    if filled >= viewport {
        let found = fill_back(viewport, sizes, last, first);
        lemma_span_split(sizes, first, last, last + 1);
    } else if first > 0 {
        lemma_fill_back(viewport, sizes, last, first - 1);
    }
}

/// The anchor that a layout pass uses is settled.
pub proof fn lemma_resolved_anchor_settled(
    viewport: u16,
    sizes: Seq<u16>,
    anchor: ScrollAnchor,
    selected: Option<usize>,
)
    requires
        sizes.len() <= usize::MAX,
    ensures
        resolved_anchor(viewport, sizes, anchor, selected).settled(sizes),
{
    lemma_settle(sizes, anchor);
    if sizes.len() > 0 && viewport > 0 {
        match clamp_selected(sizes, selected) {
            None => {},
            Some(s) => {
                lemma_trailing_anchor(viewport, sizes, s as int);
            },
        }
    }
}

/// What a layout pass returns overhangs the viewport by less than its last
/// item: the sizes of its items, measured from the start of the viewport,
/// exceed the length of the viewport by less than the size of that item.
pub proof fn lemma_resolved_overhang(
    viewport: u16,
    sizes: Seq<u16>,
    anchor: ScrollAnchor,
    selected: Option<usize>,
)
    requires
        sizes.len() <= usize::MAX,
    ensures
        resolved_window(viewport, sizes, anchor, selected).len() > 0 ==> window_size(
            resolved_window(viewport, sizes, anchor, selected),
        ) - resolved_anchor(viewport, sizes, anchor, selected).offset < viewport + resolved_window(
            viewport,
            sizes,
            anchor,
            selected,
        ).last().main_axis_size,
        resolved_window(viewport, sizes, anchor, selected).len() == 0 ==> window_size(
            resolved_window(viewport, sizes, anchor, selected),
        ) == 0,
{
    let used = resolved_anchor(viewport, sizes, anchor, selected);
    lemma_resolved_anchor_settled(viewport, sizes, anchor, selected);
    if window(viewport, sizes, used).len() > 0 {
        lemma_window_overhang(viewport, sizes, used);
    }
}

/// A layout pass shows the selected item: the window that it returns holds
/// item `i` whenever `i` is selected and the viewport has a length. The one
/// exception is an item without size that the pass has put at the trailing
/// edge of the viewport, where it starts on the very cell that ends the
/// viewport.
pub proof fn lemma_selected_in_window(
    viewport: u16,
    sizes: Seq<u16>,
    anchor: ScrollAnchor,
    i: usize,
)
    requires
        sizes.len() <= usize::MAX,
        i < sizes.len(),
        viewport > 0,
    ensures
        resolved_anchor(viewport, sizes, anchor, Some(i)).index <= i,
        i < resolved_anchor(viewport, sizes, anchor, Some(i)).index + resolved_window(
            viewport,
            sizes,
            anchor,
            Some(i),
        ).len() <==> !(sizes[i as int] == 0 && position(
            sizes,
            resolved_anchor(viewport, sizes, anchor, Some(i)),
            i as int,
        ) == viewport),
        sizes[i as int] > 0 ==> resolved_window(viewport, sizes, anchor, Some(i))[i
            - resolved_anchor(viewport, sizes, anchor, Some(i)).index].index == i,
{
    let start = settle(sizes, anchor);
    let used = resolved_anchor(viewport, sizes, anchor, Some(i));
    let items = window(viewport, sizes, used);
    lemma_settle(sizes, anchor);
    lemma_resolved_anchor_settled(viewport, sizes, anchor, Some(i));
    lemma_walk_end(viewport, sizes, used, used.index as int);
    if i < start.index {
        lemma_span_nonnegative(sizes, i as int, i as int);
    } else if i < window_end(viewport, sizes, start) {
    } else {
        lemma_trailing_anchor(viewport, sizes, i as int);
        lemma_span_monotone(sizes, 0, i as int, i + 1);
        lemma_position_ends(viewport, sizes, used, i as int);
    }
    if i < used.index + items.len() {
        lemma_window_items(viewport, sizes, used, i - used.index);
    }
}

/// An item that starts before the end of the viewport, at or after the
/// anchor, is inside the window.
proof fn lemma_position_ends(viewport: u16, sizes: Seq<u16>, anchor: ScrollAnchor, i: int)
    requires
        anchor.index <= i < sizes.len(),
        viewport > 0,
    ensures
        position(sizes, anchor, i) < viewport <==> i < window_end(viewport, sizes, anchor),
{
    lemma_walk_end(viewport, sizes, anchor, anchor.index as int);
    let end = window_end(viewport, sizes, anchor);
    if position(sizes, anchor, i) < viewport && end <= i {
        lemma_position_monotone(sizes, anchor, end, i);
    }
}

/// A layout pass is stable: a second pass that starts from the anchor that
/// the first one returned, over the same sizes and with the same selection,
/// returns that anchor and the same window again.
pub proof fn lemma_resolve_stable(
    viewport: u16,
    sizes: Seq<u16>,
    anchor: ScrollAnchor,
    selected: Option<usize>,
)
    requires
        sizes.len() <= usize::MAX,
    ensures
        resolved_anchor(
            viewport,
            sizes,
            resolved_anchor(viewport, sizes, anchor, selected),
            selected,
        ) == resolved_anchor(viewport, sizes, anchor, selected),
        resolved_window(
            viewport,
            sizes,
            resolved_anchor(viewport, sizes, anchor, selected),
            selected,
        ) == resolved_window(viewport, sizes, anchor, selected),
{
    let start = settle(sizes, anchor);
    let used = resolved_anchor(viewport, sizes, anchor, selected);
    lemma_settle(sizes, anchor);
    lemma_resolved_anchor_settled(viewport, sizes, anchor, selected);
    lemma_settle(sizes, used);
    if sizes.len() > 0 && viewport > 0 {
        match clamp_selected(sizes, selected) {
            None => {},
            Some(s) => {
                if s < start.index {
                    lemma_span_nonnegative(sizes, s as int, s as int);
                    lemma_position_ends(viewport, sizes, used, s as int);
                } else if s >= window_end(viewport, sizes, start) {
                    lemma_trailing_anchor(viewport, sizes, s as int);
                }
            },
        }
    }
}

} // verus!
