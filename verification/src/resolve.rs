//! The layout engine: it resolves the window that a viewport shows and the
//! anchor at which it shows it.

use crate::laws::{
    lemma_resolved_anchor_settled, lemma_resolved_overhang, lemma_selected_in_window, window_size,
};
use crate::measure::{describes, measurable, SizeMemo};
use crate::window::{
    element, fill_back, laid_out, lemma_span_front, lemma_walk_end_is, lemma_window_end_bounds,
    position, resolved_anchor, settle, span, trailing_anchor, window, LayoutElement,
    ScrollAnchor,
};
use vstd::prelude::*;

verus! {

/// Walks forward from `anchor` and lays out every item that starts before
/// the end of the viewport.
pub(crate) fn walk_forward<F: Fn(usize) -> u16>(
    viewport: u16,
    item_count: usize,
    anchor: ScrollAnchor,
    memo: &mut SizeMemo,
    size_of: &F,
) -> (items: Vec<LayoutElement>)
    requires
        measurable(*size_of, item_count),
        old(memo).holds(*size_of, item_count),
        anchor.index <= item_count,
    ensures
        final(memo).holds(*size_of, item_count),
        forall|sizes: Seq<u16>|
            sizes.len() == item_count && #[trigger] describes(sizes, *size_of) ==> items@
                == window(viewport, sizes, anchor),
        laid_out(viewport, anchor, items@),
        anchor.index + items@.len() <= item_count,
        forall|k: int|
            0 <= k < items@.len() ==> call_ensures(
                *size_of,
                ((#[trigger] items@[k]).index,),
                items@[k].main_axis_size,
            ),
{
    let mut items: Vec<LayoutElement> = Vec::new();
    if viewport == 0 {
        return items;
    }
    let mut i: usize = anchor.index;
    let mut at: i32 = 0 - (anchor.offset as i32);
    while i < item_count && at < viewport as i32
        invariant
            measurable(*size_of, item_count),
            memo.holds(*size_of, item_count),
            viewport > 0,
            anchor.index <= i <= item_count,
            -65535 <= at,
            items@.len() == i - anchor.index,
            laid_out(viewport, anchor, items@),
            i == anchor.index ==> at == -anchor.offset,
            i > anchor.index ==> at == items@[i - anchor.index - 1].main_axis_offset + items@[i
                - anchor.index - 1].main_axis_size,
            forall|k: int|
                0 <= k < items@.len() ==> call_ensures(
                    *size_of,
                    ((#[trigger] items@[k]).index,),
                    items@[k].main_axis_size,
                ),
            forall|sizes: Seq<u16>|
                sizes.len() == item_count && #[trigger] describes(sizes, *size_of) ==> {
                    &&& at == position(sizes, anchor, i as int)
                    &&& forall|j: int|
                        anchor.index <= j < i ==> #[trigger] position(sizes, anchor, j) < viewport
                    &&& forall|k: int|
                        0 <= k < items@.len() ==> #[trigger] items@[k] == element(
                            viewport,
                            sizes,
                            anchor,
                            anchor.index + k,
                        )
                },
        decreases item_count - i,
    {
        let size: u16 = memo.size(size_of, item_count, i);
        let fits: bool = at >= 0 && at + size as i32 <= viewport as i32;
        items.push(
            LayoutElement {
                index: i,
                main_axis_offset: at,
                main_axis_size: size,
                is_fully_visible: fits,
            },
        );
        at = at + size as i32;
        i = i + 1;
    }
    assert forall|sizes: Seq<u16>|
        sizes.len() == item_count && #[trigger] describes(sizes, *size_of) implies items@
        == window(viewport, sizes, anchor) by {
        lemma_walk_end_is(viewport, sizes, anchor, anchor.index as int, i as int);
    }
    items
}

/// Settles `anchor` in the list: an index past the end falls back to the last
/// item, and an offset that is not inside its item to the item's leading
/// edge. The anchor's item is measured only where the anchor has an offset.
pub(crate) fn settle_anchor<F: Fn(usize) -> u16>(
    item_count: usize,
    anchor: ScrollAnchor,
    memo: &mut SizeMemo,
    size_of: &F,
) -> (settled: ScrollAnchor)
    requires
        measurable(*size_of, item_count),
        old(memo).holds(*size_of, item_count),
    ensures
        final(memo).holds(*size_of, item_count),
        forall|sizes: Seq<u16>|
            sizes.len() == item_count && #[trigger] describes(sizes, *size_of) ==> settled
                == settle(sizes, anchor),
        item_count == 0 ==> settled == ScrollAnchor::origin_spec(),
        item_count > 0 ==> settled.index < item_count,
{
    if item_count == 0 {
        ScrollAnchor::origin()
    } else if anchor.index >= item_count {
        ScrollAnchor::at(item_count - 1)
    } else if anchor.offset == 0 {
        anchor
    } else {
        let size: u16 = memo.size(size_of, item_count, anchor.index);
        if anchor.offset < size {
            anchor
        } else {
            ScrollAnchor::at(anchor.index)
        }
    }
}

/// Walks backward from item `last` until the items that it has passed fill
/// the viewport, and returns the anchor that puts the trailing edge of `last`
/// on the trailing edge of the viewport. Where the whole list up to `last`
/// does not fill the viewport, the anchor is the origin.
pub(crate) fn seek_back<F: Fn(usize) -> u16>(
    viewport: u16,
    item_count: usize,
    last: usize,
    memo: &mut SizeMemo,
    size_of: &F,
) -> (found: ScrollAnchor)
    requires
        measurable(*size_of, item_count),
        old(memo).holds(*size_of, item_count),
        last < item_count,
        viewport > 0,
    ensures
        final(memo).holds(*size_of, item_count),
        forall|sizes: Seq<u16>|
            sizes.len() == item_count && #[trigger] describes(sizes, *size_of) ==> found
                == trailing_anchor(viewport, sizes, last as int),
        found.index <= last,
{
    let mut first: usize = last;
    let size: u16 = memo.size(size_of, item_count, last);
    let mut filled: u32 = size as u32;
    let mut newest: u16 = size;
    assert forall|sizes: Seq<u16>|
        sizes.len() == item_count && #[trigger] describes(sizes, *size_of) implies filled == span(
        sizes,
        first as int,
        last + 1,
    ) by {
        assert(span(sizes, last as int, last + 1) == span(sizes, last as int, last as int)
            + sizes[last as int]);
    }
    while filled < viewport as u32 && first > 0
        invariant
            measurable(*size_of, item_count),
            memo.holds(*size_of, item_count),
            first <= last < item_count,
            viewport > 0,
            filled < viewport + newest,
            forall|sizes: Seq<u16>|
                sizes.len() == item_count && #[trigger] describes(sizes, *size_of) ==> {
                    &&& filled == span(sizes, first as int, last + 1)
                    &&& newest == sizes[first as int]
                    &&& trailing_anchor(viewport, sizes, last as int) == fill_back(
                        viewport,
                        sizes,
                        last as int,
                        first as int,
                    )
                },
        decreases first,
    {
        first = first - 1;
        let size: u16 = memo.size(size_of, item_count, first);
        assert forall|sizes: Seq<u16>|
            sizes.len() == item_count && #[trigger] describes(sizes, *size_of) implies filled
            + size == span(sizes, first as int, last + 1) by {
            lemma_span_front(sizes, first as int, last + 1);
        }
        filled = filled + size as u32;
        newest = size;
    }
    if filled >= viewport as u32 {
        ScrollAnchor { index: first, offset: (filled - viewport as u32) as u16 }
    } else {
        ScrollAnchor::origin()
    }
}

/// Resolves the window that a viewport of length `viewport` shows of a list
/// of `item_count` items, and the anchor at which it shows it.
///
/// The walk starts at `anchor` and takes every item that starts before the
/// end of the viewport. Where the selected item is not among them, the anchor
/// is corrected first: a selected item before the anchor becomes the anchor,
/// and one after the window is put at the trailing edge of the viewport. A
/// list without items gives no window and the origin; a viewport without
/// length gives no window and leaves a settled anchor as it is.
///
/// `size_of` is asked only for the items that the walks pass, and at most
/// once for each of them. The contract speaks of every sequence of sizes that
/// describes `size_of`: for a size function that returns one size only for
/// each item, that is the sequence of those sizes. Over such sizes the result
/// is the resolved anchor and the window there; the window overhangs the
/// viewport by less than its last item; and it holds the selected item,
/// unless that item has no size and starts on the cell that ends the
/// viewport.
pub fn resolve<F: Fn(usize) -> u16>(
    viewport: u16,
    item_count: usize,
    anchor: ScrollAnchor,
    selected: Option<usize>,
    size_of: F,
) -> (resolved: (Vec<LayoutElement>, ScrollAnchor))
    requires
        measurable(size_of, item_count),
    ensures
        forall|sizes: Seq<u16>|
            sizes.len() == item_count && #[trigger] describes(sizes, size_of) ==> {
                &&& resolved.1 == resolved_anchor(viewport, sizes, anchor, selected)
                &&& resolved.0@ == window(viewport, sizes, resolved.1)
                &&& resolved.1.settled(sizes)
                &&& resolved.0@.len() > 0 ==> window_size(resolved.0@) - resolved.1.offset
                    < viewport + resolved.0@.last().main_axis_size
                &&& forall|i: usize|
                    selected == Some(i) && i < item_count && viewport > 0 ==> {
                        &&& resolved.1.index <= i
                        &&& i < resolved.1.index + resolved.0@.len() <==> !(sizes[i as int] == 0
                            && position(sizes, resolved.1, i as int) == viewport)
                    }
            },
        laid_out(viewport, resolved.1, resolved.0@),
        resolved.1.index + resolved.0@.len() <= item_count,
        item_count == 0 ==> resolved.1 == ScrollAnchor::origin_spec(),
        item_count > 0 ==> resolved.1.index < item_count,
        forall|k: int|
            0 <= k < resolved.0@.len() ==> call_ensures(
                size_of,
                ((#[trigger] resolved.0@[k]).index,),
                resolved.0@[k].main_axis_size,
            ),
{
    proof {
        assert forall|sizes: Seq<u16>|
            sizes.len() == item_count && #[trigger] describes(sizes, size_of) implies {
            let used = resolved_anchor(viewport, sizes, anchor, selected);
            let items = window(viewport, sizes, used);
            &&& used.settled(sizes)
            &&& items.len() > 0 ==> window_size(items) - used.offset < viewport
                + items.last().main_axis_size
            &&& forall|i: usize|
                selected == Some(i) && i < item_count && viewport > 0 ==> {
                    &&& used.index <= i
                    &&& i < used.index + items.len() <==> !(sizes[i as int] == 0 && position(
                        sizes,
                        used,
                        i as int,
                    ) == viewport)
                }
        } by {
            lemma_resolved_anchor_settled(viewport, sizes, anchor, selected);
            lemma_resolved_overhang(viewport, sizes, anchor, selected);
            if viewport > 0 {
                match selected {
                    Some(i) => {
                        if i < item_count {
                            lemma_selected_in_window(viewport, sizes, anchor, i);
                        }
                    },
                    None => {},
                }
            }
        }
    }
    let mut memo: SizeMemo = SizeMemo::new();
    let start: ScrollAnchor = settle_anchor(item_count, anchor, &mut memo, &size_of);
    let first: Vec<LayoutElement> = walk_forward(viewport, item_count, start, &mut memo, &size_of);
    if item_count == 0 || viewport == 0 {
        return (first, start);
    }
    match selected {
        None => (first, start),
        Some(chosen) => {
            let s: usize = if chosen >= item_count {
                item_count - 1
            } else {
                chosen
            };
            if s < start.index {
                let moved: ScrollAnchor = ScrollAnchor::at(s);
                let items: Vec<LayoutElement> = walk_forward(
                    viewport,
                    item_count,
                    moved,
                    &mut memo,
                    &size_of,
                );
                (items, moved)
            } else if s - start.index < first.len() {
                assert forall|sizes: Seq<u16>|
                    sizes.len() == item_count && #[trigger] describes(
                        sizes,
                        size_of,
                    ) implies start == resolved_anchor(viewport, sizes, anchor, selected) by {
                    lemma_window_end_bounds(viewport, sizes, start);
                }
                (first, start)
            } else {
                let moved: ScrollAnchor = seek_back(viewport, item_count, s, &mut memo, &size_of);
                let items: Vec<LayoutElement> = walk_forward(
                    viewport,
                    item_count,
                    moved,
                    &mut memo,
                    &size_of,
                );
                assert forall|sizes: Seq<u16>|
                    sizes.len() == item_count && #[trigger] describes(
                        sizes,
                        size_of,
                    ) implies moved == resolved_anchor(viewport, sizes, anchor, selected) by {
                    lemma_window_end_bounds(viewport, sizes, start);
                }
                (items, moved)
            }
        },
    }
}

} // verus!
