//! The list view: one layout pass over a list whose items are built on
//! demand, from the scroll state to the rectangles of the visible items.

use crate::area::{Area, AreaModel, ScrollAxis};
use crate::host::host_rect;
use crate::measure::describes;
use crate::resolve::resolve;
use crate::state::{ListState, StateModel};
use crate::traits::WidgetItem;
use crate::window::{laid_out, resolved_anchor, window, LayoutElement, ScrollAnchor};
use ratatui::buffer::Buffer;
use vstd::prelude::*;

verus! {

/// What an item is built for: its place in the list and whether it is the
/// selected item.
#[derive(Clone, Copy, Debug, PartialEq, Eq, Structural)]
pub struct ItemContext {
    /// Index of the item in the list.
    pub index: usize,
    /// Whether the item is the selected one.
    pub is_selected: bool,
}

/// A visible item and the rectangle in which it is drawn.
#[derive(Clone, Copy, Debug, PartialEq, Eq)]
pub struct Placement {
    /// The item's layout along the main axis.
    pub element: LayoutElement,
    /// Whether the item is the selected one.
    pub is_selected: bool,
    /// The cells of the viewport that the item covers.
    pub area: Area,
}

/// The context in which item `i` is built when `selected` is the selection.
pub open spec fn context_of(i: usize, selected: Option<usize>) -> ItemContext {
    ItemContext { index: i, is_selected: selected == Some(i) }
}

/// A builder can build a list of `item_count` items when it may be called
/// for each of them, selected or not.
pub open spec fn buildable<T, B: Fn(ItemContext) -> (T, u16)>(build: B, item_count: usize) -> bool {
    forall|context: ItemContext| context.index < item_count ==> call_requires(build, (context,))
}

/// `sizes` describes what a builder provides under a selection: whatever
/// size `build` returns with an item of the list is that item's entry in
/// `sizes`.
pub open spec fn provides<T, B: Fn(ItemContext) -> (T, u16)>(
    sizes: Seq<u16>,
    build: B,
    selected: Option<usize>,
) -> bool {
    forall|i: usize, built: (T, u16)|
        i < sizes.len() && #[trigger] call_ensures(build, (context_of(i, selected),), built)
            ==> built.1 == sizes[i as int]
}

/// How far after the start of a viewport of length `viewport` the visible
/// part of an item begins.
pub open spec fn visible_start(viewport: u16, element: LayoutElement) -> int {
    if element.main_axis_offset <= 0 {
        0
    } else if element.main_axis_offset < viewport {
        element.main_axis_offset as int
    } else {
        viewport as int
    }
}

/// How far after the start of a viewport of length `viewport` the visible
/// part of an item ends.
pub open spec fn visible_end(viewport: u16, element: LayoutElement) -> int {
    let start = visible_start(viewport, element);
    let end = element.main_axis_offset + element.main_axis_size;
    if end <= start {
        start
    } else if end < viewport {
        end
    } else {
        viewport as int
    }
}

/// The rectangle that an item covers in a viewport: its visible part along
/// the main axis, and the full length of the viewport along the cross axis.
pub open spec fn item_area(axis: ScrollAxis, viewport: AreaModel, element: LayoutElement)
    -> AreaModel {
    let length = viewport.main_length(axis) as u16;
    viewport.strip(
        axis,
        visible_start(length, element),
        visible_end(length, element) - visible_start(length, element),
    )
}

/// `placement` places `element` in the viewport under the selection.
pub open spec fn places_item(
    axis: ScrollAxis,
    viewport: AreaModel,
    selected: Option<usize>,
    element: LayoutElement,
    placement: Placement,
) -> bool {
    &&& placement.element == element
    &&& placement.is_selected == (selected == Some(element.index))
    &&& placement.area@ == item_area(axis, viewport, element)
}

/// `placements` places the items of a window in the viewport, one for one
/// and in the same order.
pub open spec fn places(
    axis: ScrollAxis,
    viewport: AreaModel,
    selected: Option<usize>,
    items: Seq<LayoutElement>,
    placements: Seq<Placement>,
) -> bool {
    &&& placements.len() == items.len()
    &&& forall|k: int|
        0 <= k < items.len() ==> places_item(
            axis,
            viewport,
            selected,
            items[k],
            #[trigger] placements[k],
        )
}

/// The visible parts of the items of a window lie side by side in the
/// viewport: the first one begins at the start of the viewport, and each
/// other one begins where the one before it ends. None reaches over the end
/// of the viewport.
pub proof fn lemma_visible_parts_tile(
    viewport: u16,
    anchor: ScrollAnchor,
    items: Seq<LayoutElement>,
    k: int,
)
    requires
        laid_out(viewport, anchor, items),
        0 <= k < items.len(),
    ensures
        0 <= visible_start(viewport, items[k]) <= visible_end(viewport, items[k]) <= viewport,
        k == 0 ==> visible_start(viewport, items[k]) == 0,
        k > 0 ==> visible_start(viewport, items[k]) == visible_end(viewport, items[k - 1]),
        items[k].is_fully_visible <==> visible_end(viewport, items[k]) - visible_start(
            viewport,
            items[k],
        ) == items[k].main_axis_size && items[k].main_axis_offset >= 0,
{
}

/// Places one item of a window in the viewport.
pub fn place_item(
    axis: ScrollAxis,
    viewport: &Area,
    selected: Option<usize>,
    element: LayoutElement,
) -> (placement: Placement)
    ensures
        places_item(axis, viewport@, selected, element, placement),
        viewport@.contains(placement.area@),
{
    let length: u16 = viewport.main_length(axis);
    let begin: i64 = element.main_axis_offset as i64;
    let end: i64 = begin + element.main_axis_size as i64;
    let start: u16 = if begin <= 0 {
        0
    } else if begin < length as i64 {
        begin as u16
    } else {
        length
    };
    let stop: u16 = if end <= start as i64 {
        start
    } else if end < length as i64 {
        end as u16
    } else {
        length
    };
    let is_selected: bool = match selected {
        Some(s) => s == element.index,
        None => false,
    };
    Placement { element, is_selected, area: viewport.strip(axis, start, stop - start) }
}

/// Places the items of a window in the viewport, in their order.
pub fn place_window(
    axis: ScrollAxis,
    viewport: &Area,
    selected: Option<usize>,
    items: &Vec<LayoutElement>,
) -> (placements: Vec<Placement>)
    ensures
        places(axis, viewport@, selected, items@, placements@),
{
    let mut placements: Vec<Placement> = Vec::new();
    let mut k: usize = 0;
    while k < items.len()
        invariant
            k <= items.len(),
            places(axis, viewport@, selected, items@.take(k as int), placements@),
        decreases items.len() - k,
    {
        let placement: Placement = place_item(axis, viewport, selected, items[k]);
        placements.push(placement);
        k = k + 1;
    }
    placements
}

/// A list of `item_count` items that are built on demand.
pub struct ListView<B> {
    builder: B,
    item_count: usize,
    scroll_axis: ScrollAxis,
}

impl<B> ListView<B> {
    /// The function that builds the items of the list.
    pub closed spec fn builder(&self) -> B {
        self.builder
    }

    /// How many items the list has.
    pub closed spec fn spec_item_count(&self) -> usize {
        self.item_count
    }

    /// The axis along which the list scrolls.
    pub closed spec fn spec_axis(&self) -> ScrollAxis {
        self.scroll_axis
    }

    /// A list of `item_count` items that `builder` builds. It scrolls
    /// vertically.
    pub fn new(builder: B, item_count: usize) -> (view: ListView<B>)
        ensures
            view.builder() == builder,
            view.item_count() == item_count,
            view.axis() == ScrollAxis::Vertical,
    {
        ListView { builder, item_count, scroll_axis: ScrollAxis::Vertical }
    }

    /// The same list, scrolling along `axis`.
    pub fn scroll_axis(self, axis: ScrollAxis) -> (view: ListView<B>)
        ensures
            view.builder() == self.builder(),
            view.item_count() == self.item_count(),
            view.axis() == axis,
    {
        ListView { builder: self.builder, item_count: self.item_count, scroll_axis: axis }
    }

    /// How many items the list has.
    #[verifier::when_used_as_spec(spec_item_count)]
    pub fn item_count(&self) -> (item_count: usize)
        ensures
            item_count == self.item_count(),
    {
        self.item_count
    }

    /// The axis along which the list scrolls.
    #[verifier::when_used_as_spec(spec_axis)]
    pub fn axis(&self) -> (axis: ScrollAxis)
        ensures
            axis == self.axis(),
    {
        self.scroll_axis
    }

    /// Runs one layout pass of the list in `viewport`.
    ///
    /// The state learns how many items the list has, which brings its
    /// selection into the list. The window is resolved from the state's
    /// anchor and selection, over the sizes that the builder returns, along
    /// the main axis of the viewport. The anchor that the pass has used is
    /// written back to the state; the selection is not touched again. The
    /// result places every item of the window in the viewport.
    pub fn layout<T>(&self, viewport: Area, state: &mut ListState) -> (placements: Vec<Placement>)
        where B: Fn(ItemContext) -> (T, u16)
        requires
            buildable(self.builder(), self.item_count()),
        ensures
            final(state)@.wf(),
            final(state)@ == (StateModel {
                anchor: final(state)@.anchor,
                ..old(state)@.with_item_count(self.item_count())
            }),
            viewport@.fits(),
            forall|sizes: Seq<u16>|
                sizes.len() == self.item_count() && #[trigger] provides(
                    sizes,
                    self.builder(),
                    final(state)@.selected,
                ) ==> {
                    &&& final(state)@.anchor == resolved_anchor(
                        viewport@.main_length(self.axis()) as u16,
                        sizes,
                        old(state)@.anchor,
                        final(state)@.selected,
                    )
                    &&& places(
                        self.axis(),
                        viewport@,
                        final(state)@.selected,
                        window(
                            viewport@.main_length(self.axis()) as u16,
                            sizes,
                            final(state)@.anchor,
                        ),
                        placements@,
                    )
                },
            exists|items: Seq<LayoutElement>|
                laid_out(
                    viewport@.main_length(self.axis()) as u16,
                    final(state)@.anchor,
                    items,
                ) && #[trigger] places(
                    self.axis(),
                    viewport@,
                    final(state)@.selected,
                    items,
                    placements@,
                ),
            final(state)@.anchor.index + placements@.len() <= self.item_count(),
            self.item_count() > 0 ==> final(state)@.anchor.index < self.item_count(),
            self.item_count() == 0 ==> final(state)@.anchor == ScrollAnchor::origin_spec(),
    {
        state.set_item_count(self.item_count);
        let item_count: usize = self.item_count;
        let selected: Option<usize> = state.selected();
        let length: u16 = viewport.main_length(self.scroll_axis);
        let build: &B = &self.builder;
        let size_of = |i: usize| -> (size: u16)
            requires
                call_requires(build, (context_of(i, selected),)),
            ensures
                exists|item: T| call_ensures(build, (context_of(i, selected),), (item, size)),
            {
                let is_selected: bool = match selected {
                    Some(s) => s == i,
                    None => false,
                };
                let built: (T, u16) = build(ItemContext { index: i, is_selected });
                assert(call_ensures(build, (context_of(i, selected),), (built.0, built.1)));
                built.1
            };
        let ghost measuring = size_of;
        assert forall|i: usize| i < item_count implies call_requires(size_of, (i,)) by {
            assert(context_of(i, selected).index < item_count);
        }
        let (items, anchor) = resolve(length, item_count, state.anchor(), selected, size_of);
        state.set_anchor(anchor);
        let placements: Vec<Placement> = place_window(
            self.scroll_axis,
            &viewport,
            selected,
            &items,
        );
        assert forall|sizes: Seq<u16>|
            sizes.len() == self.item_count() && #[trigger] provides(
                sizes,
                self.builder(),
                selected,
            ) implies describes(sizes, measuring) by {}
        placements
    }

    /// Renders the list into `buf`: runs one layout pass in `viewport` and
    /// draws every item of the window in its rectangle. Each visible item is
    /// built once more for drawing, in the context of its index and of the
    /// selection; no other item is built for drawing. Of the selected item
    /// the highlighted form is drawn, where the item has one.
    ///
    /// The state changes as in `layout`. What the items draw is their own
    /// affair: nothing is said of the buffer.
    pub fn render<T: WidgetItem>(&self, viewport: Area, buf: &mut Buffer, state: &mut ListState)
        where B: Fn(ItemContext) -> (T, u16)
        requires
            buildable(self.builder(), self.item_count()),
        ensures
            final(state)@.wf(),
            final(state)@ == (StateModel {
                anchor: final(state)@.anchor,
                ..old(state)@.with_item_count(self.item_count())
            }),
            forall|sizes: Seq<u16>|
                sizes.len() == self.item_count() && #[trigger] provides(
                    sizes,
                    self.builder(),
                    final(state)@.selected,
                ) ==> final(state)@.anchor == resolved_anchor(
                    viewport@.main_length(self.axis()) as u16,
                    sizes,
                    old(state)@.anchor,
                    final(state)@.selected,
                ),
            self.item_count() > 0 ==> final(state)@.anchor.index < self.item_count(),
            self.item_count() == 0 ==> final(state)@.anchor == ScrollAnchor::origin_spec(),
    {
        let placements: Vec<Placement> = self.layout(viewport, state);
        let ghost selected = state@.selected;
        let ghost items = choose|items: Seq<LayoutElement>|
            laid_out(viewport@.main_length(self.axis()) as u16, state@.anchor, items)
                && #[trigger] places(self.axis(), viewport@, selected, items, placements@);
        let mut k: usize = 0;
        while k < placements.len()
            invariant
                buildable(self.builder(), self.item_count()),
                viewport@.fits(),
                laid_out(viewport@.main_length(self.axis()) as u16, state@.anchor, items),
                places(self.axis(), viewport@, selected, items, placements@),
                state@.anchor.index + placements@.len() <= self.item_count(),
            decreases placements.len() - k,
        {
            let placement: Placement = placements[k];
            let context: ItemContext = ItemContext {
                index: placement.element.index,
                is_selected: placement.is_selected,
            };
            assert(context.index < self.item_count());
            let build: &B = &self.builder;
            let built: (T, u16) = build(context);
            let item: T = built.0;
            let lit: Option<T> = if placement.is_selected {
                item.highlighted()
            } else {
                None
            };
            match lit {
                Some(highlighted) => highlighted.render(host_rect(&placement.area), buf),
                None => item.render(host_rect(&placement.area), buf),
            }
            k = k + 1;
        }
    }
}

} // verus!
