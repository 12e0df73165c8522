//! The scroll state of a list: which item is selected, where the list is
//! scrolled to, and whether the selection goes round at the ends.

use crate::window::ScrollAnchor;
use vstd::prelude::*;

verus! {

/// What a `ListState` holds, as a mathematical value.
pub ghost struct StateModel {
    /// The selected item, if there is one.
    pub selected: Option<usize>,
    /// Where the list is scrolled to.
    pub anchor: ScrollAnchor,
    /// Whether the selection goes round at the ends of the list.
    pub circular: bool,
    /// How many items the list has.
    pub item_count: usize,
}

impl StateModel {
    /// A selection always names an item of the list.
    pub open spec fn wf(self) -> bool {
        match self.selected {
            Some(i) => i < self.item_count,
            None => true,
        }
    }

    /// The state with another selection and everything else unchanged.
    pub open spec fn with_selected(self, selected: Option<usize>) -> StateModel {
        StateModel { selected, ..self }
    }

    /// The selection after a step forward. Without a selection the first
    /// item is selected. A selection on the last item goes to the first item
    /// if the state is circular, and stays where it is if not. An empty list
    /// has no selection.
    pub open spec fn next(self) -> StateModel {
        if self.item_count == 0 {
            self.with_selected(None)
        } else {
            match self.selected {
                None => self.with_selected(Some(0)),
                Some(i) => if i + 1 < self.item_count {
                    self.with_selected(Some((i + 1) as usize))
                } else if self.circular {
                    self.with_selected(Some(0))
                } else {
                    self.with_selected(Some((self.item_count - 1) as usize))
                },
            }
        }
    }

    /// The selection after a step backward. Without a selection the first
    /// item is selected, as for a step forward. A selection on the first item
    /// goes to the last item if the state is circular, and stays where it is
    /// if not. An empty list has no selection.
    pub open spec fn previous(self) -> StateModel {
        if self.item_count == 0 {
            self.with_selected(None)
        } else {
            match self.selected {
                None => self.with_selected(Some(0)),
                Some(i) => if i > 0 {
                    self.with_selected(Some((i - 1) as usize))
                } else if self.circular {
                    self.with_selected(Some((self.item_count - 1) as usize))
                } else {
                    self.with_selected(Some(0))
                },
            }
        }
    }

    /// The selection that `index` asks for, brought into the list: an index
    /// past the end selects the last item, and an empty list has no
    /// selection.
    pub open spec fn select(self, index: Option<usize>) -> StateModel {
        match index {
            Some(i) => if self.item_count == 0 {
                self.with_selected(None)
            } else if i >= self.item_count {
                self.with_selected(Some((self.item_count - 1) as usize))
            } else {
                self.with_selected(Some(i))
            },
            None => self.with_selected(None),
        }
    }

    /// The state for a list of `item_count` items: the selection is brought
    /// into the list as `select` does.
    pub open spec fn with_item_count(self, item_count: usize) -> StateModel {
        (StateModel { item_count, ..self }).select(self.selected)
    }

    /// The state after `steps` steps forward.
    pub open spec fn next_times(self, steps: nat) -> StateModel
        decreases steps,
    {
        if steps == 0 {
            self
        } else {
            self.next_times((steps - 1) as nat).next()
        }
    }
}

/// The scroll state of a list. The caller of a list owns it and hands it to
/// every layout pass.
#[derive(Clone, Copy, Debug, PartialEq, Eq)]
pub struct ListState {
    selected: Option<usize>,
    anchor: ScrollAnchor,
    circular: bool,
    item_count: usize,
}

impl View for ListState {
    type V = StateModel;

    closed spec fn view(&self) -> StateModel {
        StateModel {
            selected: self.selected,
            anchor: self.anchor,
            circular: self.circular,
            item_count: self.item_count,
        }
    }
}

impl ListState {
    #[verifier::type_invariant]
    spec fn selection_in_list(self) -> bool {
        self@.wf()
    }

    /// The state of an empty list: nothing selected, scrolled to the origin,
    /// circular.
    pub fn new() -> (state: ListState)
        ensures
            state@ == (StateModel {
                selected: None,
                anchor: ScrollAnchor::origin_spec(),
                circular: true,
                item_count: 0,
            }),
    {
        ListState { selected: None, anchor: ScrollAnchor::origin(), circular: true, item_count: 0 }
    }

    /// Selects the next item.
    pub fn next(&mut self)
        ensures
            final(self)@ == old(self)@.next(),
            final(self)@.wf(),
    {
        proof {
            use_type_invariant(&*self);
        }
        if self.item_count == 0 {
            self.selected = None;
        } else {
            match self.selected {
                None => {
                    self.selected = Some(0);
                },
                Some(i) => {
                    if i + 1 < self.item_count {
                        self.selected = Some(i + 1);
                    } else if self.circular {
                        self.selected = Some(0);
                    } else {
                        self.selected = Some(self.item_count - 1);
                    }
                },
            }
        }
    }

    /// Selects the previous item.
    pub fn previous(&mut self)
        ensures
            final(self)@ == old(self)@.previous(),
            final(self)@.wf(),
    {
        proof {
            use_type_invariant(&*self);
        }
        if self.item_count == 0 {
            self.selected = None;
        } else {
            match self.selected {
                None => {
                    self.selected = Some(0);
                },
                Some(i) => {
                    if i > 0 {
                        self.selected = Some(i - 1);
                    } else if self.circular {
                        self.selected = Some(self.item_count - 1);
                    } else {
                        self.selected = Some(0);
                    }
                },
            }
        }
    }

    /// Selects item `index`, or nothing. An index past the end of the list
    /// selects the last item; in an empty list nothing is selected.
    pub fn select(&mut self, index: Option<usize>)
        ensures
            final(self)@ == old(self)@.select(index),
            final(self)@.wf(),
    {
        match index {
            Some(i) => {
                if self.item_count == 0 {
                    self.selected = None;
                } else if i >= self.item_count {
                    self.selected = Some(self.item_count - 1);
                } else {
                    self.selected = Some(i);
                }
            },
            None => {
                self.selected = None;
            },
        }
    }

    /// Tells the state how many items the list has. A selection past the new
    /// end moves to the last item, and is dropped if the list is empty.
    pub fn set_item_count(&mut self, item_count: usize)
        ensures
            final(self)@ == old(self)@.with_item_count(item_count),
            final(self)@.wf(),
    {
        let kept: Option<usize> = match self.selected {
            Some(i) => {
                if item_count == 0 {
                    None
                } else if i >= item_count {
                    Some(item_count - 1)
                } else {
                    Some(i)
                }
            },
            None => None,
        };
        *self = ListState {
            selected: kept,
            anchor: self.anchor,
            circular: self.circular,
            item_count,
        };
    }

    /// Sets whether the selection goes round at the ends of the list.
    pub fn set_circular(&mut self, circular: bool)
        ensures
            final(self)@ == (StateModel { circular, ..old(self)@ }),
            final(self)@.wf(),
    {
        proof {
            use_type_invariant(&*self);
        }
        self.circular = circular;
    }

    /// The same state, circular or not.
    pub fn circular(self, circular: bool) -> (state: ListState)
        ensures
            state@ == (StateModel { circular, ..self@ }),
            state@.wf(),
    {
        proof {
            use_type_invariant(&self);
        }
        ListState {
            selected: self.selected,
            anchor: self.anchor,
            circular,
            item_count: self.item_count,
        }
    }

    /// Records the anchor that a layout pass has used, so that the next pass
    /// starts from it.
    pub fn set_anchor(&mut self, anchor: ScrollAnchor)
        ensures
            final(self)@ == (StateModel { anchor, ..old(self)@ }),
            final(self)@.wf(),
    {
        proof {
            use_type_invariant(&*self);
        }
        self.anchor = anchor;
    }

    /// The selected item, if there is one.
    pub fn selected(&self) -> (selected: Option<usize>)
        ensures
            selected == self@.selected,
            self@.wf(),
    {
        proof {
            use_type_invariant(self);
        }
        self.selected
    }

    /// Where the list is scrolled to.
    pub fn anchor(&self) -> (anchor: ScrollAnchor)
        ensures
            anchor == self@.anchor,
    {
        self.anchor
    }

    /// Whether the selection goes round at the ends of the list.
    pub fn is_circular(&self) -> (circular: bool)
        ensures
            circular == self@.circular,
    {
        self.circular
    }

    /// How many items the list has.
    pub fn item_count(&self) -> (item_count: usize)
        ensures
            item_count == self@.item_count,
    {
        self.item_count
    }
}

impl Default for ListState {
    /// The state of an empty list: nothing selected, scrolled to the origin,
    /// circular.
    fn default() -> (state: ListState)
        ensures
            state@ == (StateModel {
                selected: None,
                anchor: ScrollAnchor::origin_spec(),
                circular: true,
                item_count: 0,
            }),
    {
        ListState::new()
    }
}

/// Every navigation step keeps the selection inside the list.
pub proof fn lemma_navigation_wf(state: StateModel, index: Option<usize>, item_count: usize)
    requires
        state.wf(),
    ensures
        state.next().wf(),
        state.previous().wf(),
        state.select(index).wf(),
        state.with_item_count(item_count).wf(),
{
}

/// Navigation changes the selection only: the anchor, the number of items
/// and whether the state is circular stay as they are.
pub proof fn lemma_navigation_keeps_anchor(state: StateModel, index: Option<usize>)
    ensures
        state.next() == state.with_selected(state.next().selected),
        state.previous() == state.with_selected(state.previous().selected),
        state.select(index) == state.with_selected(state.select(index).selected),
{
}

/// Without a selection, a step backward selects the first item of a list
/// that has items, exactly as a step forward does, whether the state is
/// circular or not.
pub proof fn lemma_previous_from_none(state: StateModel)
    requires
        state.selected.is_none(),
        state.item_count > 0,
    ensures
        state.previous().selected == Some(0usize),
        state.previous() == state.next(),
{
}

/// Where the selection is after some steps forward in a circular list.
proof fn lemma_next_times_circular(state: StateModel, i: usize, steps: nat)
    requires
        state.wf(),
        state.circular,
        state.selected == Some(i),
        steps <= state.item_count,
    ensures
        state.next_times(steps) == state.with_selected(
            Some(
                if i + steps < state.item_count {
                    (i + steps) as usize
                } else {
                    (i + steps - state.item_count) as usize
                },
            ),
        ),
    decreases steps,
{
    if steps > 0 {
        lemma_next_times_circular(state, i, (steps - 1) as nat);
    }
}

/// Where the selection is after some steps forward in a list that is not
/// circular.
proof fn lemma_next_times_bounded(state: StateModel, steps: nat)
    requires
        state.wf(),
        !state.circular,
        state.item_count > 0,
        steps > 0,
    ensures
        state.next_times(steps) == state.with_selected(
            Some(
                match state.selected {
                    Some(i) => if i + steps < state.item_count {
                        (i + steps) as usize
                    } else {
                        (state.item_count - 1) as usize
                    },
                    None => if steps <= state.item_count {
                        (steps - 1) as usize
                    } else {
                        (state.item_count - 1) as usize
                    },
                },
            ),
        ),
    decreases steps,
{
    if steps > 1 {
        lemma_next_times_bounded(state, (steps - 1) as nat);
    } else {
        assert(state.next_times(0) == state);
    }
}

/// In a circular list, as many steps forward as the list has items lead back
/// to the item that was selected at the start.
pub proof fn lemma_next_goes_round(state: StateModel)
    requires
        state.wf(),
        state.circular,
        state.selected.is_some(),
    ensures
        state.next_times(state.item_count as nat) == state,
{
    lemma_next_times_circular(state, state.selected.unwrap(), state.item_count as nat);
}

/// In a list that is not circular, as many steps forward as the list has
/// items end on the last item, wherever they started.
pub proof fn lemma_next_ends_on_last(state: StateModel)
    requires
        state.wf(),
        !state.circular,
        state.item_count > 0,
    ensures
        state.next_times(state.item_count as nat).selected == Some(
            (state.item_count - 1) as usize,
        ),
{
    lemma_next_times_bounded(state, state.item_count as nat);
}

} // verus!
