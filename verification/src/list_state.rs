//! The selection of a list on screen.
//!
//! A list widget keeps the index of its selected item, if any. Moving the selection
//! does not know how many items the list has: the next position after the last item,
//! or the "last" position, is corrected to the last item when the list is drawn.
use vstd::prelude::*;

verus! {

/// The selection of a list: the index of the selected item, if any.
pub struct ListSelection {
    selected: Option<usize>,
}

impl View for ListSelection {
    type V = Option<usize>;

    closed spec fn view(&self) -> Option<usize> {
        self.selected
    }
}

/// The index after `i`, or `i` itself at the largest index.
pub open spec fn next_index(selected: Option<usize>) -> usize {
    match selected {
        None => 0,
        Some(i) => if i < usize::MAX { (i + 1) as usize } else { i },
    }
}

/// The index before `i`, or 0 at 0; the largest index when nothing is selected.
pub open spec fn previous_index(selected: Option<usize>) -> usize {
    match selected {
        None => usize::MAX,
        Some(i) => if i > 0 { (i - 1) as usize } else { 0 },
    }
}

impl ListSelection {
    /// A selection with nothing selected.
    pub fn new() -> (r: ListSelection)
        ensures
            r@ == None::<usize>,
    {
        ListSelection { selected: None }
    }

    /// A selection with the given index selected.
    pub fn with_selected(selected: Option<usize>) -> (r: ListSelection)
        ensures
            r@ == selected,
    {
        ListSelection { selected }
    }

    /// The selected index.
    pub fn selected(&self) -> (r: Option<usize>)
        ensures
            r == self@,
    {
        self.selected
    }

    /// Selects `index`, or nothing.
    pub fn select(&mut self, index: Option<usize>)
        ensures
            final(self)@ == index,
    {
        self.selected = index;
    }

    /// Selects the next item, or the first when nothing is selected.
    pub fn select_next(&mut self)
        ensures
            final(self)@ == Some(next_index(old(self)@)),
    {
        let next = match self.selected {
            None => 0,
            Some(i) => i.saturating_add(1),
        };
        self.select(Some(next));
    }

    /// Selects the previous item, or the last when nothing is selected.
    pub fn select_previous(&mut self)
        ensures
            final(self)@ == Some(previous_index(old(self)@)),
    {
        let previous = match self.selected {
            None => usize::MAX,
            Some(i) => i.saturating_sub(1),
        };
        self.select(Some(previous));
    }

    /// Selects the first item.
    pub fn select_first(&mut self)
        ensures
            final(self)@ == Some(0usize),
    {
        self.select(Some(0));
    }

    /// Selects the last item: the largest index, until the list is drawn.
    pub fn select_last(&mut self)
        ensures
            final(self)@ == Some(usize::MAX),
    {
        self.select(Some(usize::MAX));
    }
}

} // verus!
