//! A selection menu over completion candidates: a cursor that wraps
//! around the candidate list, and an active flag.

use vstd::prelude::*;

use crate::completion::Completion;

verus! {

/// Simple menu that offers the user a selection.
pub struct DefaultMenu {
    selections: Vec<(String, Completion)>,
    /// Currently selected item.
    cursor: u32,
    active: bool,
    max_rows: usize,
}

impl DefaultMenu {
    /// How many items the menu holds.
    pub closed spec fn count(self) -> nat {
        self.selections@.len()
    }

    /// The selected position.
    pub closed spec fn cursor_spec(self) -> nat {
        self.cursor as nat
    }

    /// Whether the menu is shown.
    pub closed spec fn active_spec(self) -> bool {
        self.active
    }

    /// How many rows the menu shows at most.
    pub closed spec fn rows_spec(self) -> nat {
        self.max_rows as nat
    }

    /// The cursor always stays inside the list (or at 0 when empty).
    pub open spec fn wf(self) -> bool {
        self.cursor_spec() < self.count() || (self.count() == 0 && self.cursor_spec() == 0)
    }

    /// An empty, inactive menu showing at most five rows.
    pub fn new() -> (r: DefaultMenu)
        ensures
            r.wf(),
            r.count() == 0,
            r.cursor_spec() == 0,
            !r.active_spec(),
    {
        DefaultMenu { selections: Vec::new(), cursor: 0, active: false, max_rows: 5 }
    }

    /// Move the selection one forward, wrapping to the front from the
    /// last item.
    pub fn next(&mut self)
        requires
            old(self).wf(),
            old(self).count() < u32::MAX,
        ensures
            final(self).wf(),
            final(self).count() == old(self).count(),
            final(self).active_spec() == old(self).active_spec(),
            old(self).count() == 0 ==> final(self).cursor_spec() == 0,
            old(self).count() > 0 ==> final(self).cursor_spec() == (if old(self).cursor_spec() + 1
                == old(self).count() {
                0
            } else {
                old(self).cursor_spec() + 1
            }),
    {
        if self.selections.len() == 0 {
            self.cursor = 0;
        } else if self.cursor as usize == self.selections.len() - 1 {
            self.cursor = 0;
        } else {
            self.cursor = self.cursor + 1;
        }
    }

    /// Move the selection one back, wrapping to the last item from the
    /// front.
    pub fn previous(&mut self)
        requires
            old(self).wf(),
            old(self).count() < u32::MAX,
        ensures
            final(self).wf(),
            final(self).count() == old(self).count(),
            final(self).active_spec() == old(self).active_spec(),
            old(self).count() == 0 ==> final(self).cursor_spec() == 0,
            old(self).count() > 0 ==> final(self).cursor_spec() == (if old(self).cursor_spec()
                == 0 {
                old(self).count() - 1
            } else {
                old(self).cursor_spec() - 1
            }),
    {
        if self.selections.len() == 0 {
            self.cursor = 0;
        } else if self.cursor == 0 {
            self.cursor = (self.selections.len() - 1) as u32;
        } else {
            self.cursor = self.cursor - 1;
        }
    }

    /// Accept the current selection, closing the menu.
    pub fn accept(&mut self) -> (r: Option<&Completion>)
        requires
            old(self).wf(),
        ensures
            final(self).wf(),
            !final(self).active_spec(),
            final(self).count() == old(self).count(),
            final(self).cursor_spec() == old(self).cursor_spec(),
            r.is_some() <==> old(self).count() > 0,
    {
        self.active = false;
        if (self.cursor as usize) < self.selections.len() {
            Option::Some(&self.selections[self.cursor as usize].1)
        } else {
            Option::None
        }
    }

    /// The currently selected item, if any.
    pub fn current_selection(&self) -> (r: Option<&Completion>)
        requires
            self.wf(),
        ensures
            r.is_some() <==> self.count() > 0,
    {
        if (self.cursor as usize) < self.selections.len() {
            Option::Some(&self.selections[self.cursor as usize].1)
        } else {
            Option::None
        }
    }

    /// The selected position.
    pub fn cursor(&self) -> (r: u32)
        ensures
            r as nat == self.cursor_spec(),
    {
        self.cursor
    }

    /// Whether the menu is shown.
    pub fn is_active(&self) -> (r: bool)
        ensures
            r == self.active_spec(),
    {
        self.active
    }

    /// Show the menu — unless it is empty, which keeps it hidden.
    pub fn activate(&mut self)
        ensures
            final(self).active_spec() == (old(self).count() > 0),
            final(self).count() == old(self).count(),
            final(self).cursor_spec() == old(self).cursor_spec(),
            old(self).wf() ==> final(self).wf(),
    {
        self.active = self.selections.len() > 0;
    }

    /// Hide the menu.
    pub fn disactivate(&mut self)
        ensures
            !final(self).active_spec(),
            final(self).count() == old(self).count(),
            final(self).cursor_spec() == old(self).cursor_spec(),
            old(self).wf() ==> final(self).wf(),
    {
        self.active = false;
    }

    /// Replace the items shown, resetting the selection to the front.
    pub fn set_items(&mut self, items: Vec<(String, Completion)>)
        ensures
            final(self).wf(),
            final(self).count() == items@.len(),
            final(self).cursor_spec() == 0,
            final(self).active_spec() == old(self).active_spec(),
    {
        self.selections = items;
        self.cursor = 0;
    }

    /// The item at a position: its preview text and candidate.
    pub fn item_at(&self, i: usize) -> (r: Option<&(String, Completion)>)
        ensures
            r.is_some() <==> i < self.count(),
    {
        if i < self.selections.len() {
            Option::Some(&self.selections[i])
        } else {
            Option::None
        }
    }

    /// How many terminal lines the menu needs: the shown rows and one
    /// more for the prompt.
    pub fn required_lines(&self) -> (r: usize)
        requires
            self.count() <= usize::MAX - 1,
            self.rows_spec() <= usize::MAX - 1,
        ensures
            r == (if self.count() < self.rows_spec() {
                self.count() + 1
            } else {
                self.rows_spec() + 1
            }),
    {
        let shown = if self.selections.len() < self.max_rows {
            self.selections.len()
        } else {
            self.max_rows
        };
        shown + 1
    }
}

} // verus!
