//! A list view: a cursor over a list of items.
use vstd::prelude::*;

use super::{ActionResult, Key, list_step, opens};

verus! {

/// A list of items with a cursor on one of them (on none when the list is
/// empty, where the cursor stays at 0).
pub struct GuiList<T> {
    index: usize,
    list: Vec<T>,
}

impl<T> GuiList<T> {
    #[verifier::type_invariant]
    spec fn inv(self) -> bool {
        self.index < self.list@.len() || self.index == 0
    }

    /// The position of the cursor.
    pub closed spec fn cursor(self) -> usize {
        self.index
    }

    /// The items, in order.
    pub closed spec fn items(self) -> Seq<T> {
        self.list@
    }

    /// The list of `list`, with the cursor on its first item.
    pub fn new(list: Vec<T>) -> (r: Self)
        ensures
            r.cursor() == 0,
            r.items() == list@,
    {
        GuiList { list, index: 0 }
    }

    /// Moves the cursor up or down by one item as far as the list reaches,
    /// selects the item under the cursor (`o` or Enter), or closes the view
    /// (`q` or Escape); see `list_step`. An empty list has no item to select.
    pub fn handle_key(&mut self, key: Key) -> (r: ActionResult)
        requires
            !(opens(key) && old(self).items().len() == 0),
        ensures
            final(self).cursor() == list_step(old(self).cursor(), old(self).items().len(), key).0,
            r == list_step(old(self).cursor(), old(self).items().len(), key).1,
            final(self).items() == old(self).items(),
            final(self).cursor() < final(self).items().len() || final(self).cursor() == 0,
            r matches ActionResult::Select(i) ==> i < old(self).items().len(),
            r != ActionResult::Update ==> *final(self) == *old(self),
            opens(key) ==> r == ActionResult::Select(old(self).cursor()),
    {
        proof {
            use_type_invariant(&*self);
        }
        match key {
            Key::Up => {
                if self.index > 0 {
                    self.index = self.index - 1;
                    ActionResult::Update
                } else {
                    ActionResult::NoUpdate
                }
            },
            Key::Down => {
                let len = self.list.len();
                if self.index < len && self.index + 1 < len {
                    self.index = self.index + 1;
                    ActionResult::Update
                } else {
                    ActionResult::NoUpdate
                }
            },
            Key::Char('o') | Key::Char('\n') => ActionResult::Select(self.index),
            Key::Char('q') | Key::Esc => ActionResult::PopView,
            _ => ActionResult::NoUpdate,
        }
    }

    /// The position of the cursor.
    pub fn index(&self) -> (r: usize)
        ensures
            r == self.cursor(),
            r < self.items().len() || r == 0,
    {
        proof {
            use_type_invariant(self);
        }
        self.index
    }

    /// The items, in order.
    pub fn list(&self) -> (r: &Vec<T>)
        ensures
            r@ == self.items(),
    {
        &self.list
    }

    /// The item at position `i`.
    pub fn item(&self, i: usize) -> (r: &T)
        requires
            i < self.items().len(),
        ensures
            *r == self.items()[i as int],
    {
        &self.list[i]
    }

    /// How many rows of the list a terminal `term_height` rows high shows:
    /// five rows are kept free, and there are no more rows than items.
    pub fn visible_rows(&self, term_height: u16) -> (r: usize)
        requires
            term_height >= 5,
        ensures
            r == if self.items().len() < term_height - 5 {
                self.items().len() as int
            } else {
                term_height - 5
            },
    {
        let free = (term_height - 5) as usize;
        if self.list.len() < free {
            self.list.len()
        } else {
            free
        }
    }

    /// What row `row` starts with: an arrow at the cursor, blanks elsewhere.
    pub fn row_marker(&self, row: usize) -> (r: &'static str)
        ensures
            r@ == if row == self.cursor() {
                seq!['>', ' ']
            } else {
                seq![' ', ' ']
            },
    {
        if row == self.index {
            proof {
                reveal_strlit("> ");
            }
            "> "
        } else {
            proof {
                reveal_strlit("  ");
            }
            "  "
        }
    }
}

} // verus!
