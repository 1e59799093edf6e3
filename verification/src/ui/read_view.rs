//! The view that shows one message.
use vstd::prelude::*;

use super::{ActionResult, Key, read_step};

verus! {

/// A view of a text.
pub struct ReadView {
    content: String,
}

impl View for ReadView {
    type V = Seq<char>;

    /// The text shown.
    closed spec fn view(&self) -> Seq<char> {
        self.content@
    }
}

impl ReadView {
    /// The view of `content`.
    pub fn new(content: &str) -> (r: Self)
        ensures
            r@ == content@,
    {
        ReadView { content: content.to_owned() }
    }

    /// Closes the view on `q` or Escape and ignores every other key; see
    /// `read_step`.
    pub fn handle_key(&mut self, key: Key) -> (r: ActionResult)
        ensures
            r == read_step(key),
            *final(self) == *old(self),
    {
        match key {
            Key::Char('q') | Key::Esc => ActionResult::PopView,
            _ => ActionResult::NoUpdate,
        }
    }

    /// The text shown.
    pub fn content(&self) -> (r: &String)
        ensures
            r@ == self@,
    {
        &self.content
    }
}

} // verus!
