//! The terminal views and the stack of them that the user moves through:
//! which key does what, and what the program has to fetch or draw next.
use vstd::prelude::*;

use crate::structs::{EmailHeader, MailboxTitle};

pub mod gui_list;
pub mod read_view;

use gui_list::GuiList;
use read_view::ReadView;

verus! {

/// A key the user pressed.
#[derive(Clone, Copy, Debug, PartialEq, Eq, Structural)]
pub enum Key {
    Up,
    Down,
    Esc,
    Char(char),
    Ctrl(char),
    Other,
}

/// What a view asks for after a key.
#[derive(Clone, Copy, Debug, PartialEq, Eq, Structural)]
pub enum ActionResult {
    /// The view changed and is to be drawn again.
    Update,
    /// Nothing changed.
    NoUpdate,
    /// The item at this position was chosen: its view is to be opened on top.
    Select(usize),
    /// The view is to be closed.
    PopView,
}

/// `key` chooses the item under the cursor (`o` or Enter).
pub open spec fn opens(key: Key) -> bool {
    key == Key::Char('o') || key == Key::Char('\n')
}

/// `key` closes the view (`q` or Escape).
pub open spec fn closes(key: Key) -> bool {
    key == Key::Char('q') || key == Key::Esc
}

/// What `key` does to a list view whose cursor is at `index` over `len`
/// items: the new cursor and what the view asks for.
pub open spec fn list_step(index: usize, len: nat, key: Key) -> (usize, ActionResult) {
    if key == Key::Up {
        if index > 0 {
            ((index - 1) as usize, ActionResult::Update)
        } else {
            (index, ActionResult::NoUpdate)
        }
    } else if key == Key::Down {
        if index + 1 < len {
            ((index + 1) as usize, ActionResult::Update)
        } else {
            (index, ActionResult::NoUpdate)
        }
    } else if opens(key) {
        (index, ActionResult::Select(index))
    } else if closes(key) {
        (index, ActionResult::PopView)
    } else {
        (index, ActionResult::NoUpdate)
    }
}

/// What `key` does to the view of a message.
pub open spec fn read_step(key: Key) -> ActionResult {
    if closes(key) {
        ActionResult::PopView
    } else {
        ActionResult::NoUpdate
    }
}

/// `key` ends the program (Ctrl-C), whatever view is open.
pub open spec fn quits(key: Key) -> bool {
    key == Key::Ctrl('c')
}

/// Moving the cursor down and then up brings it back where it was, where
/// there was an item below it.
pub proof fn law_down_then_up(index: usize, len: nat)
    requires
        index + 1 < len,
        len <= usize::MAX,
    ensures
        list_step(index, len, Key::Down) == ((index + 1) as usize, ActionResult::Update),
        list_step(list_step(index, len, Key::Down).0, len, Key::Up) == (index, ActionResult::Update),
{
}

/// Moving the cursor up and then down brings it back where it was, where
/// there was an item above it.
pub proof fn law_up_then_down(index: usize, len: nat)
    requires
        0 < index < len,
    ensures
        list_step(index, len, Key::Up) == ((index - 1) as usize, ActionResult::Update),
        list_step(list_step(index, len, Key::Up).0, len, Key::Down) == (index, ActionResult::Update),
{
}

/// Whatever the key, the cursor of a list stays on an item (at 0 where the
/// list is empty), and only Up and Down move it.
pub proof fn law_cursor_stays_in_list(index: usize, len: nat, key: Key)
    requires
        index < len || index == 0,
    ensures
        list_step(index, len, key).0 < len || list_step(index, len, key).0 == 0,
        key != Key::Up && key != Key::Down ==> list_step(index, len, key).0 == index,
{
}

/// A key that closes a view closes every kind of view, so closing the view
/// just opened on top gives back the stack as it was before.
pub proof fn law_close_undoes_open(before: Seq<Screen>, view: Screen, key: Key)
    requires
        closes(key),
    ensures
        !quits(key),
        screen_action(view, key) == ActionResult::PopView,
        before.push(view).drop_last() == before,
        before.push(view).last() == view,
{
    assert(before.push(view).drop_last() =~= before);
}

/// Opening a list's item opens the item under the cursor, wherever the
/// cursor is, with either key that opens.
pub proof fn law_open_selects_cursor(index: usize, len: nat)
    requires
        index < len,
    ensures
        list_step(index, len, Key::Char('o')) == (index, ActionResult::Select(index)),
        list_step(index, len, Key::Char('\n')) == (index, ActionResult::Select(index)),
{
}

/// A view on the stack.
pub enum Screen {
    /// The list of mailboxes.
    Mailboxes(GuiList<MailboxTitle>),
    /// The list of the messages of a mailbox.
    Mails(GuiList<EmailHeader>),
    /// One message.
    Reader(ReadView),
}

/// What `key` makes the view `s` ask for.
pub open spec fn screen_action(s: Screen, key: Key) -> ActionResult {
    match s {
        Screen::Mailboxes(l) => list_step(l.cursor(), l.items().len(), key).1,
        Screen::Mails(l) => list_step(l.cursor(), l.items().len(), key).1,
        Screen::Reader(_) => read_step(key),
    }
}

/// `after` is the view `before` after `key`: the same kind of view over the
/// same items, the cursor of a list moved as `list_step` says.
pub open spec fn screen_after(before: Screen, after: Screen, key: Key) -> bool {
    match before {
        Screen::Mailboxes(a) => match after {
            Screen::Mailboxes(b) => b.items() == a.items() && b.cursor() == list_step(
                a.cursor(),
                a.items().len(),
                key,
            ).0,
            _ => false,
        },
        Screen::Mails(a) => match after {
            Screen::Mails(b) => b.items() == a.items() && b.cursor() == list_step(
                a.cursor(),
                a.items().len(),
                key,
            ).0,
            _ => false,
        },
        Screen::Reader(a) => match after {
            Screen::Reader(b) => b@ == a@,
            _ => false,
        },
    }
}

/// The position of the cursor of the view `s` (0 for a message).
pub open spec fn screen_cursor(s: Screen) -> usize {
    match s {
        Screen::Mailboxes(l) => l.cursor(),
        Screen::Mails(l) => l.cursor(),
        Screen::Reader(_) => 0,
    }
}

/// `key` on the view `s` chooses an item of an empty list, which has none.
pub open spec fn selects_nothing(s: Screen, key: Key) -> bool {
    opens(key) && match s {
        Screen::Mailboxes(l) => l.items().len() == 0,
        Screen::Mails(l) => l.items().len() == 0,
        Screen::Reader(_) => false,
    }
}

/// What the program does next.
pub enum UiStep {
    /// Ends.
    Quit,
    /// Draws the view on top of the stack again.
    Redraw,
    /// Waits for the next key.
    Wait,
    /// Fetches the list of the messages of this mailbox, pushes its view and
    /// draws it.
    OpenMailbox(String),
    /// Fetches the message at this position (counted from 1) of this mailbox,
    /// pushes its view and draws it.
    OpenEmail { mailbox: String, index: usize },
}

/// `step` opens the item at position `i` of the list view `s`.
pub open spec fn opens_item(s: Screen, i: usize, step: UiStep) -> bool {
    match s {
        Screen::Mailboxes(l) => step matches UiStep::OpenMailbox(title) && title@ == l.items()[i as int]@,
        Screen::Mails(l) => step matches UiStep::OpenEmail { mailbox, index } && mailbox@
            == l.items()[i as int]@.mailbox && index == l.items()[i as int]@.index,
        Screen::Reader(_) => false,
    }
}

/// The stack of open views; the one on top is shown and gets the keys.
pub struct ViewStack {
    views: Vec<Screen>,
}

impl ViewStack {
    /// The open views, the one on top last.
    pub closed spec fn views(self) -> Seq<Screen> {
        self.views@
    }

    /// `key` can be handed to the stack: Ctrl-C always; another key where a
    /// view is open and the key does not choose an item of an empty list.
    pub open spec fn accepts(self, key: Key) -> bool {
        quits(key) || (self.views().len() > 0 && !selects_nothing(self.views().last(), key))
    }

    /// The stack that holds only `first`.
    pub fn new(first: Screen) -> (r: Self)
        ensures
            r.views() == seq![first],
    {
        let mut views: Vec<Screen> = Vec::new();
        views.push(first);
        assert(views@ =~= seq![first]);
        ViewStack { views }
    }

    /// Opens `view` on top.
    pub fn push(&mut self, view: Screen)
        ensures
            final(self).views() == old(self).views().push(view),
    {
        self.views.push(view);
    }

    /// The view on top, if any.
    pub fn top(&self) -> (r: Option<&Screen>)
        ensures
            self.views().len() == 0 ==> r is None,
            self.views().len() > 0 ==> r == Some(&self.views().last()),
    {
        let n = self.views.len();
        if n == 0 {
            None
        } else {
            Some(&self.views[n - 1])
        }
    }

    /// Whether `key` can be handed to `handle_key` (see `accepts`).
    pub fn can_handle(&self, key: Key) -> (r: bool)
        ensures
            r == self.accepts(key),
    {
        if let Key::Ctrl('c') = key {
            return true;
        }
        let n = self.views.len();
        if n == 0 {
            return false;
        }
        let opening = match key {
            Key::Char('o') | Key::Char('\n') => true,
            _ => false,
        };
        if !opening {
            return true;
        }
        match &self.views[n - 1] {
            Screen::Mailboxes(l) => l.list().len() > 0,
            Screen::Mails(l) => l.list().len() > 0,
            Screen::Reader(_) => true,
        }
    }

    /// Hands `key` to the view on top and says what to do next. Ctrl-C ends
    /// the program and leaves the stack as it is. Otherwise the view on top
    /// handles the key: a change is drawn, no change waits for the next key,
    /// a chosen item is to be opened, and a closed view comes off the stack,
    /// which ends the program when it was the last.
    pub fn handle_key(&mut self, key: Key) -> (r: UiStep)
        requires
            old(self).accepts(key),
        ensures
            !quits(key) && opens(key) && !(old(self).views().last() is Reader) ==> opens_item(
                old(self).views().last(),
                screen_cursor(old(self).views().last()),
                r,
            ),
            ({
                let before = old(self).views();
                let after = final(self).views();
                if quits(key) {
                    r is Quit && after == before
                } else {
                    let top = before.last();
                    match screen_action(top, key) {
                        ActionResult::PopView => {
                            &&& after == before.drop_last()
                            &&& (if after.len() == 0 { r is Quit } else { r is Redraw })
                        },
                        ActionResult::Update => {
                            &&& r is Redraw
                            &&& after.len() == before.len()
                            &&& after.drop_last() == before.drop_last()
                            &&& screen_after(top, after.last(), key)
                        },
                        ActionResult::NoUpdate => r is Wait && after == before,
                        ActionResult::Select(i) => opens_item(top, i, r) && after == before,
                    }
                }
            }),
    {
        if let Key::Ctrl('c') = key {
            return UiStep::Quit;
        }
        let ghost before = self.views@;
        let top = self.views.pop().unwrap();
        let ghost top_before = top;
        assert(self.views@ == before.drop_last());
        let (action, step) = match top {
            Screen::Mailboxes(mut l) => {
                let a = l.handle_key(key);
                let step = match a {
                    ActionResult::Select(i) => UiStep::OpenMailbox(l.item(i).title().clone()),
                    ActionResult::Update => UiStep::Redraw,
                    _ => UiStep::Wait,
                };
                if a != ActionResult::PopView {
                    self.views.push(Screen::Mailboxes(l));
                }
                (a, step)
            },
            Screen::Mails(mut l) => {
                let a = l.handle_key(key);
                let step = match a {
                    ActionResult::Select(i) => {
                        let h = l.item(i);
                        UiStep::OpenEmail { mailbox: h.mailbox().clone(), index: h.index() }
                    },
                    ActionResult::Update => UiStep::Redraw,
                    _ => UiStep::Wait,
                };
                if a != ActionResult::PopView {
                    self.views.push(Screen::Mails(l));
                }
                (a, step)
            },
            Screen::Reader(mut v) => {
                let a = v.handle_key(key);
                let step = match a {
                    ActionResult::Update => UiStep::Redraw,
                    _ => UiStep::Wait,
                };
                if a != ActionResult::PopView {
                    self.views.push(Screen::Reader(v));
                }
                (a, step)
            },
        };
        proof {
            if action != ActionResult::PopView {
                assert(self.views@ =~= before.drop_last().push(self.views@.last()));
                if action != ActionResult::Update {
                    assert(self.views@.last() == top_before);
                    assert(self.views@ =~= before);
                }
            }
        }
        if action == ActionResult::PopView {
            if self.views.len() == 0 {
                UiStep::Quit
            } else {
                UiStep::Redraw
            }
        } else {
            step
        }
    }

    /// Whether no view is open.
    pub fn is_empty(&self) -> (r: bool)
        ensures
            r == (self.views().len() == 0),
    {
        self.views.len() == 0
    }
}

} // verus!
