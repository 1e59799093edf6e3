use nec::structs::{EmailHeader, MailboxTitle};
use nec::ui::gui_list::GuiList;
use nec::ui::read_view::ReadView;
use nec::ui::{ActionResult, Key, Screen, UiStep, ViewStack};

fn titles(names: &[&str]) -> Vec<MailboxTitle> {
    names.iter().map(|n| MailboxTitle::new(n)).collect()
}

#[test]
fn list_starts_at_the_top() {
    let l = GuiList::new(vec![1, 2, 3]);
    assert_eq!(l.index(), 0);
    assert_eq!(l.list(), &vec![1, 2, 3]);
}

#[test]
fn cursor_moves_within_the_list() {
    let mut l = GuiList::new(vec![1, 2, 3]);
    assert_eq!(l.handle_key(Key::Up), ActionResult::NoUpdate);
    assert_eq!(l.index(), 0);
    assert_eq!(l.handle_key(Key::Down), ActionResult::Update);
    assert_eq!(l.handle_key(Key::Down), ActionResult::Update);
    assert_eq!(l.index(), 2);
    assert_eq!(l.handle_key(Key::Down), ActionResult::NoUpdate);
    assert_eq!(l.index(), 2);
    assert_eq!(l.handle_key(Key::Up), ActionResult::Update);
    assert_eq!(l.index(), 1);
}

#[test]
fn down_then_up_returns() {
    let mut l = GuiList::new(vec!['a', 'b']);
    l.handle_key(Key::Down);
    l.handle_key(Key::Up);
    assert_eq!(l.index(), 0);
}

#[test]
fn select_and_close_keys() {
    let mut l = GuiList::new(vec![10, 20]);
    l.handle_key(Key::Down);
    assert_eq!(l.handle_key(Key::Char('o')), ActionResult::Select(1));
    assert_eq!(l.handle_key(Key::Char('\n')), ActionResult::Select(1));
    assert_eq!(l.handle_key(Key::Char('q')), ActionResult::PopView);
    assert_eq!(l.handle_key(Key::Esc), ActionResult::PopView);
    assert_eq!(l.handle_key(Key::Char('x')), ActionResult::NoUpdate);
    assert_eq!(l.handle_key(Key::Other), ActionResult::NoUpdate);
    assert_eq!(l.index(), 1);
}

#[test]
fn empty_list_does_not_move() {
    let mut l: GuiList<u8> = GuiList::new(vec![]);
    assert_eq!(l.handle_key(Key::Down), ActionResult::NoUpdate);
    assert_eq!(l.handle_key(Key::Up), ActionResult::NoUpdate);
    assert_eq!(l.index(), 0);
}

#[test]
fn visible_rows_and_markers() {
    let l = GuiList::new(vec![1, 2, 3, 4]);
    assert_eq!(l.visible_rows(24), 4);
    assert_eq!(l.visible_rows(7), 2);
    assert_eq!(l.visible_rows(5), 0);
    assert_eq!(l.row_marker(0), "> ");
    assert_eq!(l.row_marker(1), "  ");
}

#[test]
fn read_view_keys() {
    let mut v = ReadView::new("body text");
    assert_eq!(v.content(), "body text");
    assert_eq!(v.handle_key(Key::Char('o')), ActionResult::NoUpdate);
    assert_eq!(v.handle_key(Key::Down), ActionResult::NoUpdate);
    assert_eq!(v.handle_key(Key::Char('q')), ActionResult::PopView);
    assert_eq!(v.handle_key(Key::Esc), ActionResult::PopView);
}

#[test]
fn ctrl_c_quits_at_once() {
    let mut s = ViewStack::new(Screen::Mailboxes(GuiList::new(titles(&["INBOX"]))));
    assert!(matches!(s.handle_key(Key::Ctrl('c')), UiStep::Quit));
    assert!(!s.is_empty());
}

#[test]
fn opening_a_mailbox_and_a_message() {
    let mut s = ViewStack::new(Screen::Mailboxes(GuiList::new(titles(&["INBOX", "Sent"]))));
    assert!(matches!(s.handle_key(Key::Down), UiStep::Redraw));
    match s.handle_key(Key::Char('o')) {
        UiStep::OpenMailbox(name) => assert_eq!(name, "Sent"),
        _ => panic!("expected to open a mailbox"),
    }
    let headers = vec![
        EmailHeader::new("Sent", 1, b"Subject: one\n\n"),
        EmailHeader::new("Sent", 2, b"Subject: two\n\n"),
    ];
    s.push(Screen::Mails(GuiList::new(headers)));
    assert!(matches!(s.handle_key(Key::Down), UiStep::Redraw));
    match s.handle_key(Key::Char('\n')) {
        UiStep::OpenEmail { mailbox, index } => {
            assert_eq!(mailbox, "Sent");
            assert_eq!(index, 2);
        }
        _ => panic!("expected to open a message"),
    }
    s.push(Screen::Reader(ReadView::new("hello")));
    assert!(matches!(s.handle_key(Key::Up), UiStep::Wait));
    assert!(matches!(s.handle_key(Key::Char('q')), UiStep::Redraw));
    assert!(matches!(s.handle_key(Key::Esc), UiStep::Redraw));
    match s.top() {
        Some(Screen::Mailboxes(l)) => assert_eq!(l.index(), 1),
        _ => panic!("expected the mailbox list on top"),
    }
    assert!(matches!(s.handle_key(Key::Char('q')), UiStep::Quit));
    assert!(s.is_empty());
    assert!(s.top().is_none());
}

#[test]
fn accepted_keys() {
    let s = ViewStack::new(Screen::Mailboxes(GuiList::new(vec![])));
    assert!(!s.can_handle(Key::Char('o')));
    assert!(s.can_handle(Key::Down));
    assert!(s.can_handle(Key::Ctrl('c')));
    let mut e = ViewStack::new(Screen::Reader(ReadView::new("")));
    assert!(e.can_handle(Key::Char('o')));
    e.handle_key(Key::Esc);
    assert!(!e.can_handle(Key::Down));
    assert!(e.can_handle(Key::Ctrl('c')));
}

#[test]
fn nothing_changes_on_unbound_keys() {
    let mut s = ViewStack::new(Screen::Mailboxes(GuiList::new(titles(&["A"]))));
    assert!(matches!(s.handle_key(Key::Char('z')), UiStep::Wait));
    assert!(matches!(s.handle_key(Key::Up), UiStep::Wait));
    assert!(matches!(s.handle_key(Key::Down), UiStep::Wait));
}

#[test]
fn ignored_key_leaves_the_stack_as_it_was() {
    let mut s = ViewStack::new(Screen::Mailboxes(GuiList::new(titles(&["A", "B"]))));
    s.handle_key(Key::Down);
    assert!(matches!(s.handle_key(Key::Char('x')), UiStep::Wait));
    match s.top() {
        Some(Screen::Mailboxes(l)) => {
            assert_eq!(l.index(), 1);
            assert_eq!(l.list().len(), 2);
        }
        _ => panic!("expected the mailbox list on top"),
    }
}
