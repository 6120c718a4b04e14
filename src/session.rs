use vstd::prelude::*;

use crate::item::Item;
use crate::list::{first_selected, ListView, SelectableList};
use crate::store::{render, render_items, views};

verus! {

/// Relies on String::push: the character is appended at the end.
pub assume_specification[ String::push ](s: &mut String, ch: char)
    ensures
        final(s)@ == old(s)@.push(ch),
;

/// Relies on String::pop: the last character is taken off and returned, `None` when empty.
pub assume_specification[ String::pop ](s: &mut String) -> (r: Option<char>)
    ensures
        old(s)@.len() == 0 ==> r is None && final(s)@ == old(s)@,
        old(s)@.len() > 0 ==> r == Some(old(s)@.last()) && final(s)@ == old(s)@.drop_last(),
;

/// How keys are read: as commands, or as the text of a new item.
#[derive(Debug, Clone, Copy, PartialEq, Eq, Structural)]
pub enum InputMode {
    Normal,
    Insert,
}

/// A key as the session sees it.
#[derive(Debug, Clone, Copy, PartialEq, Eq, Structural)]
pub enum Key {
    Char(char),
    Enter,
    Backspace,
    Esc,
    Other,
}

/// What the caller does after a key.
#[derive(Debug, Clone, Copy, PartialEq, Eq, Structural)]
pub enum Action {
    /// Nothing to write.
    Nothing,
    /// Write the list to the current day's file.
    Save,
    /// Write the list to the current day's file, then stop.
    Quit,
    /// Write the list to the current day's file, then load the day at this offset from
    /// today and hand it to `enter_day`.
    Goto(i64),
    /// The day asked for lies beyond the range of offsets.
    DayOutOfRange,
}

/// A session as a value: the day shown, its list, the mode and the text typed so far.
pub struct SessionView {
    pub day_offset: int,
    pub list: ListView,
    pub mode: InputMode,
    pub pending: Seq<char>,
}

impl SessionView {
    /// The list is well formed and the day is one that an `i64` counts.
    pub open spec fn wf(self) -> bool {
        &&& self.list.wf()
        &&& i64::MIN <= self.day_offset <= i64::MAX
    }

    /// The session with another list.
    pub open spec fn with_list(self, list: ListView) -> SessionView {
        SessionView { list, ..self }
    }

    /// The session in another mode, with another text typed.
    pub open spec fn with_mode(self, mode: InputMode, pending: Seq<char>) -> SessionView {
        SessionView { mode, pending, ..self }
    }

    /// The move to the day at `offset`, or out of range.
    pub open spec fn goto(offset: int) -> Action {
        if i64::MIN <= offset <= i64::MAX {
            Action::Goto(offset as i64)
        } else {
            Action::DayOutOfRange
        }
    }

    /// The session after a key, and what the caller is to do.
    pub open spec fn step(self, key: Key) -> (SessionView, Action) {
        match self.mode {
            InputMode::Normal => match key {
                Key::Char('q') => (self, Action::Quit),
                Key::Char('t') => (self, Action::Goto(0)),
                Key::Char('h') => (self, Self::goto(self.day_offset - 1)),
                Key::Char('l') => (self, Self::goto(self.day_offset + 1)),
                Key::Char('j') => (self.with_list(self.list.next()), Action::Nothing),
                Key::Char('k') => (self.with_list(self.list.prev()), Action::Nothing),
                Key::Char('x') => (self.with_list(self.list.toggled()), Action::Save),
                Key::Char('a') => (self.with_mode(InputMode::Insert, seq![]), Action::Nothing),
                Key::Char('d') => (self.with_list(self.list.removed()), Action::Save),
                _ => (self, Action::Nothing),
            },
            InputMode::Insert => match key {
                Key::Enter => (
                    self.with_list(self.list.pushed((self.pending, false))).with_mode(
                        InputMode::Normal,
                        seq![],
                    ),
                    Action::Save,
                ),
                Key::Char(c) => (self.with_mode(InputMode::Insert, self.pending.push(c)), Action::Nothing),
                Key::Backspace => (
                    self.with_mode(
                        InputMode::Insert,
                        if self.pending.len() == 0 {
                            self.pending
                        } else {
                            self.pending.drop_last()
                        },
                    ),
                    Action::Nothing,
                ),
                Key::Esc => (self.with_mode(InputMode::Normal, seq![]), Action::Nothing),
                Key::Other => (self, Action::Nothing),
            },
        }
    }
}

/// One run of the checklist: the day shown, counted from today, its list, and the input mode.
#[derive(Debug)]
pub struct Session {
    day_offset: i64,
    list: SelectableList,
    mode: InputMode,
    pending: String,
}

impl View for Session {
    type V = SessionView;

    closed spec fn view(&self) -> SessionView {
        SessionView {
            day_offset: self.day_offset as int,
            list: self.list@,
            mode: self.mode,
            pending: self.pending@,
        }
    }
}

impl Session {
    /// A session on today's list, reading commands.
    pub fn new(items: Vec<Item>) -> (r: Session)
        ensures
            r@.wf(),
            r@.day_offset == 0,
            r@.list.items == views(items@),
            r@.list.selected == first_selected(items@.len()),
            r@.mode == InputMode::Normal,
            r@.pending == Seq::<char>::empty(),
    {
        Session { day_offset: 0, list: SelectableList::new(items), mode: InputMode::Normal, pending: String::new() }
    }

    /// The day shown, in days from today.
    pub fn day_offset(&self) -> (r: i64)
        ensures
            r == self@.day_offset,
    {
        self.day_offset
    }

    /// The list of the day shown.
    pub fn list(&self) -> (r: &SelectableList)
        ensures
            r@ == self@.list,
    {
        &self.list
    }

    /// How keys are read now.
    pub fn mode(&self) -> (r: InputMode)
        ensures
            r == self@.mode,
    {
        self.mode
    }

    /// The text of the new item typed so far.
    pub fn pending_text(&self) -> (r: &str)
        ensures
            r@ == self@.pending,
    {
        self.pending.as_str()
    }

    /// The text to write to the current day's file.
    pub fn contents(&self) -> (r: String)
        ensures
            r@ == render(self@.list.items),
    {
        render_items(self.list.items())
    }

    /// Binds the session to the day at `offset`, with the items loaded from its file; the
    /// cursor goes to the first item.
    pub fn enter_day(&mut self, offset: i64, items: Vec<Item>)
        requires
            old(self)@.wf(),
        ensures
            final(self)@.wf(),
            final(self)@.day_offset == offset,
            final(self)@.list.items == views(items@),
            final(self)@.list.selected == first_selected(items@.len()),
            final(self)@.mode == old(self)@.mode,
            final(self)@.pending == old(self)@.pending,
    {
        self.day_offset = offset;
        self.list = SelectableList::new(items);
    }

    /// Handles one key: changes the session as the mode says, and tells the caller what to
    /// write or load.
    pub fn handle_key(&mut self, key: Key) -> (r: Action)
        requires
            old(self)@.wf(),
        ensures
            final(self)@.wf(),
            (final(self)@, r) == old(self)@.step(key),
    {
        match self.mode {
            InputMode::Normal => match key {
                Key::Char('q') => Action::Quit,
                Key::Char('t') => Action::Goto(0),
                Key::Char('h') => match self.day_offset.checked_sub(1) {
                    Some(d) => Action::Goto(d),
                    None => Action::DayOutOfRange,
                },
                Key::Char('l') => match self.day_offset.checked_add(1) {
                    Some(d) => Action::Goto(d),
                    None => Action::DayOutOfRange,
                },
                Key::Char('j') => {
                    self.list.next();
                    Action::Nothing
                },
                Key::Char('k') => {
                    self.list.prev();
                    Action::Nothing
                },
                Key::Char('x') => {
                    self.list.toggle_selected();
                    Action::Save
                },
                Key::Char('a') => {
                    self.mode = InputMode::Insert;
                    self.pending = String::new();
                    Action::Nothing
                },
                Key::Char('d') => {
                    self.list.remove_selected();
                    Action::Save
                },
                _ => Action::Nothing,
            },
            InputMode::Insert => match key {
                Key::Enter => {
                    let text = self.pending.clone();
                    self.list.push(Item::new(text));
                    self.pending = String::new();
                    self.mode = InputMode::Normal;
                    Action::Save
                },
                Key::Char(c) => {
                    self.pending.push(c);
                    Action::Nothing
                },
                Key::Backspace => {
                    self.pending.pop();
                    Action::Nothing
                },
                Key::Esc => {
                    self.pending = String::new();
                    self.mode = InputMode::Normal;
                    Action::Nothing
                },
                Key::Other => Action::Nothing,
            },
        }
    }
}

/// Asking for the day before, with commands read, leaves the session as it is, edits
/// included, and asks the caller to write that list to the file of the day still shown
/// before it loads the day before: nothing of the current day is lost on the way.
pub proof fn lemma_day_change_flushes_first(s: SessionView)
    requires
        s.wf(),
        s.mode == InputMode::Normal,
        s.day_offset > i64::MIN,
    ensures
        s.step(Key::Char('h')).0 == s,
        s.step(Key::Char('h')).1 == Action::Goto((s.day_offset - 1) as i64),
        render(s.step(Key::Char('h')).0.list.items) == render(s.list.items),
{
}

} // verus!
