//! The interactive view: what it shows, and what each key does to it.
//!
//! Handling a key never touches a file or the network. It changes the
//! selection and tells the caller what is left to do; the caller draws, reads
//! and writes.

use vstd::prelude::*;
use crate::config::Config;
use crate::error::TriageError;
use crate::events::{Event, EventState};
use crate::message::Message;
use crate::selection::{index_down, index_up, SelectionCursor};
use crate::target_list::{list, stored_list};

verus! {

/// A key as the view tells them apart.
#[derive(Clone, Copy, Debug, PartialEq, Eq, Structural)]
pub enum Key {
    /// A character key.
    Char(char),
    /// The arrow down.
    Down,
    /// The arrow up.
    Up,
    /// Any other key.
    Other,
}

/// What the caller has to do after a key was handled.
#[derive(Debug, PartialEq, Eq)]
pub enum Action {
    /// Nothing but to draw again.
    Nothing,
    /// Add the address to the stored list of marked senders.
    Mark(String),
    /// Report that marking as read is complete. No message is changed.
    Execute,
}

/// An `Action` as a plain value.
pub enum ActionView {
    Nothing,
    Mark(Seq<char>),
    Execute,
}

impl View for Action {
    type V = ActionView;

    open spec fn view(&self) -> ActionView {
        match self {
            Action::Nothing => ActionView::Nothing,
            Action::Mark(address) => ActionView::Mark(address@),
            Action::Execute => ActionView::Execute,
        }
    }
}

/// The outcome of handling one key.
#[derive(Debug, PartialEq, Eq)]
pub struct Step {
    /// Whether the loop goes on.
    pub state: EventState,
    /// What the caller has to do.
    pub action: Action,
}

/// Whether the loop goes on after `key`: only the quit key ends it.
pub open spec fn state_after(key: Key) -> EventState {
    if key == Key::Char('q') {
        EventState::NotConsumed
    } else {
        EventState::Consumed
    }
}

/// Where a cursor stands after `key`: the arrows move it, no other key does.
pub open spec fn index_after(key: Key, index: nat, length: nat) -> nat {
    match key {
        Key::Down => index_down(index, length),
        Key::Up => index_up(index, length),
        _ => index,
    }
}

/// What `key` asks of the caller when `selected` is the highlighted address:
/// the mark key marks the highlighted address, if there is one; the execute
/// key reports completion; the delete key and every other key ask nothing.
pub open spec fn action_for(key: Key, selected: Option<Seq<char>>) -> ActionView {
    match key {
        Key::Char(c) => if c == 'a' {
            match selected {
                Some(address) => ActionView::Mark(address),
                None => ActionView::Nothing,
            }
        } else if c == 'e' {
            ActionView::Execute
        } else {
            ActionView::Nothing
        },
        _ => ActionView::Nothing,
    }
}

/// The cursors of the two lists that move together: that of the addresses
/// and that of the counts.
#[derive(Clone, Copy, Debug, PartialEq, Eq)]
pub struct ListStates {
    from: SelectionCursor,
    count: SelectionCursor,
}

impl ListStates {
    /// The cursor of the list of addresses.
    pub closed spec fn from(&self) -> SelectionCursor {
        self.from
    }

    /// The cursor of the list of counts.
    pub closed spec fn count(&self) -> SelectionCursor {
        self.count
    }

    /// The pair of the two cursors.
    pub fn new(from: SelectionCursor, count: SelectionCursor) -> (states: Self)
        ensures
            states.from() == from,
            states.count() == count,
    {
        Self { from, count }
    }

    /// The cursor of the list of addresses.
    pub fn from_cursor(&self) -> (cursor: SelectionCursor)
        ensures
            cursor == self.from(),
    {
        self.from
    }

    /// The cursor of the list of counts.
    pub fn count_cursor(&self) -> (cursor: SelectionCursor)
        ensures
            cursor == self.count(),
    {
        self.count
    }

    /// Moves both cursors down, each within its own list.
    pub fn move_down(&mut self)
        ensures
            final(self).from().length() == old(self).from().length(),
            final(self).count().length() == old(self).count().length(),
            final(self).from().index() == index_down(
                old(self).from().index(),
                old(self).from().length(),
            ),
            final(self).count().index() == index_down(
                old(self).count().index(),
                old(self).count().length(),
            ),
    {
        self.from.move_down();
        self.count.move_down();
    }

    /// Moves both cursors up, each within its own list.
    pub fn move_up(&mut self)
        ensures
            final(self).from().length() == old(self).from().length(),
            final(self).count().length() == old(self).count().length(),
            final(self).from().index() == index_up(
                old(self).from().index(),
                old(self).from().length(),
            ),
            final(self).count().index() == index_up(
                old(self).count().index(),
                old(self).count().length(),
            ),
    {
        self.from.move_up();
        self.count.move_up();
    }
}

/// One entry of the menu line: the letter of its key, and the rest of its
/// name.
#[derive(Clone, Copy, Debug, PartialEq, Eq)]
pub struct MenuItem {
    pub key: &'static str,
    pub rest: &'static str,
}

/// One of the lists on the screen.
#[derive(Debug, PartialEq, Eq)]
pub struct Pane<T> {
    pub title: &'static str,
    /// The share of the screen's width that the list takes, in percent.
    pub width: u16,
    pub rows: Vec<T>,
    /// The highlighted row, for a list that has a cursor and rows.
    pub selected: Option<usize>,
}

/// All that one drawing pass shows: the menu line on top, and below it the
/// three lists side by side.
#[derive(Debug, PartialEq, Eq)]
pub struct Screen<'a> {
    pub menu_title: &'static str,
    /// The height of the menu line with its border, in rows.
    pub menu_height: u16,
    pub menu: Vec<MenuItem>,
    pub from: Pane<&'a str>,
    pub count: Pane<&'a str>,
    pub target: Pane<String>,
}

/// The entries of the menu line.
pub open spec fn menu_entries() -> Seq<(Seq<char>, Seq<char>)> {
    seq![("A"@, "dd"@), ("D"@, "elete"@), ("E"@, "xecute"@), ("Q"@, "uit"@)]
}

/// The entries of a menu as plain values.
pub open spec fn menu_view(menu: Seq<MenuItem>) -> Seq<(Seq<char>, Seq<char>)> {
    Seq::new(menu.len(), |i: int| (menu[i].key@, menu[i].rest@))
}

/// The menu line.
pub fn menu() -> (items: Vec<MenuItem>)
    ensures
        menu_view(items@) == menu_entries(),
{
    let mut items: Vec<MenuItem> = Vec::new();
    items.push(MenuItem { key: "A", rest: "dd" });
    items.push(MenuItem { key: "D", rest: "elete" });
    items.push(MenuItem { key: "E", rest: "xecute" });
    items.push(MenuItem { key: "Q", rest: "uit" });
    items
}

/// The interactive view of one run: the senders and their counts, and the
/// cursors over them.
#[derive(Debug)]
pub struct App<'a> {
    config: &'a Config<'a>,
    message_list: &'a Vec<Message>,
    list_state: ListStates,
    address_list: &'a Vec<&'a str>,
    count_list: &'a Vec<&'a str>,
}

impl<'a> App<'a> {
    #[verifier::type_invariant]
    spec fn cursors_fit(&self) -> bool {
        &&& self.list_state.from().length() == self.address_list@.len()
        &&& self.list_state.count().length() == self.count_list@.len()
    }

    /// The cursors.
    pub closed spec fn list_state(&self) -> ListStates {
        self.list_state
    }

    /// The addresses on display.
    pub closed spec fn addresses(&self) -> Seq<Seq<char>> {
        self.address_list.deep_view()
    }

    /// The counts on display.
    pub closed spec fn counts(&self) -> Seq<Seq<char>> {
        self.count_list.deep_view()
    }

    /// The configuration of the run.
    pub closed spec fn config(&self) -> &'a Config<'a> {
        self.config
    }

    /// The messages of the run.
    pub closed spec fn messages(&self) -> &'a Vec<Message> {
        self.message_list
    }

    /// Each cursor ranges over its list.
    pub open spec fn fits(&self) -> bool {
        &&& self.list_state().from().length() == self.addresses().len()
        &&& self.list_state().count().length() == self.counts().len()
    }

    /// The highlighted address, if the list of addresses has rows.
    pub open spec fn selected_address(&self) -> Option<Seq<char>> {
        match self.list_state().from().selection() {
            Some(i) => Some(self.addresses()[i as int]),
            None => None,
        }
    }

    /// The view of a run, with both cursors on the first row.
    pub fn new(
        config: &'a Config<'a>,
        message_list: &'a Vec<Message>,
        address_list: &'a Vec<&'a str>,
        count_list: &'a Vec<&'a str>,
    ) -> (app: Self)
        ensures
            app.config() == config,
            app.messages() == message_list,
            app.addresses() == address_list.deep_view(),
            app.counts() == count_list.deep_view(),
            app.list_state().from().length() == address_list@.len(),
            app.list_state().from().index() == 0,
            app.list_state().count().length() == count_list@.len(),
            app.list_state().count().index() == 0,
            app.fits(),
    {
        let from_list_state = SelectionCursor::new(address_list.len());
        let count_list_state = SelectionCursor::new(count_list.len());
        let list_state = ListStates::new(from_list_state, count_list_state);
        Self { config, message_list, list_state, address_list, count_list }
    }

    /// The path of the file that keeps the list of marked senders.
    pub fn mark_list_path(&self) -> (path: &'a str)
        ensures
            path@ == self.config().mark_list_path@,
    {
        self.config.mark_list_path
    }

    /// The cursors.
    pub fn cursors(&self) -> (states: ListStates)
        ensures
            states == self.list_state(),
            self.fits(),
    {
        proof {
            use_type_invariant(self);
        }
        self.list_state
    }

    /// What one drawing pass shows: the menu, the addresses and the counts
    /// with their cursors, and the marked senders as `mark_list`, the content
    /// of their file, holds them.
    ///
    /// Fails with `ParseDBError` exactly where that content is neither empty
    /// nor a JSON array of strings.
    pub fn draw(&self, mark_list: &str) -> (r: Result<Screen<'a>, TriageError>)
        ensures
            match r {
                Ok(screen) => {
                    &&& screen.menu_title@ == "Menu"@
                    &&& screen.menu_height == 3
                    &&& menu_view(screen.menu@) == menu_entries()
                    &&& screen.from.width == 47
                    &&& screen.count.width == 6
                    &&& screen.target.width == 47
                    &&& screen.from.title@ == "From"@
                    &&& screen.from.rows.deep_view() == self.addresses()
                    &&& screen.from.selected is Some <==> self.addresses().len() > 0
                    &&& screen.from.selected is Some ==> screen.from.selected->0
                        == self.list_state().from().index()
                    &&& screen.count.title@ == "Count"@
                    &&& screen.count.rows.deep_view() == self.counts()
                    &&& screen.count.selected is Some <==> self.counts().len() > 0
                    &&& screen.count.selected is Some ==> screen.count.selected->0
                        == self.list_state().count().index()
                    &&& screen.target.title@ == "Target"@
                    &&& stored_list(mark_list@) == Some(screen.target.rows.deep_view())
                    &&& screen.target.selected is None
                },
                Err(e) => stored_list(mark_list@) is None && e == TriageError::ParseDBError,
            },
    {
        proof {
            use_type_invariant(self);
        }
        let marked = match list(mark_list) {
            Ok(marked) => marked,
            Err(e) => {
                return Err(e);
            },
        };
        let from = Pane {
            title: "From",
            width: 47,
            rows: copied(self.address_list),
            selected: self.list_state.from_cursor().selected(),
        };
        let count = Pane {
            title: "Count",
            width: 6,
            rows: copied(self.count_list),
            selected: self.list_state.count_cursor().selected(),
        };
        let target = Pane { title: "Target", width: 47, rows: marked, selected: None };
        Ok(Screen { menu_title: "Menu", menu_height: 3, menu: menu(), from, count, target })
    }

    /// Handles one key.
    ///
    /// The quit key ends the loop, and nothing else does. The arrows move both
    /// cursors, each wrapping around in its own list. The mark key asks the
    /// caller to add the highlighted address to the marked senders, the
    /// execute key to report completion. The delete key and all other keys
    /// change nothing and ask nothing.
    pub fn event(&mut self, key: Key) -> (step: Step)
        ensures
            final(self).config() == old(self).config(),
            final(self).messages() == old(self).messages(),
            final(self).addresses() == old(self).addresses(),
            final(self).counts() == old(self).counts(),
            final(self).fits(),
            final(self).list_state().from().length() == old(self).list_state().from().length(),
            final(self).list_state().count().length() == old(self).list_state().count().length(),
            final(self).list_state().from().index() == index_after(
                key,
                old(self).list_state().from().index(),
                old(self).list_state().from().length(),
            ),
            final(self).list_state().count().index() == index_after(
                key,
                old(self).list_state().count().index(),
                old(self).list_state().count().length(),
            ),
            step.state == state_after(key),
            step.action@ == action_for(key, old(self).selected_address()),
    {
        proof {
            use_type_invariant(&*self);
        }
        match key {
            Key::Char(c) => {
                if c == 'q' {
                    Step { state: EventState::NotConsumed, action: Action::Nothing }
                } else if c == 'a' {
                    match self.list_state.from_cursor().selected() {
                        Some(selected) => {
                            let address = self.address_list[selected].to_owned();
                            Step { state: EventState::Consumed, action: Action::Mark(address) }
                        },
                        None => Step { state: EventState::Consumed, action: Action::Nothing },
                    }
                } else if c == 'e' {
                    Step { state: EventState::Consumed, action: Action::Execute }
                } else {
                    Step { state: EventState::Consumed, action: Action::Nothing }
                }
            },
            Key::Down => {
                let mut moved = self.list_state;
                moved.move_down();
                self.list_state = moved;
                Step { state: EventState::Consumed, action: Action::Nothing }
            },
            Key::Up => {
                let mut moved = self.list_state;
                moved.move_up();
                self.list_state = moved;
                Step { state: EventState::Consumed, action: Action::Nothing }
            },
            Key::Other => Step { state: EventState::Consumed, action: Action::Nothing },
        }
    }
}

impl<'a> App<'a> {
    /// Handles one event of the queue: a tick changes nothing and asks
    /// nothing, so that the caller only draws again; a key is handled as
    /// `event` says.
    pub fn dispatch(&mut self, event: Event<Key>) -> (step: Step)
        ensures
            final(self).config() == old(self).config(),
            final(self).messages() == old(self).messages(),
            final(self).addresses() == old(self).addresses(),
            final(self).counts() == old(self).counts(),
            final(self).fits(),
            match event {
                Event::Tick => {
                    &&& final(self).list_state() == old(self).list_state()
                    &&& step.state == EventState::Consumed
                    &&& step.action@ == ActionView::Nothing
                },
                Event::Input(key) => {
                    &&& final(self).list_state().from().length() == old(self).list_state().from().length()
                    &&& final(self).list_state().count().length() == old(self).list_state().count().length()
                    &&& final(self).list_state().from().index() == index_after(
                        key,
                        old(self).list_state().from().index(),
                        old(self).list_state().from().length(),
                    )
                    &&& final(self).list_state().count().index() == index_after(
                        key,
                        old(self).list_state().count().index(),
                        old(self).list_state().count().length(),
                    )
                    &&& step.state == state_after(key)
                    &&& step.action@ == action_for(key, old(self).selected_address())
                },
            },
    {
        match event {
            Event::Tick => {
                proof {
                    use_type_invariant(&*self);
                }
                Step { state: EventState::Consumed, action: Action::Nothing }
            },
            Event::Input(key) => self.event(key),
        }
    }
}

/// Copies a list of borrowed texts.
fn copied<'a>(texts: &Vec<&'a str>) -> (out: Vec<&'a str>)
    ensures
        out.deep_view() == texts.deep_view(),
{
    let mut out: Vec<&'a str> = Vec::new();
    let mut i: usize = 0;
    while i < texts.len()
        invariant
            i <= texts.len(),
            out@.len() == i,
            forall|j: int| 0 <= j < i ==> (#[trigger] out@[j])@ == texts@[j]@,
        decreases texts.len() - i,
    {
        out.push(texts[i]);
        i = i + 1;
    }
    out
}

} // verus!
