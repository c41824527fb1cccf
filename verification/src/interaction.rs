//! The session: what the operator sees and does, as states and transitions.
//!
//! The loop that draws the screen and waits for the next event stands
//! outside. For each event it asks [`Session::step`] what to do: the session
//! changes its state or moves the cursor, and names what is left to do
//! outside, such as writing the configuration.

use vstd::prelude::*;
use crate::error::{Error, ErrorView};
use crate::screen::{
    draw_commit_list, draw_header, draw_manage_commit, draw_menu, header_titles, margin_for,
    menu_item, menu_titles, modal_margin, overlay_of, rows_of, MenuItem, Overlay, OverlayView,
};
use crate::stateful_table::{Move, StatefulTable, StatefulTableView};
use crate::structs::{Commit, Contributor, ContributorView};
use crate::table::{contributor_index, contributors_of};

verus! {

/// What the operator is doing.
#[derive(Copy, Clone, PartialEq, Eq, Debug, Structural)]
pub enum InteractionState {
    /// Looking through the commits.
    Browsing,
    /// Editing the commit at this place of the table, in a form above it.
    EditingCommit(usize),
}

/// A key of the keyboard, as far as the session tells keys apart.
#[derive(Copy, Clone, PartialEq, Eq, Debug, Structural)]
pub enum Key {
    Char(char),
    Esc,
    Enter,
    Up,
    Down,
    PageUp,
    PageDown,
    Other,
}

/// What a key asks for.
#[derive(Copy, Clone, PartialEq, Eq, Debug, Structural)]
pub enum Command {
    /// Leave the program.
    Quit,
    /// Move the cursor.
    Go(Move),
    /// Edit the selected commit.
    Activate,
    /// Leave the form and forget what was entered.
    Cancel,
    /// Take what the form holds.
    Confirm,
}

/// What `key` asks for while the operator is in `state`; nothing if the key
/// means nothing there. Keys that the form takes for its own fields mean
/// nothing to the session.
pub open spec fn command_of(state: InteractionState, key: Key) -> Option<Command> {
    match state {
        InteractionState::Browsing => match key {
            Key::Char(c) => if c == 'q' {
                Some(Command::Quit)
            } else if c == 'a' {
                Some(Command::Activate)
            } else {
                None
            },
            Key::Esc => Some(Command::Quit),
            Key::Down => Some(Command::Go(Move::Next)),
            Key::Up => Some(Command::Go(Move::Previous)),
            Key::PageUp => Some(Command::Go(Move::First)),
            Key::PageDown => Some(Command::Go(Move::Last)),
            _ => None,
        },
        InteractionState::EditingCommit(_) => match key {
            Key::Esc => Some(Command::Cancel),
            Key::Enter => Some(Command::Confirm),
            _ => None,
        },
    }
}

/// What `key` asks for while the operator is in `state`.
pub fn command_for(state: InteractionState, key: Key) -> (command: Option<Command>)
    ensures
        command == command_of(state, key),
{
    match state {
        InteractionState::Browsing => match key {
            Key::Char(c) => if c == 'q' {
                Some(Command::Quit)
            } else if c == 'a' {
                Some(Command::Activate)
            } else {
                None
            },
            Key::Esc => Some(Command::Quit),
            Key::Down => Some(Command::Go(Move::Next)),
            Key::Up => Some(Command::Go(Move::Previous)),
            Key::PageUp => Some(Command::Go(Move::First)),
            Key::PageDown => Some(Command::Go(Move::Last)),
            _ => None,
        },
        InteractionState::EditingCommit(_) => match key {
            Key::Esc => Some(Command::Cancel),
            Key::Enter => Some(Command::Confirm),
            _ => None,
        },
    }
}

/// The author that the operator chose in the form: a name from the list, or a
/// name and an address typed in.
#[derive(Debug)]
pub struct Choice {
    pub name: String,
    pub email: String,
}

impl View for Choice {
    type V = ContributorView;

    open spec fn view(&self) -> ContributorView {
        ContributorView { name: self.name@, email: self.email@ }
    }
}

/// The first of `people` with the name `name`.
pub open spec fn named(people: Seq<ContributorView>, name: Seq<char>) -> Option<ContributorView>
    decreases people.len(),
{
    if people.len() == 0 {
        None
    } else {
        match named(people.drop_last(), name) {
            Some(person) => Some(person),
            None => if people.last().name == name {
                Some(people.last())
            } else {
                None
            },
        }
    }
}

/// The person that `choice` stands for: the first of `people` with the chosen
/// name, or else the name and the address as they were entered.
pub open spec fn resolved(people: Seq<ContributorView>, choice: ContributorView) -> ContributorView {
    match named(people, choice.name) {
        Some(person) => person,
        None => choice,
    }
}

/// Whoever is found by name among the first of `people` is found among all.
proof fn lemma_named_stays(people: Seq<ContributorView>, name: Seq<char>, upto: int)
    requires
        0 <= upto <= people.len(),
        named(people.take(upto), name) is Some,
    ensures
        named(people, name) == named(people.take(upto), name),
    decreases people.len() - upto,
{
    if upto < people.len() {
        assert(people.take(upto + 1).drop_last() =~= people.take(upto));
        lemma_named_stays(people, name, upto + 1);
    } else {
        assert(people.take(upto) =~= people);
    }
}

/// Whom `named` finds is the first of `people` with the name; it finds nobody
/// only if nobody bears the name.
pub proof fn lemma_named_is_first(people: Seq<ContributorView>, name: Seq<char>)
    ensures
        match named(people, name) {
            Some(person) => exists|k: int|
                0 <= k < people.len() && #[trigger] people[k] == person && person.name == name
                    && forall|j: int| 0 <= j < k ==> (#[trigger] people[j]).name != name,
            None => forall|k: int| 0 <= k < people.len() ==> (#[trigger] people[k]).name != name,
        },
    decreases people.len(),
{
    if people.len() > 0 {
        let init = people.drop_last();
        lemma_named_is_first(init, name);
        match named(init, name) {
            Some(person) => {
                let k = choose|k: int|
                    0 <= k < init.len() && #[trigger] init[k] == person && person.name == name
                        && forall|j: int| 0 <= j < k ==> (#[trigger] init[j]).name != name;
                assert(people[k] == person);
                assert forall|j: int| 0 <= j < k implies (#[trigger] people[j]).name != name by {
                    assert(init[j] == people[j]);
                }
            },
            None => {
                assert forall|j: int| 0 <= j < people.len() - 1 implies (
                #[trigger] people[j]).name != name by {
                    assert(init[j] == people[j]);
                }
                if people.last().name == name {
                    assert(people[people.len() - 1] == people.last());
                }
            },
        }
    }
}

/// The person that `choice` stands for among `people`.
pub fn resolve(people: &Vec<Contributor>, choice: &Choice) -> (person: Contributor)
    ensures
        person@ == resolved(people.deep_view(), choice@),
{
    let mut i: usize = 0;
    while i < people.len()
        invariant
            i <= people.len(),
            named(people.deep_view().take(i as int), choice@.name) is None,
        decreases people.len() - i,
    {
        assert(people.deep_view().take(i + 1).drop_last() =~= people.deep_view().take(i as int));
        if people[i].name == choice.name {
            proof {
                lemma_named_stays(people.deep_view(), choice@.name, i + 1);
            }
            return people[i].clone();
        }
        i += 1;
    }
    assert(people.deep_view().take(i as int) =~= people.deep_view());
    Contributor { name: choice.name.clone(), email: choice.email.clone() }
}

/// Something that happened outside and that the session is told of.
#[derive(Debug)]
pub enum Event {
    /// A key was pressed.
    Input(Key),
    /// Time went by and nothing happened.
    Tick,
    /// The operator confirmed the form with this choice.
    Confirm(Choice),
    /// The configuration was written, or could not be.
    Written(Result<(), Error>),
}

/// What an [`Event`] is in contracts.
pub enum EventView {
    Input(Key),
    Tick,
    Confirm(ContributorView),
    Written(Option<ErrorView>),
}

impl View for Event {
    type V = EventView;

    open spec fn view(&self) -> EventView {
        match self {
            Event::Input(key) => EventView::Input(*key),
            Event::Tick => EventView::Tick,
            Event::Confirm(choice) => EventView::Confirm(choice@),
            Event::Written(Ok(_)) => EventView::Written(None),
            Event::Written(Err(error)) => EventView::Written(Some(error@)),
        }
    }
}

/// What is left to do outside after an event.
#[derive(Debug)]
pub enum Action {
    /// Nothing but to draw the screen again.
    Nothing,
    /// End the program.
    Quit,
    /// Take the choice that the form holds and tell the session of it.
    Submit,
    /// Write this person to the configuration, and tell the session how it
    /// went.
    Write(Contributor),
    /// Show this failure to the operator.
    Report(Error),
}

/// What an [`Action`] is in contracts.
pub enum ActionView {
    Nothing,
    Quit,
    Submit,
    Write(ContributorView),
    Report(ErrorView),
}

impl View for Action {
    type V = ActionView;

    open spec fn view(&self) -> ActionView {
        match self {
            Action::Nothing => ActionView::Nothing,
            Action::Quit => ActionView::Quit,
            Action::Submit => ActionView::Submit,
            Action::Write(person) => ActionView::Write(person@),
            Action::Report(error) => ActionView::Report(error@),
        }
    }
}

/// What the terminal is to show: the table with its header and the line of
/// commands, and above them the form, if a commit is edited.
#[derive(Debug)]
pub struct Screen {
    /// The titles of the columns.
    pub header: Vec<String>,
    /// The rows of the table, one for each commit.
    pub rows: Vec<Vec<String>>,
    /// The row that stands out.
    pub selected: Option<usize>,
    /// The line of commands.
    pub menu: Vec<MenuItem>,
    /// The form, while a commit is edited.
    pub overlay: Option<Overlay>,
    /// The margin that the form keeps.
    pub margin: u16,
}

/// What a [`Screen`] is in contracts.
pub struct ScreenView {
    pub header: Seq<Seq<char>>,
    pub rows: Seq<Seq<Seq<char>>>,
    pub selected: Option<int>,
    pub menu: Seq<(Seq<char>, Seq<char>)>,
    pub overlay: Option<OverlayView>,
    pub margin: u16,
}

impl View for Screen {
    type V = ScreenView;

    open spec fn view(&self) -> ScreenView {
        ScreenView {
            header: self.header.deep_view(),
            rows: self.rows.deep_view(),
            selected: match self.selected {
                Some(index) => Some(index as int),
                None => None,
            },
            menu: self.menu.deep_view(),
            overlay: self.overlay.deep_view(),
            margin: self.margin,
        }
    }
}

/// What a [`Session`] is in contracts: the table and the state.
pub struct SessionView {
    pub table: StatefulTableView,
    pub state: InteractionState,
}

impl SessionView {
    /// Whether the table has no more commits than can be counted, the cursor
    /// fits the table, and the commit that is edited is the selected one.
    pub open spec fn consistent(self) -> bool {
        &&& self.table.commits.len() <= usize::MAX
        &&& self.table.fits()
        &&& match self.state {
            InteractionState::Browsing => true,
            InteractionState::EditingCommit(index) => self.table.selected == Some(index as int),
        }
    }

    /// The session after `event`.
    pub open spec fn after(self, event: EventView) -> SessionView {
        match (self.state, event) {
            (InteractionState::Browsing, EventView::Input(key)) => match command_of(
                self.state,
                key,
            ) {
                Some(Command::Go(movement)) => SessionView {
                    table: self.table.moved(movement),
                    state: self.state,
                },
                Some(Command::Activate) => match self.table.selected {
                    Some(index) => SessionView {
                        table: self.table,
                        state: InteractionState::EditingCommit(index as usize),
                    },
                    None => self,
                },
                _ => self,
            },
            (InteractionState::EditingCommit(_), EventView::Input(key)) => match command_of(
                self.state,
                key,
            ) {
                Some(Command::Cancel) => SessionView {
                    table: self.table,
                    state: InteractionState::Browsing,
                },
                _ => self,
            },
            (InteractionState::EditingCommit(_), EventView::Written(None)) => SessionView {
                table: self.table,
                state: InteractionState::Browsing,
            },
            _ => self,
        }
    }

    /// What the terminal is to show, on `width` columns: always the table and
    /// the line of commands; while a commit is edited, the form for that
    /// commit as well.
    pub open spec fn screen(self, width: u16) -> ScreenView {
        ScreenView {
            header: header_titles(),
            rows: rows_of(self.table.commits),
            selected: self.table.selected,
            menu: menu_titles().map_values(|title: Seq<char>| menu_item(title)),
            overlay: match self.state {
                InteractionState::Browsing => None,
                InteractionState::EditingCommit(index) => Some(
                    overlay_of(self.table.commits, index as int),
                ),
            },
            margin: margin_for(width),
        }
    }

    /// What is left to do outside after `event`.
    pub open spec fn action(self, event: EventView) -> ActionView {
        match (self.state, event) {
            (InteractionState::Browsing, EventView::Input(key)) => match command_of(
                self.state,
                key,
            ) {
                Some(Command::Quit) => ActionView::Quit,
                _ => ActionView::Nothing,
            },
            (InteractionState::EditingCommit(_), EventView::Input(key)) => match command_of(
                self.state,
                key,
            ) {
                Some(Command::Confirm) => ActionView::Submit,
                _ => ActionView::Nothing,
            },
            (InteractionState::EditingCommit(_), EventView::Confirm(choice)) => ActionView::Write(
                resolved(contributor_index(self.table.commits), choice),
            ),
            (_, EventView::Written(Some(error))) => ActionView::Report(error),
            _ => ActionView::Nothing,
        }
    }
}

/// The session of one operator: the table of commits and what the operator
/// is doing with it.
pub struct Session {
    table: StatefulTable,
    state: InteractionState,
}

impl View for Session {
    type V = SessionView;

    closed spec fn view(&self) -> SessionView {
        SessionView { table: self.table@, state: self.state }
    }
}

impl Session {
    #[verifier::type_invariant]
    spec fn well_formed(self) -> bool {
        self@.consistent()
    }

    /// What the terminal is to show of this session, on `width` columns.
    pub fn render(&self, width: u16) -> (screen: Screen)
        ensures
            screen@ == self@.screen(width),
    {
        proof {
            use_type_invariant(self);
        }
        let overlay = match self.state {
            InteractionState::Browsing => None,
            InteractionState::EditingCommit(index) => Some(
                draw_manage_commit(index, self.table.commits()),
            ),
        };
        Screen {
            header: draw_header(),
            rows: draw_commit_list(self.table.commits()),
            selected: self.table.selected(),
            menu: draw_menu(),
            overlay,
            margin: modal_margin(width),
        }
    }

    /// A session over `commits`: browsing, the first commit selected.
    pub fn new(commits: Vec<Commit>) -> (session: Session)
        ensures
            session@.state == InteractionState::Browsing,
            session@.table.commits == commits.deep_view(),
            session@.table.selected == (if commits.len() == 0 {
                None
            } else {
                Some(0int)
            }),
            session@.consistent(),
    {
        Session { table: StatefulTable::new(commits), state: InteractionState::Browsing }
    }

    /// What the operator is doing.
    pub fn state(&self) -> (state: InteractionState)
        ensures
            state == self@.state,
            self@.consistent(),
    {
        proof {
            use_type_invariant(self);
        }
        self.state
    }

    /// The table of commits.
    pub fn table(&self) -> (table: &StatefulTable)
        ensures
            table@ == self@.table,
            self@.consistent(),
    {
        proof {
            use_type_invariant(self);
        }
        &self.table
    }

    /// Takes one event: changes the state or moves the cursor as the event
    /// asks, and says what is left to do outside.
    ///
    /// While browsing, the keys move the cursor, open the form on the
    /// selected commit, or end the program; a table without commits opens
    /// no form. In the form, escape goes back to browsing and enter asks for
    /// the choice that the form holds. A confirmed choice is to be written;
    /// the form stays until the writing is reported done, and a failure is to
    /// be shown and leaves the form open. Anything else changes nothing.
    pub fn step(&mut self, event: Event) -> (action: Action)
        ensures
            final(self)@ == old(self)@.after(event@),
            action@ == old(self)@.action(event@),
            final(self)@.consistent(),
    {
        proof {
            use_type_invariant(&*self);
        }
        match event {
            Event::Input(key) => match command_for(self.state, key) {
                Some(Command::Quit) => Action::Quit,
                Some(Command::Go(movement)) => {
                    self.table.go(movement);
                    Action::Nothing
                },
                Some(Command::Activate) => {
                    match self.table.selected() {
                        Some(index) => {
                            self.state = InteractionState::EditingCommit(index);
                        },
                        None => {},
                    }
                    Action::Nothing
                },
                Some(Command::Cancel) => {
                    self.state = InteractionState::Browsing;
                    Action::Nothing
                },
                Some(Command::Confirm) => Action::Submit,
                None => Action::Nothing,
            },
            Event::Tick => Action::Nothing,
            Event::Confirm(choice) => match self.state {
                InteractionState::Browsing => Action::Nothing,
                InteractionState::EditingCommit(_) => {
                    let people = contributors_of(self.table.commits());
                    Action::Write(resolve(&people, &choice))
                },
            },
            Event::Written(Ok(_)) => {
                self.state = InteractionState::Browsing;
                Action::Nothing
            },
            Event::Written(Err(error)) => Action::Report(error),
        }
    }
}

/// Every event leaves a consistent session consistent.
pub proof fn lemma_step_keeps_consistent(session: SessionView, event: EventView)
    requires
        session.consistent(),
    ensures
        session.after(event).consistent(),
{
}

/// While browsing a table without commits, the key that opens the form
/// changes nothing and asks for nothing.
pub proof fn lemma_activate_needs_commits(session: SessionView, key: Key)
    requires
        session.consistent(),
        session.state == InteractionState::Browsing,
        session.table.commits.len() == 0,
        command_of(session.state, key) == Some(Command::Activate),
    ensures
        session.after(EventView::Input(key)) == session,
        session.action(EventView::Input(key)) == ActionView::Nothing,
{
}

/// The key that confirms asks for the choice of the form and changes nothing
/// yet.
pub proof fn lemma_confirm_key_submits(session: SessionView, key: Key)
    requires
        session.state is EditingCommit,
        command_of(session.state, key) == Some(Command::Confirm),
    ensures
        session.after(EventView::Input(key)) == session,
        session.action(EventView::Input(key)) == ActionView::Submit,
{
}

/// Leaving the form leads back to browsing, whichever commit was edited, and
/// leaves the table as it is, the cursor where it was.
pub proof fn lemma_cancel_returns(session: SessionView, key: Key)
    requires
        session.state is EditingCommit,
        command_of(session.state, key) == Some(Command::Cancel),
    ensures
        session.after(EventView::Input(key)).state == InteractionState::Browsing,
        session.after(EventView::Input(key)).table == session.table,
        session.action(EventView::Input(key)) == ActionView::Nothing,
{
}

/// Opening the form on the selected commit and leaving it again leads back
/// to where the session was.
pub proof fn lemma_activate_then_cancel(session: SessionView, open: Key, close: Key)
    requires
        session.consistent(),
        session.state == InteractionState::Browsing,
        command_of(session.state, open) == Some(Command::Activate),
        command_of(session.after(EventView::Input(open)).state, close) == Some(Command::Cancel),
    ensures
        session.table.selected matches Some(index) ==> session.after(
            EventView::Input(open),
        ).state == InteractionState::EditingCommit(index as usize),
        session.after(EventView::Input(open)).after(EventView::Input(close)) == session,
{
}

/// While a commit is edited the cursor stays on it: only leaving the form or
/// the report that the configuration is written ends the editing, and no
/// event moves the cursor.
pub proof fn lemma_editing_holds_cursor(session: SessionView, event: EventView)
    requires
        session.state is EditingCommit,
    ensures
        session.after(event).table == session.table,
        session.after(event).state == session.state || session.after(event).state
            == InteractionState::Browsing,
{
}

/// A confirmed choice is handed out to be written: to the first person of the
/// index with the chosen name, or as it was entered. The form stays open on
/// its commit until the writer has answered.
pub proof fn lemma_confirm_hands_out(session: SessionView, choice: ContributorView)
    requires
        session.state is EditingCommit,
    ensures
        session.after(EventView::Confirm(choice)) == session,
        session.action(EventView::Confirm(choice)) == ActionView::Write(
            resolved(contributor_index(session.table.commits), choice),
        ),
{
}

/// When the writer reports that the configuration is written, the form
/// closes: the session is browsing again, the cursor where it was.
pub proof fn lemma_written_closes_form(session: SessionView)
    requires
        session.state is EditingCommit,
    ensures
        session.after(EventView::Written(None)).state == InteractionState::Browsing,
        session.after(EventView::Written(None)).table == session.table,
        session.action(EventView::Written(None)) == ActionView::Nothing,
{
}

/// A failure of the writer is shown and changes nothing: the form stays open.
pub proof fn lemma_failure_is_reported(session: SessionView, error: ErrorView)
    ensures
        session.after(EventView::Written(Some(error))) == session,
        session.action(EventView::Written(Some(error))) == ActionView::Report(error),
{
}

/// Time going by changes nothing and asks for nothing.
pub proof fn lemma_tick_changes_nothing(session: SessionView)
    ensures
        session.after(EventView::Tick) == session,
        session.action(EventView::Tick) == ActionView::Nothing,
{
}

} // verus!
