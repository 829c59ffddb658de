//! The interactive session over the deleted-items store, as a state machine.
//!
//! The session holds the last snapshot of the store and decides, from what
//! the user typed or what the store answered, what is to be done next. It
//! does none of it itself: whoever drives the session performs each action
//! and hands back the event that came of it.
//!
//! A search is answered within one step: the session never rests in it, and
//! it never asks for the store.

use vstd::prelude::*;
use crate::catalog::{
    item_views, lemma_matches_are_positions, matches_in, search, DeletedItem, DeletedItemView,
};
use crate::selection::{is_selection, law_number_selects_its_entry, parse_indices, selection};
use crate::text::{
    chars_of, decimal, lowercase, same_text, string_of, trim_bounds, trimmed,
};

verus! {

/// A line of input as the session reads it: trimmed, then in lower case.
pub open spec fn normalized(line: Seq<char>) -> Seq<char> {
    lowercase(trimmed(line))
}

/// Trims a line of input and lowers its case.
pub fn normalize(line: &str) -> (command: String)
    ensures
        command@ == normalized(line@),
{
    let chars = chars_of(line);
    assert(chars@.subrange(0, chars.len() as int) == chars@);
    let (from, to) = trim_bounds(&chars, 0, chars.len());
    let kept = string_of(&chars, from, to);
    kept.as_str().to_lowercase()
}

/// What a line of input asks for.
#[derive(Debug, Clone, PartialEq, Eq)]
pub enum Command {
    /// Take a new snapshot and show it.
    Refresh,
    /// End the session.
    Quit,
    /// Purge the whole store.
    Clear,
    /// Restore the selected items.
    Restore(Vec<usize>),
    /// Purge the selected items.
    Purge(Vec<usize>),
    /// A restore or purge whose selection is empty.
    InvalidSelection,
    /// Look for the text in the names of the snapshot.
    Search(String),
}

/// What a `Command` holds, as plain values.
pub enum CommandView {
    Refresh,
    Quit,
    Clear,
    Restore(Seq<usize>),
    Purge(Seq<usize>),
    InvalidSelection,
    Search(Seq<char>),
}

impl View for Command {
    type V = CommandView;

    open spec fn view(&self) -> CommandView {
        match self {
            Command::Refresh => CommandView::Refresh,
            Command::Quit => CommandView::Quit,
            Command::Clear => CommandView::Clear,
            Command::Restore(indices) => CommandView::Restore(indices@),
            Command::Purge(indices) => CommandView::Purge(indices@),
            Command::InvalidSelection => CommandView::InvalidSelection,
            Command::Search(query) => CommandView::Search(query@),
        }
    }
}

impl CommandView {
    /// The positions in the snapshot that the command names.
    pub open spec fn positions(self) -> Seq<usize> {
        match self {
            CommandView::Restore(chosen) => chosen,
            CommandView::Purge(chosen) => chosen,
            _ => Seq::empty(),
        }
    }
}

/// The words that end the session.
pub open spec fn is_quit_word(command: Seq<char>) -> bool {
    command == "q"@ || command == "x"@ || command == "exit"@ || command == "quit"@
}

/// The command that a normalized line stands for, against a snapshot of
/// `count` items. A line that ends in `r` or `d` restores or purges what the
/// text before that letter selects; any line that is nothing else is a
/// search.
pub open spec fn command_of(command: Seq<char>, count: nat) -> CommandView {
    if command.len() == 0 {
        CommandView::Refresh
    } else if is_quit_word(command) {
        CommandView::Quit
    } else if command == "c"@ {
        CommandView::Clear
    } else if command.last() == 'r' || command.last() == 'd' {
        let chosen = selection(command.drop_last(), count);
        if chosen.len() == 0 {
            CommandView::InvalidSelection
        } else if command.last() == 'r' {
            CommandView::Restore(chosen)
        } else {
            CommandView::Purge(chosen)
        }
    } else {
        CommandView::Search(command)
    }
}

/// Reads a normalized line as a command against a snapshot of `count` items.
pub fn interpret_command(command: &str, count: usize) -> (parsed: Command)
    ensures
        parsed@ == command_of(command@, count as nat),
        is_selection(parsed@.positions(), count as nat),
{
    let chars = chars_of(command);
    let n: usize = chars.len();
    if n == 0 {
        return Command::Refresh;
    }
    if same_text(command, "q") || same_text(command, "x") || same_text(command, "exit")
        || same_text(command, "quit") {
        return Command::Quit;
    }
    if same_text(command, "c") {
        return Command::Clear;
    }
    let last: char = chars[n - 1];
    if last == 'r' || last == 'd' {
        let token = string_of(&chars, 0, n - 1);
        let chosen = parse_indices(token.as_str(), count);
        if chosen.len() == 0 {
            Command::InvalidSelection
        } else if last == 'r' {
            Command::Restore(chosen)
        } else {
            Command::Purge(chosen)
        }
    } else {
        Command::Search(command.to_owned())
    }
}

/// Reads a line of input, as typed, as a command against a snapshot of
/// `count` items.
pub fn parse_command(line: &str, count: usize) -> (parsed: Command)
    ensures
        parsed@ == command_of(normalized(line@), count as nat),
        is_selection(parsed@.positions(), count as nat),
{
    let command = normalize(line);
    interpret_command(command.as_str(), count)
}

/// Where the session stands.
#[derive(Debug, Clone, Copy, PartialEq, Eq, Structural)]
pub enum Phase {
    /// A new snapshot of the store is awaited.
    Listing,
    /// The snapshot is shown; a line of input is awaited.
    AwaitingCommand,
    /// The selected items are being restored.
    Restoring,
    /// The selected items are being purged.
    Purging,
    /// The store is being cleared.
    Clearing,
    /// The session is over.
    Terminated,
}

/// What happened outside the session.
#[derive(Debug, Clone, PartialEq, Eq)]
pub enum Event {
    /// The store was enumerated: its items, in the store's order.
    Snapshot(Vec<DeletedItem>),
    /// The store could not be opened or walked.
    EnumerationFailed,
    /// The user typed a line.
    Line(String),
    /// The store was asked to clear itself and did so, or failed.
    Cleared(bool),
    /// Every selected item was handed to the store, whatever came of each.
    Processed,
}

/// What an `Event` holds, as plain values.
pub enum EventView {
    Snapshot(Seq<DeletedItemView>),
    EnumerationFailed,
    Line(Seq<char>),
    Cleared(bool),
    Processed,
}

impl View for Event {
    type V = EventView;

    open spec fn view(&self) -> EventView {
        match self {
            Event::Snapshot(items) => EventView::Snapshot(item_views(items@)),
            Event::EnumerationFailed => EventView::EnumerationFailed,
            Event::Line(line) => EventView::Line(line@),
            Event::Cleared(done) => EventView::Cleared(*done),
            Event::Processed => EventView::Processed,
        }
    }
}

/// What the session asks to be done.
#[derive(Debug, Clone, PartialEq, Eq)]
pub enum Action {
    /// Enumerate the store and hand in the snapshot.
    Enumerate,
    /// Show the snapshot that the session holds.
    ShowListing,
    /// Purge the whole store in one call and hand in how it went.
    Clear,
    /// Restore the items at these positions of the snapshot, in this order,
    /// reporting each failure and going on with the rest.
    Restore(Vec<usize>),
    /// Purge the items at these positions of the snapshot, in this order,
    /// reporting each failure and going on with the rest.
    Purge(Vec<usize>),
    /// Tell the user that the line selected nothing.
    ReportInvalidSelection,
    /// Tell the user that the store could not be cleared.
    ReportClearFailure,
    /// Tell the user that the store could not be enumerated.
    ReportEnumerationFailure,
    /// Show the items at these positions of the snapshot, each with its
    /// position; tell the user that nothing matched if there are none.
    ShowMatches(Vec<usize>),
    /// Leave.
    Exit,
    /// The event does not belong to the phase: nothing is to be done.
    Ignore,
}

/// What an `Action` holds, as plain values.
pub enum ActionView {
    Enumerate,
    ShowListing,
    Clear,
    Restore(Seq<usize>),
    Purge(Seq<usize>),
    ReportInvalidSelection,
    ReportClearFailure,
    ReportEnumerationFailure,
    ShowMatches(Seq<usize>),
    Exit,
    Ignore,
}

impl ActionView {
    /// The positions in the snapshot that the action is about.
    pub open spec fn positions(self) -> Seq<usize> {
        match self {
            ActionView::Restore(chosen) => chosen,
            ActionView::Purge(chosen) => chosen,
            ActionView::ShowMatches(found) => found,
            _ => Seq::empty(),
        }
    }
}

impl View for Action {
    type V = ActionView;

    open spec fn view(&self) -> ActionView {
        match self {
            Action::Enumerate => ActionView::Enumerate,
            Action::ShowListing => ActionView::ShowListing,
            Action::Clear => ActionView::Clear,
            Action::Restore(indices) => ActionView::Restore(indices@),
            Action::Purge(indices) => ActionView::Purge(indices@),
            Action::ReportInvalidSelection => ActionView::ReportInvalidSelection,
            Action::ReportClearFailure => ActionView::ReportClearFailure,
            Action::ReportEnumerationFailure => ActionView::ReportEnumerationFailure,
            Action::ShowMatches(indices) => ActionView::ShowMatches(indices@),
            Action::Exit => ActionView::Exit,
            Action::Ignore => ActionView::Ignore,
        }
    }
}

/// An interactive session: the snapshot it works on and where it stands.
#[derive(Debug, Clone, PartialEq, Eq)]
pub struct Session {
    /// The store as it was last enumerated. Positions in commands and in
    /// search results are positions in this.
    pub snapshot: Vec<DeletedItem>,
    pub phase: Phase,
    /// Whether the awaited snapshot ends the session if it is empty. It does
    /// at the start and after the store was changed, not after the user
    /// asked for a fresh listing.
    pub ends_when_empty: bool,
}

/// What a `Session` holds, as plain values.
pub struct SessionView {
    pub snapshot: Seq<DeletedItemView>,
    pub phase: Phase,
    pub ends_when_empty: bool,
}

impl View for Session {
    type V = SessionView;

    open spec fn view(&self) -> SessionView {
        SessionView {
            snapshot: item_views(self.snapshot@),
            phase: self.phase,
            ends_when_empty: self.ends_when_empty,
        }
    }
}

impl SessionView {
    /// The session as it starts: it awaits the first snapshot and is over at
    /// once if the store is empty.
    pub open spec fn initial() -> SessionView {
        SessionView { snapshot: Seq::empty(), phase: Phase::Listing, ends_when_empty: true }
    }

    /// The same session in another phase.
    pub open spec fn at(self, phase: Phase) -> SessionView {
        SessionView { phase, ..self }
    }

    /// The session awaiting a new snapshot.
    pub open spec fn relisting(self, ends_when_empty: bool) -> SessionView {
        SessionView { phase: Phase::Listing, ends_when_empty, ..self }
    }

    /// What a new snapshot does to a session that awaits one.
    pub open spec fn on_snapshot(self, items: Seq<DeletedItemView>) -> (SessionView, ActionView) {
        let phase = if items.len() == 0 && self.ends_when_empty {
            Phase::Terminated
        } else {
            Phase::AwaitingCommand
        };
        (SessionView { snapshot: items, phase, ..self }, ActionView::ShowListing)
    }

    /// What a command does to a session that awaits one.
    pub open spec fn on_command(self, command: CommandView) -> (SessionView, ActionView) {
        match command {
            CommandView::Refresh => (self.relisting(false), ActionView::Enumerate),
            CommandView::Quit => (self.at(Phase::Terminated), ActionView::Exit),
            CommandView::Clear => (self.at(Phase::Clearing), ActionView::Clear),
            CommandView::Restore(chosen) => (
                self.at(Phase::Restoring),
                ActionView::Restore(chosen),
            ),
            CommandView::Purge(chosen) => (self.at(Phase::Purging), ActionView::Purge(chosen)),
            CommandView::InvalidSelection => (self, ActionView::ReportInvalidSelection),
            CommandView::Search(query) => (
                self,
                ActionView::ShowMatches(matches_in(self.snapshot, query)),
            ),
        }
    }

    /// The session after an event, and what is to be done then. A failed
    /// enumeration is reported and leaves the snapshot as it was: the user
    /// may ask again. An event that does not belong to the phase changes
    /// nothing; nothing follows the end of the session.
    pub open spec fn step(self, event: EventView) -> (SessionView, ActionView) {
        match (self.phase, event) {
            (Phase::Listing, EventView::Snapshot(items)) => self.on_snapshot(items),
            (Phase::Listing, EventView::EnumerationFailed) => (
                self.at(Phase::AwaitingCommand),
                ActionView::ReportEnumerationFailure,
            ),
            (Phase::AwaitingCommand, EventView::Line(line)) => self.on_command(
                command_of(normalized(line), self.snapshot.len()),
            ),
            (Phase::Clearing, EventView::Cleared(done)) => if done {
                (self.relisting(true), ActionView::Enumerate)
            } else {
                (self.at(Phase::AwaitingCommand), ActionView::ReportClearFailure)
            },
            (Phase::Restoring, EventView::Processed) => (
                self.relisting(true),
                ActionView::Enumerate,
            ),
            (Phase::Purging, EventView::Processed) => (self.relisting(true), ActionView::Enumerate),
            _ => (self, ActionView::Ignore),
        }
    }
}

impl Session {
    /// A session that awaits its first snapshot.
    pub fn new() -> (session: Session)
        ensures
            session@ == SessionView::initial(),
    {
        let session = Session { snapshot: Vec::new(), phase: Phase::Listing, ends_when_empty: true };
        assert(item_views(session.snapshot@) =~= Seq::empty());
        session
    }

    /// Whether the session is over.
    pub fn is_terminated(&self) -> (over: bool)
        ensures
            over == (self@.phase == Phase::Terminated),
    {
        self.phase == Phase::Terminated
    }

    /// Takes a command while one is awaited.
    fn run_command(&mut self, command: Command) -> (action: Action)
        requires
            old(self).phase == Phase::AwaitingCommand,
            is_selection(command@.positions(), old(self).snapshot.len() as nat),
        ensures
            (final(self)@, action@) == old(self)@.on_command(command@),
            is_selection(action@.positions(), old(self).snapshot.len() as nat),
    {
        match command {
            Command::Refresh => {
                self.phase = Phase::Listing;
                self.ends_when_empty = false;
                Action::Enumerate
            },
            Command::Quit => {
                self.phase = Phase::Terminated;
                Action::Exit
            },
            Command::Clear => {
                self.phase = Phase::Clearing;
                Action::Clear
            },
            Command::Restore(chosen) => {
                self.phase = Phase::Restoring;
                Action::Restore(chosen)
            },
            Command::Purge(chosen) => {
                self.phase = Phase::Purging;
                Action::Purge(chosen)
            },
            Command::InvalidSelection => Action::ReportInvalidSelection,
            Command::Search(query) => {
                let found = search(&self.snapshot, query.as_str());
                proof {
                    lemma_matches_are_positions(item_views(self.snapshot@), query@);
                }
                Action::ShowMatches(found)
            },
        }
    }

    /// Takes an event and says what is to be done next.
    pub fn step(&mut self, event: Event) -> (action: Action)
        ensures
            (final(self)@, action@) == old(self)@.step(event@),
            is_selection(action@.positions(), old(self).snapshot.len() as nat),
    {
        match (self.phase, event) {
            (Phase::Listing, Event::Snapshot(items)) => {
                self.phase = if items.len() == 0 && self.ends_when_empty {
                    Phase::Terminated
                } else {
                    Phase::AwaitingCommand
                };
                self.snapshot = items;
                Action::ShowListing
            },
            (Phase::Listing, Event::EnumerationFailed) => {
                self.phase = Phase::AwaitingCommand;
                Action::ReportEnumerationFailure
            },
            (Phase::AwaitingCommand, Event::Line(line)) => {
                let command = parse_command(line.as_str(), self.snapshot.len());
                self.run_command(command)
            },
            (Phase::Clearing, Event::Cleared(done)) => {
                if done {
                    self.phase = Phase::Listing;
                    self.ends_when_empty = true;
                    Action::Enumerate
                } else {
                    self.phase = Phase::AwaitingCommand;
                    Action::ReportClearFailure
                }
            },
            (Phase::Restoring, Event::Processed) => {
                self.phase = Phase::Listing;
                self.ends_when_empty = true;
                Action::Enumerate
            },
            (Phase::Purging, Event::Processed) => {
                self.phase = Phase::Listing;
                self.ends_when_empty = true;
                Action::Enumerate
            },
            _ => Action::Ignore,
        }
    }
}

/// A line that is a number from 1 to the snapshot's length and a `d` purges
/// the item that the number names, and that item alone. When every selected
/// item has been handed to the store, the session asks for a new snapshot
/// and then holds that snapshot.
pub proof fn law_purge_names_one_item(
    session: SessionView,
    line: Seq<char>,
    k: nat,
    after: Seq<DeletedItemView>,
)
    requires
        session.phase == Phase::AwaitingCommand,
        1 <= k <= session.snapshot.len() <= usize::MAX,
        normalized(line) == decimal(k).push('d'),
    ensures
        session.step(EventView::Line(line)) == (
            session.at(Phase::Purging),
            ActionView::Purge(seq![(k - 1) as usize]),
        ),
        session.at(Phase::Purging).step(EventView::Processed) == (
            session.relisting(true),
            ActionView::Enumerate,
        ),
        session.relisting(true).step(EventView::Snapshot(after)).0.snapshot == after,
{
    reveal_strlit("q");
    reveal_strlit("x");
    reveal_strlit("exit");
    reveal_strlit("quit");
    reveal_strlit("c");
    assert(normalized(line).last() == 'd');
    assert(normalized(line).drop_last() =~= decimal(k));
    law_number_selects_its_entry(session.snapshot.len(), k);
}

/// The line `c` clears the store; if the store says that it did, the
/// session asks for a new snapshot, and an empty one ends the session.
pub proof fn law_clear_to_empty_terminates(session: SessionView, line: Seq<char>)
    requires
        session.phase == Phase::AwaitingCommand,
        normalized(line) == "c"@,
    ensures
        session.step(EventView::Line(line)) == (session.at(Phase::Clearing), ActionView::Clear),
        session.at(Phase::Clearing).step(EventView::Cleared(true)) == (
            session.relisting(true),
            ActionView::Enumerate,
        ),
        session.relisting(true).step(EventView::Snapshot(Seq::empty())).0.phase
            == Phase::Terminated,
{
    reveal_strlit("q");
    reveal_strlit("x");
    reveal_strlit("exit");
    reveal_strlit("quit");
    reveal_strlit("c");
    assert(normalized(line).len() == 1 && normalized(line)[0] == 'c');
}

/// A search reports against the snapshot that the session holds and leaves
/// the session as it was: it asks for no enumeration, so a second search
/// reports against the same snapshot, whatever became of the store.
pub proof fn law_search_keeps_snapshot(session: SessionView, first: Seq<char>, second: Seq<char>)
    requires
        session.phase == Phase::AwaitingCommand,
        command_of(normalized(first), session.snapshot.len()) is Search,
        command_of(normalized(second), session.snapshot.len()) is Search,
    ensures
        session.step(EventView::Line(first)) == (
            session,
            ActionView::ShowMatches(matches_in(session.snapshot, normalized(first))),
        ),
        session.step(EventView::Line(first)).0.step(EventView::Line(second)) == (
            session,
            ActionView::ShowMatches(matches_in(session.snapshot, normalized(second))),
        ),
{
}

} // verus!
