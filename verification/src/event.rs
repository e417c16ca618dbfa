//! The keys and what they do: how the focused window reads an event by its
//! mode, and how the editor takes in what it waits for.

use crate::change::Change;
use crate::command::{returned, shell_words};
use crate::edot::{Attempt, Edot, EdotView, Error, ErrorView, Mode, Reaction};
use crate::location::{outcome, Movement, MovementError};
use vstd::prelude::*;

verus! {

/// A key of the keyboard, as far as the editor tells keys apart.
#[derive(Debug, Copy, Clone, PartialEq, Eq, Structural)]
pub enum Key {
    Char(char),
    Backspace,
    Esc,
    Left,
    Right,
    Up,
    Down,
    Other,
}

/// What the terminal reports: a key press, or something that the editor
/// does not react to.
#[derive(Debug, Copy, Clone, PartialEq, Eq, Structural)]
pub enum Event {
    Key(Key),
    Other,
}

/// What the editor waits for: an event of the terminal, the news that the
/// terminal has changed its size, or its own request to end.
#[derive(Debug, Copy, Clone, PartialEq, Eq, Structural)]
pub enum Incoming {
    Input(Event),
    Resize,
    Exit,
}

/// An editor after it has taken in what it waited for, and whether it goes
/// on.
pub struct Turn {
    pub editor: EdotView,
    pub goes_on: bool,
}

/// The failure of a movement as an error of the editor.
pub open spec fn as_error(failure: Option<MovementError>) -> Option<ErrorView> {
    match failure {
        Some(e) => Some(ErrorView::Movement(e)),
        None => None,
    }
}

/// Turns the failure of a movement into an error of the editor.
fn lift(result: Result<(), MovementError>) -> (lifted: Result<(), Error>)
    ensures
        result is Ok ==> lifted is Ok,
        result is Err ==> lifted is Err && lifted->Err_0@ == ErrorView::Movement(result->Err_0),
{
    match result {
        Ok(()) => Ok(()),
        Err(e) => Err(Error::Movement(e)),
    }
}

/// A step of the cursor that leaves the anchor free to follow.
pub open spec fn walk(movement: Movement) -> Change {
    Change::Move { movement, drag: false }
}

/// A step of the cursor that holds the anchor.
pub open spec fn stretch(movement: Movement) -> Change {
    Change::Move { movement, drag: true }
}

/// The change that a key makes to every selection in normal mode.
pub open spec fn normal_change(event: Event) -> Option<Change> {
    match event {
        Event::Key(Key::Char('i')) | Event::Key(Key::Char('a')) => Some(Change::Order),
        Event::Key(Key::Char('c')) | Event::Key(Key::Char('d')) => Some(Change::Delete),
        Event::Key(Key::Char('A')) => Some(walk(Movement::LineEnd)),
        Event::Key(Key::Char('o')) => Some(Change::OpenLine),
        Event::Key(Key::Char('h')) | Event::Key(Key::Left) => Some(walk(Movement::Left)),
        Event::Key(Key::Char('j')) | Event::Key(Key::Down) => Some(walk(Movement::Down)),
        Event::Key(Key::Char('k')) | Event::Key(Key::Up) => Some(walk(Movement::Up)),
        Event::Key(Key::Char('l')) | Event::Key(Key::Right) => Some(walk(Movement::Right)),
        Event::Key(Key::Char('H')) => Some(stretch(Movement::Left)),
        Event::Key(Key::Char('J')) => Some(stretch(Movement::Down)),
        Event::Key(Key::Char('K')) => Some(stretch(Movement::Up)),
        Event::Key(Key::Char('L')) => Some(stretch(Movement::Right)),
        _ => None,
    }
}

/// The mode that a key leads to from normal mode, once its change has been
/// made; `None` for a key that stays in normal mode.
pub open spec fn normal_mode(event: Event) -> Option<Mode> {
    match event {
        Event::Key(Key::Char('i')) | Event::Key(Key::Char('c')) | Event::Key(Key::Char('A'))
        | Event::Key(Key::Char('o')) => Some(Mode::Insert),
        Event::Key(Key::Char('a')) => Some(Mode::Append),
        Event::Key(Key::Char('g')) => Some(Mode::Goto { drag: false }),
        Event::Key(Key::Char('G')) => Some(Mode::Goto { drag: true }),
        Event::Key(Key::Char(':')) => Some(Mode::Command),
        _ => None,
    }
}

/// Where a key takes the cursors in goto mode.
pub open spec fn goto_movement(event: Event) -> Option<Movement> {
    match event {
        Event::Key(Key::Char('h')) => Some(Movement::LineStart),
        Event::Key(Key::Char('j')) => Some(Movement::FileEnd),
        Event::Key(Key::Char('k')) => Some(Movement::FileStart),
        Event::Key(Key::Char('l')) => Some(Movement::LineEnd),
        _ => None,
    }
}

impl EdotView {
    /// A change made to the selections of the focused window. A movement
    /// is tried on every selection, whether it fails on one or not; any
    /// other change stops at the first selection on which it fails. `None`
    /// changes nothing.
    pub open spec fn swept(self, change: Option<Change>) -> Attempt {
        match change {
            Some(Change::Move { movement, drag }) => self.insist_all(
                self.focused,
                Change::Move { movement, drag },
            ),
            Some(Change::Shift { movement }) => self.insist_all(
                self.focused,
                Change::Shift { movement },
            ),
            Some(change) => self.attempt_all(self.focused, change),
            None => Attempt { editor: self, failure: None },
        }
    }

    /// The editor after a key in normal mode: the key's change is made to
    /// the selections, and the key's mode is entered unless the change
    /// failed.
    pub open spec fn react_normal(self, event: Event) -> Reaction {
        let swept = self.swept(normal_change(event));
        if swept.failure is Some {
            Reaction { editor: swept.editor, error: as_error(swept.failure) }
        } else {
            Reaction {
                editor: match normal_mode(event) {
                    Some(mode) => swept.editor.with_mode(self.focused, mode),
                    None => swept.editor,
                },
                error: None,
            }
        }
    }

    /// The editor after a key in goto mode: the cursors go where the key
    /// says, with the anchors held if `drag` is set, and the window is in
    /// normal mode again, whatever the key was and whether the cursors
    /// could go there or not.
    pub open spec fn react_goto(self, event: Event, drag: bool) -> Reaction {
        let swept = self.swept(
            match goto_movement(event) {
                Some(movement) => Some(Change::Move { movement, drag }),
                None => None,
            },
        );
        Reaction {
            editor: swept.editor.with_mode(self.focused, Mode::Normal),
            error: as_error(swept.failure),
        }
    }

    /// The editor after a key in insert mode, or in append mode if
    /// `append` is set. Escape leads back to normal mode. A character is
    /// typed at every selection: in front of it in insert mode, behind it
    /// in append mode. Backspace takes every selection one step to the
    /// left and then removes what the selections hold.
    pub open spec fn react_typing(self, event: Event, append: bool) -> Reaction {
        match event {
            Event::Key(Key::Esc) => Reaction {
                editor: self.with_mode(self.focused, Mode::Normal),
                error: None,
            },
            Event::Key(Key::Char(c)) => {
                let swept = self.swept(
                    Some(
                        if append {
                            Change::TypeAfter { c }
                        } else {
                            Change::TypeBefore { c }
                        },
                    ),
                );
                Reaction { editor: swept.editor, error: as_error(swept.failure) }
            },
            Event::Key(Key::Backspace) => {
                let left = self.swept(Some(walk(Movement::Left)));
                if left.failure is Some {
                    Reaction { editor: left.editor, error: as_error(left.failure) }
                } else {
                    let deleted = left.editor.swept(Some(Change::Delete));
                    Reaction { editor: deleted.editor, error: as_error(deleted.failure) }
                }
            },
            _ => Reaction { editor: self, error: None },
        }
    }

    /// The editor after a key in command mode. Escape empties the command
    /// line and leads back to normal mode. A tabulator does nothing. A line
    /// feed empties the command line, leads back to normal mode, and
    /// carries out what the line held, which fails where the line cannot be
    /// divided into words. Another character goes to the end of the line.
    /// Backspace takes the last character off the line, and leads back to
    /// normal mode where the line is empty.
    pub open spec fn react_command(self, event: Event) -> Reaction {
        let line = self.windows[self.focused].command;
        match event {
            Event::Key(Key::Esc) => Reaction {
                editor: self.with_command(self.focused, Seq::empty()).with_mode(
                    self.focused,
                    Mode::Normal,
                ),
                error: None,
            },
            Event::Key(Key::Char('\t')) => Reaction { editor: self, error: None },
            Event::Key(Key::Char('\n')) => {
                let cleared = self.with_command(self.focused, Seq::empty()).with_mode(
                    self.focused,
                    Mode::Normal,
                );
                match shell_words(line) {
                    Some(words) => cleared.commanded(words),
                    None => Reaction { editor: cleared, error: Some(ErrorView::Unparsed(line)) },
                }
            },
            Event::Key(Key::Char(c)) => Reaction {
                editor: self.with_command(self.focused, line.push(c)),
                error: None,
            },
            Event::Key(Key::Backspace) => {
                if line.len() == 0 {
                    Reaction { editor: self.with_mode(self.focused, Mode::Normal), error: None }
                } else {
                    Reaction {
                        editor: self.with_command(self.focused, line.drop_last()),
                        error: None,
                    }
                }
            },
            _ => Reaction { editor: self, error: None },
        }
    }

    /// The editor after an event, which the focused window reads by its
    /// mode.
    pub open spec fn react(self, event: Event) -> Reaction {
        match self.windows[self.focused].mode {
            Mode::Normal => self.react_normal(event),
            Mode::Goto { drag } => self.react_goto(event, drag),
            Mode::Insert => self.react_typing(event, false),
            Mode::Append => self.react_typing(event, true),
            Mode::Command => self.react_command(event),
        }
    }

    /// The editor after it has taken in what it waited for. An event of the
    /// terminal is reacted to, and an error of that becomes the message to
    /// show. A change of the terminal's size changes nothing in the editor,
    /// which is drawn anew. The request to end is the only thing after
    /// which the editor does not go on.
    pub open spec fn turned(self, incoming: Incoming) -> Turn {
        match incoming {
            Incoming::Input(event) => Turn {
                editor: match self.react(event).error {
                    Some(error) => self.react(event).editor.reported(error),
                    None => self.react(event).editor,
                },
                goes_on: true,
            },
            Incoming::Resize => Turn { editor: self, goes_on: true },
            Incoming::Exit => Turn { editor: self, goes_on: false },
        }
    }
}

/// The change that a key makes to every selection in normal mode.
pub fn normal_change_of(event: Event) -> (change: Option<Change>)
    ensures
        change == normal_change(event),
{
    match event {
        Event::Key(Key::Char('i')) | Event::Key(Key::Char('a')) => Some(Change::Order),
        Event::Key(Key::Char('c')) | Event::Key(Key::Char('d')) => Some(Change::Delete),
        Event::Key(Key::Char('A')) => Some(
            Change::Move { movement: Movement::LineEnd, drag: false },
        ),
        Event::Key(Key::Char('o')) => Some(Change::OpenLine),
        Event::Key(Key::Char('h')) | Event::Key(Key::Left) => Some(
            Change::Move { movement: Movement::Left, drag: false },
        ),
        Event::Key(Key::Char('j')) | Event::Key(Key::Down) => Some(
            Change::Move { movement: Movement::Down, drag: false },
        ),
        Event::Key(Key::Char('k')) | Event::Key(Key::Up) => Some(
            Change::Move { movement: Movement::Up, drag: false },
        ),
        Event::Key(Key::Char('l')) | Event::Key(Key::Right) => Some(
            Change::Move { movement: Movement::Right, drag: false },
        ),
        Event::Key(Key::Char('H')) => Some(Change::Move { movement: Movement::Left, drag: true }),
        Event::Key(Key::Char('J')) => Some(Change::Move { movement: Movement::Down, drag: true }),
        Event::Key(Key::Char('K')) => Some(Change::Move { movement: Movement::Up, drag: true }),
        Event::Key(Key::Char('L')) => Some(Change::Move { movement: Movement::Right, drag: true }),
        _ => None,
    }
}

/// The mode that a key leads to from normal mode.
pub fn normal_mode_of(event: Event) -> (mode: Option<Mode>)
    ensures
        mode == normal_mode(event),
{
    match event {
        Event::Key(Key::Char('i')) | Event::Key(Key::Char('c')) | Event::Key(Key::Char('A'))
        | Event::Key(Key::Char('o')) => Some(Mode::Insert),
        Event::Key(Key::Char('a')) => Some(Mode::Append),
        Event::Key(Key::Char('g')) => Some(Mode::Goto { drag: false }),
        Event::Key(Key::Char('G')) => Some(Mode::Goto { drag: true }),
        Event::Key(Key::Char(':')) => Some(Mode::Command),
        _ => None,
    }
}

/// Where a key takes the cursors in goto mode.
pub fn goto_movement_of(event: Event) -> (movement: Option<Movement>)
    ensures
        movement == goto_movement(event),
{
    match event {
        Event::Key(Key::Char('h')) => Some(Movement::LineStart),
        Event::Key(Key::Char('j')) => Some(Movement::FileEnd),
        Event::Key(Key::Char('k')) => Some(Movement::FileStart),
        Event::Key(Key::Char('l')) => Some(Movement::LineEnd),
        _ => None,
    }
}

impl Edot {
    /// Takes in an event of the terminal, as `EdotView::react` says. An
    /// error leaves the changes that were made before it.
    pub fn event(&mut self, event: Event) -> (result: Result<(), Error>)
        requires
            old(self).wf(),
        ensures
            final(self).wf(),
            final(self)@ == old(self)@.react(event).editor,
            returned(result, old(self)@.react(event).error),
    {
        match self.window(self.focused()).mode() {
            Mode::Normal => self.event_normal(event),
            Mode::Goto { drag } => self.event_goto(event, drag),
            Mode::Insert => self.event_typing(event, false),
            Mode::Append => self.event_typing(event, true),
            Mode::Command => self.event_command(event),
        }
    }

    /// Makes a change to the selections of the focused window. A movement
    /// is tried on every selection; any other change stops at the first
    /// selection on which it fails.
    fn sweep(&mut self, change: Change) -> (result: Result<(), MovementError>)
        requires
            old(self).wf(),
        ensures
            final(self).wf(),
            final(self)@.same_shape(old(self)@),
            final(self)@ == old(self)@.swept(Some(change)).editor,
            result == outcome(old(self)@.swept(Some(change)).failure),
    {
        match change {
            Change::Move { movement, drag } => self.move_selections(self.focused(), movement, drag),
            Change::Shift { movement } => self.shift_selections(self.focused(), movement),
            _ => self.change_selections(self.focused(), change),
        }
    }

    /// Takes in an event in normal mode.
    fn event_normal(&mut self, event: Event) -> (result: Result<(), Error>)
        requires
            old(self).wf(),
        ensures
            final(self).wf(),
            final(self)@ == old(self)@.react_normal(event).editor,
            returned(result, old(self)@.react_normal(event).error),
    {
        if let Some(change) = normal_change_of(event) {
            lift(self.sweep(change))?;
        }
        if let Some(mode) = normal_mode_of(event) {
            self.set_mode(self.focused(), mode);
        }
        Ok(())
    }

    /// Takes in an event in goto mode.
    fn event_goto(&mut self, event: Event, drag: bool) -> (result: Result<(), Error>)
        requires
            old(self).wf(),
        ensures
            final(self).wf(),
            final(self)@ == old(self)@.react_goto(event, drag).editor,
            returned(result, old(self)@.react_goto(event, drag).error),
    {
        let moved = match goto_movement_of(event) {
            Some(movement) => self.move_selections(self.focused(), movement, drag),
            None => Ok(()),
        };
        self.set_mode(self.focused(), Mode::Normal);
        lift(moved)
    }

    /// Takes in an event in insert mode, or in append mode if `append` is
    /// set.
    fn event_typing(&mut self, event: Event, append: bool) -> (result: Result<(), Error>)
        requires
            old(self).wf(),
        ensures
            final(self).wf(),
            final(self)@ == old(self)@.react_typing(event, append).editor,
            returned(result, old(self)@.react_typing(event, append).error),
    {
        match event {
            Event::Key(Key::Esc) => {
                self.set_mode(self.focused(), Mode::Normal);
            },
            Event::Key(Key::Char(c)) => {
                if append {
                    lift(self.sweep(Change::TypeAfter { c }))?;
                } else {
                    lift(self.sweep(Change::TypeBefore { c }))?;
                }
            },
            Event::Key(Key::Backspace) => {
                lift(self.move_selections(self.focused(), Movement::Left, false))?;
                lift(self.delete_selections(self.focused()))?;
            },
            _ => {},
        }
        Ok(())
    }

    /// Takes in an event in command mode.
    fn event_command(&mut self, event: Event) -> (result: Result<(), Error>)
        requires
            old(self).wf(),
        ensures
            final(self).wf(),
            final(self)@ == old(self)@.react_command(event).editor,
            returned(result, old(self)@.react_command(event).error),
    {
        match event {
            Event::Key(Key::Esc) => {
                self.clear_command();
                self.set_mode(self.focused(), Mode::Normal);
            },
            Event::Key(Key::Char('\t')) => {},
            Event::Key(Key::Char('\n')) => {
                let command = self.take_command();
                self.set_mode(self.focused(), Mode::Normal);
                let words = match shlex::split(command.as_str()) {
                    Some(words) => words,
                    None => {
                        return Err(Error::Unparsed(command));
                    },
                };
                return self.cmd(&words);
            },
            Event::Key(Key::Char(c)) => {
                self.push_command(c);
            },
            Event::Key(Key::Backspace) => {
                if self.pop_command().is_none() {
                    self.set_mode(self.focused(), Mode::Normal);
                }
            },
            _ => {},
        }
        Ok(())
    }

    /// Takes in what the editor waited for, as `EdotView::turned` says, and
    /// returns whether the editor goes on.
    pub fn main(&mut self, incoming: Incoming) -> (goes_on: bool)
        requires
            old(self).wf(),
        ensures
            final(self).wf(),
            final(self)@ == old(self)@.turned(incoming).editor,
            goes_on == old(self)@.turned(incoming).goes_on,
    {
        match incoming {
            Incoming::Input(event) => {
                if let Err(error) = self.event(event) {
                    self.report(&error);
                }
                true
            },
            Incoming::Resize => true,
            Incoming::Exit => false,
        }
    }
}

} // verus!
