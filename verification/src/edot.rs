//! The editor: buffers, windows with their selections and modes, the
//! changes that a key press makes to them, and what the editor asks of its
//! surroundings.
//!
//! The editor reads no terminal and no file. Its surroundings hand it the
//! events of the terminal and the files that it asks for, and draw what it
//! says is to be shown.

use crate::change::{changed, first_failure, lemma_stepped_apart, stepped, Change};
use crate::command::{lookup, returned, run_handler, texts, Command, CommandDesc, Context};
use crate::location::{
    outcome, Column, Line, Movement, MovementError, Place, Position, Selection, Span,
};
use crate::text::rope_text;
use core::convert::Infallible;
use ropey::Rope;
use std::collections::VecDeque;
use std::path::PathBuf;
use vstd::prelude::*;

verus! {

/// `std::path::PathBuf`, the path of a file; the editor only keeps it.
#[verifier::external_type_specification]
#[verifier::external_body]
pub struct ExPathBuf(PathBuf);

/// `String::push` appends `ch` to the string.
pub assume_specification[ String::push ](s: &mut String, ch: char)
    ensures
        final(s)@ == old(s)@.push(ch),
;

/// `String::pop` takes the last character off the string and returns it,
/// or returns `None` for an empty string, which stays empty.
pub assume_specification[ String::pop ](s: &mut String) -> (last: Option<char>)
    ensures
        old(s)@.len() == 0 ==> last is None && final(s)@ == old(s)@,
        old(s)@.len() > 0 ==> last == Some(old(s)@.last()) && final(s)@ == old(s)@.drop_last(),
;

/// `String::clear` leaves the string empty.
pub assume_specification[ String::clear ](s: &mut String)
    ensures
        final(s)@ == Seq::<char>::empty(),
;

/// The place of a window among the windows of an editor.
#[derive(Debug, Copy, Clone, PartialEq, Eq, Structural)]
pub struct WindowId(pub usize);

/// The place of a buffer among the buffers of an editor.
#[derive(Debug, Copy, Clone, PartialEq, Eq, Structural)]
pub struct BufferId(pub usize);

/// The place of a selection among the selections of a window.
#[derive(Debug, Copy, Clone, PartialEq, Eq, Structural)]
pub struct SelectionId(pub usize);

impl WindowId {
    /// The number of the window, counted from zero.
    pub fn id(self) -> (index: usize)
        ensures
            index == self.0,
    {
        self.0
    }
}

impl BufferId {
    /// The number of the buffer, counted from zero.
    pub fn id(self) -> (index: usize)
        ensures
            index == self.0,
    {
        self.0
    }
}

impl SelectionId {
    /// The number of the selection, counted from zero.
    pub fn id(self) -> (index: usize)
        ensures
            index == self.0,
    {
        self.0
    }
}

/// A record of a change to a buffer, kept for undoing it. No kind of record
/// exists yet, so no value of this type can be made.
#[derive(Debug, Copy, Clone)]
pub enum Modification {
    Reserved(Infallible),
}

/// How a window reads the keys.
#[derive(Debug, Copy, Clone, PartialEq, Eq, Structural)]
pub enum Mode {
    Normal,
    Insert,
    Append,
    Goto { drag: bool },
    Command,
}

/// How much a message matters.
#[derive(Debug, Copy, Clone, PartialEq, Eq, Structural)]
pub enum Importance {
    Error,
}

/// What a `Buffer` stands for.
pub struct BufferView {
    pub path: Option<PathBuf>,
    pub name: Seq<char>,
    pub text: Seq<char>,
    pub history: Seq<Modification>,
}

/// A text that is being edited, with the name it is shown under and the
/// file it came from, if any.
pub struct Buffer {
    path: Option<PathBuf>,
    name: String,
    content: Rope,
    history: VecDeque<Modification>,
}

impl View for Buffer {
    type V = BufferView;

    closed spec fn view(&self) -> BufferView {
        BufferView {
            path: self.path,
            name: self.name@,
            text: rope_text(self.content),
            history: self.history@,
        }
    }
}

impl Buffer {
    /// A buffer with the given content and an empty history.
    pub fn new(path: Option<PathBuf>, name: String, content: Rope) -> (buffer: Buffer)
        ensures
            buffer@ == (BufferView {
                path,
                name: name@,
                text: rope_text(content),
                history: Seq::empty(),
            }),
    {
        Buffer { path, name, content, history: VecDeque::new() }
    }

    /// The file that the buffer came from, if any.
    pub fn path(&self) -> (path: &Option<PathBuf>)
        ensures
            *path == self@.path,
    {
        &self.path
    }

    /// The name that the buffer is shown under.
    pub fn name(&self) -> (name: &String)
        ensures
            name@ == self@.name,
    {
        &self.name
    }

    /// The text of the buffer.
    pub fn content(&self) -> (content: &Rope)
        ensures
            rope_text(*content) == self@.text,
    {
        &self.content
    }
}

/// What a `Window` stands for.
pub struct WindowView {
    pub buffer: int,
    pub mode: Mode,
    pub selections: Seq<Span>,
    pub command: Seq<char>,
    pub top: int,
}

/// A view of a buffer: its mode, its selections, the command line being
/// typed and the first line shown.
pub struct Window {
    buffer: BufferId,
    mode: Mode,
    selections: Vec<Selection>,
    command: String,
    top: Line,
}

/// What each selection of `selections` stands for.
pub open spec fn spans(selections: Seq<Selection>) -> Seq<Span> {
    selections.map_values(|selection: Selection| selection@)
}

impl View for Window {
    type V = WindowView;

    closed spec fn view(&self) -> WindowView {
        WindowView {
            buffer: self.buffer.0 as int,
            mode: self.mode,
            selections: spans(self.selections@),
            command: self.command@,
            top: self.top@,
        }
    }
}

impl WindowView {
    /// The window of a buffer that has just been opened: in normal mode,
    /// with one selection on the first character, an empty command line,
    /// and shown from the first line.
    pub open spec fn fresh(buffer: int) -> WindowView {
        WindowView {
            buffer,
            mode: Mode::Normal,
            selections: seq![
                Span { start: Place { line: 1, column: 1 }, end: Place { line: 1, column: 1 } },
            ],
            command: Seq::empty(),
            top: 1,
        }
    }
}

impl Window {
    /// A window on the buffer `buffer`, as `WindowView::fresh` describes it.
    pub fn new(buffer: BufferId) -> (window: Window)
        ensures
            window@ == WindowView::fresh(buffer.0 as int),
    {
        let first = Position { line: Line::from_one_based(1), column: Column::from_one_based(1) };
        let mut selections = Vec::new();
        selections.push(Selection { start: first, end: first });
        let window = Window {
            buffer,
            mode: Mode::Normal,
            selections,
            command: String::new(),
            top: Line::from_one_based(1),
        };
        assert(window@.selections =~= WindowView::fresh(buffer.0 as int).selections);
        window
    }

    /// The buffer that the window shows.
    pub fn buffer(&self) -> (buffer: BufferId)
        ensures
            buffer.0 == self@.buffer,
    {
        self.buffer
    }

    /// The mode that the window is in.
    pub fn mode(&self) -> (mode: Mode)
        ensures
            mode == self@.mode,
    {
        self.mode
    }

    /// The selections of the window, in their order.
    pub fn selections(&self) -> (selections: &Vec<Selection>)
        ensures
            spans(selections@) == self@.selections,
    {
        &self.selections
    }

    /// The command line as far as it has been typed.
    pub fn command(&self) -> (command: &String)
        ensures
            command@ == self@.command,
    {
        &self.command
    }

    /// The first line that the window shows.
    pub fn top(&self) -> (top: Line)
        ensures
            top@ == self@.top,
    {
        self.top
    }
}

/// What an `Error` stands for.
pub enum ErrorView {
    Movement(MovementError),
    Unparsed(Seq<char>),
    NoCommand,
    UnknownCommand(Seq<char>),
    TooFewArguments,
}

/// Why a key press or a command could not be carried out.
#[derive(Debug)]
pub enum Error {
    /// A selection could not move.
    Movement(MovementError),
    /// The command line could not be divided into words.
    Unparsed(String),
    /// The command line held no word.
    NoCommand,
    /// No command has the name.
    UnknownCommand(String),
    /// The command needs an argument that the line did not give.
    TooFewArguments,
}

impl View for Error {
    type V = ErrorView;

    open spec fn view(&self) -> ErrorView {
        match *self {
            Error::Movement(e) => ErrorView::Movement(e),
            Error::Unparsed(line) => ErrorView::Unparsed(line@),
            Error::NoCommand => ErrorView::NoCommand,
            Error::UnknownCommand(name) => ErrorView::UnknownCommand(name@),
            Error::TooFewArguments => ErrorView::TooFewArguments,
        }
    }
}

impl ErrorView {
    /// The words in which the error is shown to the user.
    pub open spec fn message(self) -> Seq<char> {
        match self {
            ErrorView::Movement(MovementError::SelectionEmpty) => "selection is empty"@,
            ErrorView::Movement(MovementError::NoPrevLine) => "no previous line"@,
            ErrorView::Movement(MovementError::NoNextLine) => "no next line"@,
            ErrorView::Unparsed(line) => "failed to parse command '"@ + line + "'"@,
            ErrorView::NoCommand => "no command given"@,
            ErrorView::UnknownCommand(name) => "command '"@ + name + "' doesn't exist"@,
            ErrorView::TooFewArguments => "too few arguments"@,
        }
    }
}

impl Error {
    /// The words in which the error is shown to the user.
    pub fn message(&self) -> (words: String)
        ensures
            words@ == self@.message(),
    {
        match self {
            Error::Movement(e) => String::from_str(e.message()),
            Error::Unparsed(line) => {
                let mut words = String::from_str("failed to parse command '");
                words.append(line.as_str());
                words.append("'");
                words
            },
            Error::NoCommand => String::from_str("no command given"),
            Error::UnknownCommand(name) => {
                let mut words = String::from_str("command '");
                words.append(name.as_str());
                words.append("' doesn't exist");
                words
            },
            Error::TooFewArguments => String::from_str("too few arguments"),
        }
    }
}

/// A command under the name by which the command line calls it.
struct Registered {
    name: String,
    command: CommandDesc,
}

/// What an `Edot` stands for.
pub struct EdotView {
    pub windows: Seq<WindowView>,
    pub buffers: Seq<BufferView>,
    pub commands: Seq<(Seq<char>, CommandDesc)>,
    pub focused: int,
    pub tabline_dirty: bool,
    pub editor_dirty: bool,
    pub statusline_dirty: bool,
    pub message: Option<(Importance, Seq<char>)>,
    pub exit_requested: bool,
    pub open_requested: Option<Seq<char>>,
}

/// An editor after a change to its selections, and why the change failed,
/// if it did.
pub struct Attempt {
    pub editor: EdotView,
    pub failure: Option<MovementError>,
}

/// An editor after an event or a command, and the error that it ended
/// with, if any.
pub struct Reaction {
    pub editor: EdotView,
    pub error: Option<ErrorView>,
}

/// What the status line shows.
#[derive(Debug)]
pub enum Status {
    /// A message to the user.
    Message(String),
    /// The mode of the focused window, and its command line in command
    /// mode.
    Mode { mode: Mode, command: Option<String> },
}

/// What a `Status` stands for.
pub enum StatusView {
    Message(Seq<char>),
    Mode { mode: Mode, command: Option<Seq<char>> },
}

impl View for Status {
    type V = StatusView;

    open spec fn view(&self) -> StatusView {
        match *self {
            Status::Message(words) => StatusView::Message(words@),
            Status::Mode { mode, command } => StatusView::Mode {
                mode,
                command: match command {
                    Some(line) => Some(line@),
                    None => None,
                },
            },
        }
    }
}

impl EdotView {
    /// The focused window is one of the windows, every window shows one of
    /// the buffers, and every window has at least one selection.
    pub open spec fn wf(self) -> bool {
        &&& 0 <= self.focused < self.windows.len()
        &&& forall|w: int|
            0 <= w < self.windows.len() ==> {
                &&& 0 <= (#[trigger] self.windows[w]).buffer < self.buffers.len()
                &&& self.windows[w].selections.len() >= 1
            }
    }

    /// Whether `w` and `s` name a selection of a window of the editor.
    pub open spec fn has_selection(self, w: int, s: int) -> bool {
        0 <= w < self.windows.len() && 0 <= s < self.windows[w].selections.len()
    }

    /// The text of the buffer that window `w` shows.
    pub open spec fn text_of(self, w: int) -> Seq<char> {
        self.buffers[self.windows[w].buffer].text
    }

    /// The editor with the text of the buffer of window `w` and selection
    /// `s` of that window replaced.
    pub open spec fn with(self, w: int, s: int, text: Seq<char>, span: Span) -> EdotView {
        let window = self.windows[w];
        let buffer = self.buffers[window.buffer];
        EdotView {
            windows: self.windows.update(
                w,
                WindowView { selections: window.selections.update(s, span), ..window },
            ),
            buffers: self.buffers.update(window.buffer, BufferView { text, ..buffer }),
            ..self
        }
    }

    /// The editor with window `w` in the mode `mode`.
    pub open spec fn with_mode(self, w: int, mode: Mode) -> EdotView {
        EdotView { windows: self.windows.update(w, WindowView { mode, ..self.windows[w] }), ..self }
    }

    /// The editor with the command line of window `w` replaced.
    pub open spec fn with_command(self, w: int, command: Seq<char>) -> EdotView {
        EdotView {
            windows: self.windows.update(w, WindowView { command, ..self.windows[w] }),
            ..self
        }
    }

    /// The editor with the selections of window `w` replaced.
    pub open spec fn with_spans(self, w: int, selections: Seq<Span>) -> EdotView {
        EdotView {
            windows: self.windows.update(w, WindowView { selections, ..self.windows[w] }),
            ..self
        }
    }

    /// The editor with every selection of window `w` changed by itself, by
    /// a change of one step, and the text left as it is.
    pub open spec fn each_stepped(self, w: int, change: Change) -> EdotView {
        self.with_spans(
            w,
            self.windows[w].selections.map_values(
                |span: Span| stepped(self.text_of(w), span, change).span,
            ),
        )
    }

    /// Whether `other` has the same windows with the same numbers of
    /// selections on the same buffers, and the same focus.
    pub open spec fn same_shape(self, other: EdotView) -> bool {
        &&& self.windows.len() == other.windows.len()
        &&& self.buffers.len() == other.buffers.len()
        &&& self.focused == other.focused
        &&& forall|w: int|
            0 <= w < self.windows.len() ==> {
                &&& (#[trigger] self.windows[w]).buffer == other.windows[w].buffer
                &&& self.windows[w].selections.len() == other.windows[w].selections.len()
            }
    }

    /// The editor after a change to selection `s` of window `w` and to the
    /// text under it: see `changed`.
    pub open spec fn attempt(self, w: int, s: int, change: Change) -> Attempt {
        let after = changed(self.text_of(w), self.windows[w].selections[s], change);
        Attempt { editor: self.with(w, s, after.text, after.span), failure: after.failure }
    }

    /// The change made to the selections of window `w` from number `from`
    /// up to, but without, number `count`, one after the other; the first
    /// selection on which it fails is the last one changed.
    pub open spec fn attempt_from(self, w: int, change: Change, from: int, count: int) -> Attempt
        decreases count - from,
    {
        if from >= count {
            Attempt { editor: self, failure: None }
        } else if self.attempt(w, from, change).failure is Some {
            self.attempt(w, from, change)
        } else {
            self.attempt(w, from, change).editor.attempt_from(w, change, from + 1, count)
        }
    }

    /// The change made to every selection of window `w` in turn, up to the
    /// first on which it fails.
    pub open spec fn attempt_all(self, w: int, change: Change) -> Attempt {
        self.attempt_from(w, change, 0, self.windows[w].selections.len() as int)
    }

    /// The change made to the selections of window `w` from number `from`
    /// up to, but without, number `count`, whether it fails on one or not;
    /// the failure is `first` where that is one, and else that of the first
    /// selection on which the change failed.
    pub open spec fn insist_from(
        self,
        w: int,
        change: Change,
        from: int,
        count: int,
        first: Option<MovementError>,
    ) -> Attempt
        decreases count - from,
    {
        if from >= count {
            Attempt { editor: self, failure: first }
        } else {
            self.attempt(w, from, change).editor.insist_from(
                w,
                change,
                from + 1,
                count,
                if first is Some {
                    first
                } else {
                    self.attempt(w, from, change).failure
                },
            )
        }
    }

    /// The change made to every selection of window `w` in turn, also
    /// behind one on which it fails; the failure is that of the first
    /// selection on which it failed.
    pub open spec fn insist_all(self, w: int, change: Change) -> Attempt {
        self.insist_from(w, change, 0, self.windows[w].selections.len() as int, None)
    }

    /// The editor with the words of `error` as the message to show.
    pub open spec fn reported(self, error: ErrorView) -> EdotView {
        EdotView { message: Some((Importance::Error, error.message())), ..self }
    }

    /// The editor with the file `name` open: a new buffer with the text,
    /// and a new window on it that has the focus.
    pub open spec fn opened(self, name: Seq<char>, path: PathBuf, text: Seq<char>) -> EdotView {
        EdotView {
            buffers: self.buffers.push(
                BufferView { path: Some(path), name, text, history: Seq::empty() },
            ),
            windows: self.windows.push(WindowView::fresh(self.buffers.len() as int)),
            focused: self.windows.len() as int,
            ..self
        }
    }

    /// What the status line shows: the message, where one waits to be
    /// shown, and else the mode of the focused window, with its command
    /// line in command mode.
    pub open spec fn status(self) -> StatusView {
        match self.message {
            Some((_, words)) => StatusView::Message(words),
            None => StatusView::Mode {
                mode: self.windows[self.focused].mode,
                command: if self.windows[self.focused].mode == Mode::Command {
                    Some(self.windows[self.focused].command)
                } else {
                    None
                },
            },
        }
    }

    /// The names that the tab line shows: for each window, that of its
    /// buffer.
    pub open spec fn tabs(self) -> Seq<Seq<char>> {
        Seq::new(self.windows.len(), |w: int| self.buffers[self.windows[w].buffer].name)
    }
}

/// The state of the editor: its buffers and windows, the window that has
/// the focus, the commands of the command line, what is to be drawn anew,
/// the message to show, and what the editor asks of its surroundings.
pub struct Edot {
    windows: Vec<Window>,
    buffers: Vec<Buffer>,
    commands: Vec<Registered>,
    focused: WindowId,
    tabline_dirty: bool,
    editor_dirty: bool,
    statusline_dirty: bool,
    message: Option<(Importance, String)>,
    exit_requested: bool,
    open_requested: Option<String>,
}

impl View for Edot {
    type V = EdotView;

    closed spec fn view(&self) -> EdotView {
        EdotView {
            windows: self.windows@.map_values(|window: Window| window@),
            buffers: self.buffers@.map_values(|buffer: Buffer| buffer@),
            commands: self.commands@.map_values(
                |registered: Registered| (registered.name@, registered.command),
            ),
            focused: self.focused.0 as int,
            tabline_dirty: self.tabline_dirty,
            editor_dirty: self.editor_dirty,
            statusline_dirty: self.statusline_dirty,
            message: match self.message {
                Some((importance, words)) => Some((importance, words@)),
                None => None,
            },
            exit_requested: self.exit_requested,
            open_requested: match self.open_requested {
                Some(name) => Some(name@),
                None => None,
            },
        }
    }
}

/// Replacing a text and a selection twice is replacing them once, with what
/// came last, and what has been put in is what is found.
proof fn lemma_with_again(
    editor: EdotView,
    w: int,
    s: int,
    text: Seq<char>,
    span: Span,
    next_text: Seq<char>,
    next_span: Span,
)
    requires
        editor.wf(),
        editor.has_selection(w, s),
    ensures
        editor.with(w, s, text, span).wf(),
        editor.with(w, s, text, span).has_selection(w, s),
        editor.with(w, s, text, span).same_shape(editor),
        editor.with(w, s, text, span).text_of(w) == text,
        editor.with(w, s, text, span).windows[w].selections[s] == span,
        editor.with(w, s, text, span).with(w, s, next_text, next_span) == editor.with(
            w,
            s,
            next_text,
            next_span,
        ),
{
    let once = editor.with(w, s, text, span);
    let twice = once.with(w, s, next_text, next_span);
    let direct = editor.with(w, s, next_text, next_span);
    assert(twice.windows[w].selections =~= direct.windows[w].selections);
    assert(twice.windows =~= direct.windows);
    assert(twice.buffers =~= direct.buffers);
}

/// Ordering or flipping the selections of window `w` from number `from` on
/// never fails, touches no text, and leaves every other selection as it
/// is.
proof fn lemma_rearranged_from(editor: EdotView, w: int, change: Change, from: int)
    requires
        editor.wf(),
        0 <= w < editor.windows.len(),
        0 <= from <= editor.windows[w].selections.len(),
        change == Change::Order || change == Change::Flip,
    ensures
        editor.attempt_from(
            w,
            change,
            from,
            editor.windows[w].selections.len() as int,
        ).failure is None,
        editor.attempt_from(w, change, from, editor.windows[w].selections.len() as int).editor
            == editor.with_spans(
            w,
            Seq::new(
                editor.windows[w].selections.len(),
                |s: int|
                    if s >= from {
                        stepped(editor.text_of(w), editor.windows[w].selections[s], change).span
                    } else {
                        editor.windows[w].selections[s]
                    },
            ),
        ),
    decreases editor.windows[w].selections.len() - from,
{
    let count = editor.windows[w].selections.len() as int;
    let spans = editor.windows[w].selections;
    let text = editor.text_of(w);
    let goal = editor.with_spans(
        w,
        Seq::new(
            count as nat,
            |s: int|
                if s >= from {
                    stepped(text, spans[s], change).span
                } else {
                    spans[s]
                },
        ),
    );
    if from >= count {
        assert(goal.windows[w].selections =~= spans);
        assert(goal.windows =~= editor.windows);
    } else {
        let step = stepped(text, spans[from], change);
        let next = editor.attempt(w, from, change).editor;
        lemma_stepped_apart(text, spans[from], change);
        lemma_with_again(editor, w, from, text, step.span, text, spans[from]);
        lemma_rearranged_from(next, w, change, from + 1);
        let after = next.attempt_from(w, change, from + 1, count).editor;
        assert(after.windows[w].selections =~= goal.windows[w].selections);
        assert(after.windows =~= goal.windows);
        assert(after.buffers =~= goal.buffers);
    }
}

/// Ordering or flipping every selection of window `w` never fails, touches
/// no text, and orders or flips each selection by itself.
pub proof fn lemma_rearranged_all(editor: EdotView, w: int, change: Change)
    requires
        editor.wf(),
        0 <= w < editor.windows.len(),
        change == Change::Order || change == Change::Flip,
    ensures
        editor.attempt_all(w, change).failure is None,
        editor.attempt_all(w, change).editor == editor.each_stepped(w, change),
{
    lemma_rearranged_from(editor, w, change, 0);
    assert(editor.each_stepped(w, change).windows[w].selections =~= Seq::new(
        editor.windows[w].selections.len(),
        |s: int|
            if s >= 0 {
                stepped(editor.text_of(w), editor.windows[w].selections[s], change).span
            } else {
                editor.windows[w].selections[s]
            },
    ));
}

/// Moving or shifting the selections of window `w` from number `from` on,
/// whether one of them fails or not, touches no text, moves every one of
/// these selections by itself, and leaves every other selection as it is.
/// The failure is `first` where that is one, and else that of the first
/// selection that could not move.
proof fn lemma_moved_from(
    editor: EdotView,
    w: int,
    change: Change,
    from: int,
    first: Option<MovementError>,
)
    requires
        editor.wf(),
        0 <= w < editor.windows.len(),
        0 <= from <= editor.windows[w].selections.len(),
        change is Move || change is Shift,
    ensures
        editor.insist_from(
            w,
            change,
            from,
            editor.windows[w].selections.len() as int,
            first,
        ).failure == if first is Some {
            first
        } else {
            first_failure(editor.text_of(w), editor.windows[w].selections, change, from)
        },
        editor.insist_from(
            w,
            change,
            from,
            editor.windows[w].selections.len() as int,
            first,
        ).editor == editor.with_spans(
            w,
            Seq::new(
                editor.windows[w].selections.len(),
                |s: int|
                    if s >= from {
                        stepped(editor.text_of(w), editor.windows[w].selections[s], change).span
                    } else {
                        editor.windows[w].selections[s]
                    },
            ),
        ),
    decreases editor.windows[w].selections.len() - from,
{
    let count = editor.windows[w].selections.len() as int;
    let spans = editor.windows[w].selections;
    let text = editor.text_of(w);
    let goal = editor.with_spans(
        w,
        Seq::new(
            count as nat,
            |s: int|
                if s >= from {
                    stepped(text, spans[s], change).span
                } else {
                    spans[s]
                },
        ),
    );
    if from >= count {
        assert(goal.windows[w].selections =~= spans);
        assert(goal.windows =~= editor.windows);
    } else {
        let step = stepped(text, spans[from], change);
        let next = editor.attempt(w, from, change).editor;
        lemma_stepped_apart(text, spans[from], change);
        let carried = if first is Some {
            first
        } else {
            step.failure
        };
        lemma_with_again(editor, w, from, text, step.span, text, spans[from]);
        lemma_moved_from(next, w, change, from + 1, carried);
        let after = next.insist_from(w, change, from + 1, count, carried).editor;
        assert(next.windows[w].selections =~= spans.update(from, step.span));
        lemma_first_failure_apart(text, next.windows[w].selections, spans, change, from + 1);
        assert(after.windows[w].selections =~= goal.windows[w].selections);
        assert(after.windows =~= goal.windows);
        assert(after.buffers =~= goal.buffers);
    }
}

/// The first failure from number `from` on is the same for two sequences of
/// spans that are equal from there on.
proof fn lemma_first_failure_apart(
    text: Seq<char>,
    left: Seq<Span>,
    right: Seq<Span>,
    change: Change,
    from: int,
)
    requires
        left.len() == right.len(),
        forall|s: int| from <= s < left.len() ==> left[s] == right[s],
    ensures
        first_failure(text, left, change, from) == first_failure(text, right, change, from),
    decreases left.len() - from,
{
    if 0 <= from < left.len() {
        lemma_first_failure_apart(text, left, right, change, from + 1);
    }
}

/// Moving or shifting every selection of window `w`, whether one of them
/// fails or not, touches no text and moves every selection by itself; the
/// failure is that of the first selection that could not move.
pub proof fn lemma_moved_all(editor: EdotView, w: int, change: Change)
    requires
        editor.wf(),
        0 <= w < editor.windows.len(),
        change is Move || change is Shift,
    ensures
        editor.insist_all(w, change).failure == first_failure(
            editor.text_of(w),
            editor.windows[w].selections,
            change,
            0,
        ),
        editor.insist_all(w, change).editor == editor.each_stepped(w, change),
{
    lemma_moved_from(editor, w, change, 0, None);
    assert(editor.each_stepped(w, change).windows[w].selections =~= Seq::new(
        editor.windows[w].selections.len(),
        |s: int|
            if s >= 0 {
                stepped(editor.text_of(w), editor.windows[w].selections[s], change).span
            } else {
                editor.windows[w].selections[s]
            },
    ));
}

impl Edot {
    /// What holds of every editor: see `EdotView::wf`.
    pub open spec fn wf(&self) -> bool {
        self@.wf()
    }

    /// An editor that differs from another only in one selection of one
    /// window, and in the content of the buffer of that window, stands for
    /// the other's view with that selection and that text replaced.
    proof fn lemma_with(self, before: Edot, w: int, s: int)
        requires
            before.wf(),
            before@.has_selection(w, s),
            self.windows@.len() == before.windows@.len(),
            forall|i: int|
                0 <= i < before.windows@.len() && i != w ==> self.windows@[i]
                    == before.windows@[i],
            self.windows@[w].buffer == before.windows@[w].buffer,
            self.windows@[w].mode == before.windows@[w].mode,
            self.windows@[w].command == before.windows@[w].command,
            self.windows@[w].top == before.windows@[w].top,
            self.windows@[w].selections@ == before.windows@[w].selections@.update(
                s,
                self.windows@[w].selections@[s],
            ),
            self.buffers@.len() == before.buffers@.len(),
            forall|j: int|
                0 <= j < before.buffers@.len() && j != before@.windows[w].buffer
                    ==> self.buffers@[j] == before.buffers@[j],
            self.buffers@[before@.windows[w].buffer].path
                == before.buffers@[before@.windows[w].buffer].path,
            self.buffers@[before@.windows[w].buffer].name
                == before.buffers@[before@.windows[w].buffer].name,
            self.buffers@[before@.windows[w].buffer].history
                == before.buffers@[before@.windows[w].buffer].history,
            self.commands == before.commands,
            self.focused == before.focused,
            self.tabline_dirty == before.tabline_dirty,
            self.editor_dirty == before.editor_dirty,
            self.statusline_dirty == before.statusline_dirty,
            self.message == before.message,
            self.exit_requested == before.exit_requested,
            self.open_requested == before.open_requested,
        ensures
            self@ == before@.with(
                w,
                s,
                rope_text(self.buffers@[before@.windows[w].buffer].content),
                self.windows@[w].selections@[s]@,
            ),
            self.wf(),
            self@.same_shape(before@),
    {
        let b = before@.windows[w].buffer;
        let after = before@.with(
            w,
            s,
            rope_text(self.buffers@[b].content),
            self.windows@[w].selections@[s]@,
        );
        assert(spans(self.windows@[w].selections@) =~= spans(
            before.windows@[w].selections@,
        ).update(s, self.windows@[w].selections@[s]@));
        assert(self@.windows =~= after.windows);
        assert(self@.buffers =~= after.buffers);
    }

    /// An editor that differs from another only in the command line of the
    /// focused window stands for the other's view with that command line
    /// replaced.
    proof fn lemma_command(self, before: Edot)
        requires
            before.wf(),
            self.windows@.len() == before.windows@.len(),
            forall|i: int|
                0 <= i < before.windows@.len() && i != before.focused.0 ==> self.windows@[i]
                    == before.windows@[i],
            self.windows@[before.focused.0 as int].buffer
                == before.windows@[before.focused.0 as int].buffer,
            self.windows@[before.focused.0 as int].mode
                == before.windows@[before.focused.0 as int].mode,
            self.windows@[before.focused.0 as int].selections
                == before.windows@[before.focused.0 as int].selections,
            self.windows@[before.focused.0 as int].top
                == before.windows@[before.focused.0 as int].top,
            self.buffers == before.buffers,
            self.commands == before.commands,
            self.focused == before.focused,
            self.tabline_dirty == before.tabline_dirty,
            self.editor_dirty == before.editor_dirty,
            self.statusline_dirty == before.statusline_dirty,
            self.message == before.message,
            self.exit_requested == before.exit_requested,
            self.open_requested == before.open_requested,
        ensures
            self@ == before@.with_command(
                before.focused.0 as int,
                self.windows@[before.focused.0 as int].command@,
            ),
            self.wf(),
    {
        let after = before@.with_command(
            before.focused.0 as int,
            self.windows@[before.focused.0 as int].command@,
        );
        assert(self@.windows =~= after.windows);
    }

    /// An editor with one scratch buffer that holds a line feed, and one
    /// window on it that has the focus. No command is known yet, nothing
    /// has been drawn, and nothing is asked for.
    pub fn new() -> (editor: Edot)
        ensures
            editor.wf(),
            editor@ == (EdotView {
                windows: seq![WindowView::fresh(0)],
                buffers: seq![
                    BufferView {
                        path: None,
                        name: "scratch"@,
                        text: "\n"@,
                        history: Seq::empty(),
                    },
                ],
                commands: Seq::empty(),
                focused: 0,
                tabline_dirty: true,
                editor_dirty: true,
                statusline_dirty: true,
                message: None,
                exit_requested: false,
                open_requested: None,
            }),
    {
        let mut windows = Vec::new();
        windows.push(Window::new(BufferId(0)));
        let mut buffers = Vec::new();
        buffers.push(Buffer::new(None, String::from_str("scratch"), Rope::from_str("\n")));
        let editor = Edot {
            windows,
            buffers,
            commands: Vec::new(),
            focused: WindowId(0),
            tabline_dirty: true,
            editor_dirty: true,
            statusline_dirty: true,
            message: None,
            exit_requested: false,
            open_requested: None,
        };
        assert(editor@.windows =~= seq![WindowView::fresh(0)]);
        assert(editor@.buffers =~= seq![
            BufferView { path: None, name: "scratch"@, text: "\n"@, history: Seq::empty() },
        ]);
        assert(editor@.commands =~= Seq::empty());
        editor
    }

    /// Leaves `message` to be shown in the status line.
    pub fn show_message(&mut self, importance: Importance, message: String)
        ensures
            final(self)@ == (EdotView { message: Some((importance, message@)), ..old(self)@ }),
            old(self).wf() ==> final(self).wf(),
    {
        self.message = Some((importance, message));
    }

    /// Leaves the words of `error` to be shown in the status line.
    pub fn report(&mut self, error: &Error)
        ensures
            final(self)@ == old(self)@.reported(error@),
            old(self).wf() ==> final(self).wf(),
    {
        self.show_message(Importance::Error, error.message());
    }

    /// Asks for the editor to end.
    pub fn quit(&mut self)
        ensures
            final(self)@ == (EdotView { exit_requested: true, ..old(self)@ }),
            old(self).wf() ==> final(self).wf(),
    {
        self.exit_requested = true;
    }

    /// Asks for the file `name` to be opened.
    pub fn ask_to_open(&mut self, name: String)
        ensures
            final(self)@ == (EdotView { open_requested: Some(name@), ..old(self)@ }),
            old(self).wf() ==> final(self).wf(),
    {
        self.open_requested = Some(name);
    }

    /// Whether the editor has been asked to end, which it then no longer is.
    pub fn take_exit_request(&mut self) -> (asked: bool)
        ensures
            asked == old(self)@.exit_requested,
            final(self)@ == (EdotView { exit_requested: false, ..old(self)@ }),
            old(self).wf() ==> final(self).wf(),
    {
        let asked = self.exit_requested;
        self.exit_requested = false;
        asked
    }

    /// The name of the file that the editor has been asked to open, which
    /// it then no longer is.
    pub fn take_open_request(&mut self) -> (asked: Option<String>)
        ensures
            asked is Some <==> old(self)@.open_requested is Some,
            asked is Some ==> old(self)@.open_requested == Some(asked->Some_0@),
            final(self)@ == (EdotView { open_requested: None, ..old(self)@ }),
            old(self).wf() ==> final(self).wf(),
    {
        self.open_requested.take()
    }

    /// Takes in a file that has been read: a new buffer holds its content,
    /// and a new window on that buffer gets the focus.
    pub fn open(&mut self, name: String, path: PathBuf, content: Rope)
        requires
            old(self).wf(),
        ensures
            final(self).wf(),
            final(self)@ == old(self)@.opened(name@, path, rope_text(content)),
    {
        let buffer_id = BufferId(self.buffers.len());
        self.buffers.push(Buffer::new(Some(path), name, content));
        let window_id = WindowId(self.windows.len());
        self.windows.push(Window::new(buffer_id));
        self.focused = window_id;
        proof {
            let after = old(self)@.opened(name@, path, rope_text(content));
            assert(self@.buffers =~= after.buffers);
            assert(self@.windows =~= after.windows);
        }
    }

    /// The window that has the focus.
    pub fn focused(&self) -> (window: WindowId)
        ensures
            window.0 == self@.focused,
    {
        self.focused
    }

    /// The number of windows.
    pub fn window_count(&self) -> (count: usize)
        ensures
            count == self@.windows.len(),
    {
        self.windows.len()
    }

    /// The number of buffers.
    pub fn buffer_count(&self) -> (count: usize)
        ensures
            count == self@.buffers.len(),
    {
        self.buffers.len()
    }

    /// One of the windows.
    pub fn window(&self, window: WindowId) -> (found: &Window)
        requires
            window.0 < self@.windows.len(),
        ensures
            found@ == self@.windows[window.0 as int],
    {
        &self.windows[window.0]
    }

    /// One of the buffers.
    pub fn buffer(&self, buffer: BufferId) -> (found: &Buffer)
        requires
            buffer.0 < self@.buffers.len(),
        ensures
            found@ == self@.buffers[buffer.0 as int],
    {
        &self.buffers[buffer.0]
    }

    /// The message that waits to be shown, if any.
    pub fn message(&self) -> (message: &Option<(Importance, String)>)
        ensures
            message is Some <==> self@.message is Some,
            message is Some ==> self@.message == Some((message->Some_0.0, message->Some_0.1@)),
    {
        &self.message
    }

    /// Puts a window into a mode.
    pub fn set_mode(&mut self, window: WindowId, mode: Mode)
        requires
            window.0 < old(self)@.windows.len(),
        ensures
            final(self)@ == old(self)@.with_mode(window.0 as int, mode),
            final(self)@.same_shape(old(self)@),
            old(self).wf() ==> final(self).wf(),
    {
        self.windows[window.0].mode = mode;
        assert(self@.windows =~= old(self)@.with_mode(window.0 as int, mode).windows);
    }

    /// Puts `c` at the end of the command line of the focused window.
    pub fn push_command(&mut self, c: char)
        requires
            old(self).wf(),
        ensures
            final(self).wf(),
            final(self)@ == old(self)@.with_command(
                old(self)@.focused,
                old(self)@.windows[old(self)@.focused].command.push(c),
            ),
    {
        self.windows[self.focused.0].command.push(c);
        proof {
            self.lemma_command(*old(self));
        }
    }

    /// Takes the last character off the command line of the focused window
    /// and returns it, or returns `None` for an empty command line, which
    /// changes nothing.
    pub fn pop_command(&mut self) -> (last: Option<char>)
        requires
            old(self).wf(),
        ensures
            final(self).wf(),
            old(self)@.windows[old(self)@.focused].command.len() == 0 ==> last is None
                && final(self)@ == old(self)@,
            old(self)@.windows[old(self)@.focused].command.len() > 0 ==> last == Some(
                old(self)@.windows[old(self)@.focused].command.last(),
            ) && final(self)@ == old(self)@.with_command(
                old(self)@.focused,
                old(self)@.windows[old(self)@.focused].command.drop_last(),
            ),
    {
        let last = self.windows[self.focused.0].command.pop();
        proof {
            self.lemma_command(*old(self));
            if last is None {
                assert(self@.windows =~= old(self)@.windows);
            }
        }
        last
    }

    /// Empties the command line of the focused window.
    pub fn clear_command(&mut self)
        requires
            old(self).wf(),
        ensures
            final(self).wf(),
            final(self)@ == old(self)@.with_command(old(self)@.focused, Seq::empty()),
    {
        self.windows[self.focused.0].command.clear();
        proof {
            self.lemma_command(*old(self));
        }
    }

    /// Hands out the command line of the focused window and leaves it
    /// empty.
    pub fn take_command(&mut self) -> (line: String)
        requires
            old(self).wf(),
        ensures
            final(self).wf(),
            line@ == old(self)@.windows[old(self)@.focused].command,
            final(self)@ == old(self)@.with_command(old(self)@.focused, Seq::empty()),
    {
        let mut line = String::new();
        core::mem::swap(&mut line, &mut self.windows[self.focused.0].command);
        proof {
            self.lemma_command(*old(self));
        }
        line
    }

    /// The names of the selections of a window, in their order.
    pub fn selections(&self, window: WindowId) -> (ids: Vec<SelectionId>)
        requires
            window.0 < self@.windows.len(),
        ensures
            ids@.len() == self@.windows[window.0 as int].selections.len(),
            forall|i: int| 0 <= i < ids@.len() ==> (#[trigger] ids@[i]).0 == i,
    {
        let count = self.windows[window.0].selections.len();
        let mut ids: Vec<SelectionId> = Vec::new();
        let mut i: usize = 0;
        while i < count
            invariant
                i <= count,
                ids@.len() == i,
                forall|j: int| 0 <= j < i ==> (#[trigger] ids@[j]).0 == j,
            decreases count - i,
        {
            ids.push(SelectionId(i));
            i += 1;
        }
        ids
    }

    /// The cursor of a selection takes a step through the text of its
    /// window; the anchor follows it unless `drag` is set. A step that
    /// fails leaves the anchor where it is.
    pub fn move_selection(
        &mut self,
        window_id: WindowId,
        selection_id: SelectionId,
        movement: Movement,
        drag: bool,
    ) -> (result: Result<(), MovementError>)
        requires
            old(self).wf(),
            old(self)@.has_selection(window_id.0 as int, selection_id.0 as int),
        ensures
            final(self).wf(),
            final(self)@.same_shape(old(self)@),
            final(self)@ == old(self)@.attempt(
                window_id.0 as int,
                selection_id.0 as int,
                Change::Move { movement, drag },
            ).editor,
            result == outcome(
                old(self)@.attempt(
                    window_id.0 as int,
                    selection_id.0 as int,
                    Change::Move { movement, drag },
                ).failure,
            ),
    {
        let buffer = self.windows[window_id.0].buffer.0;
        let mut selection = self.windows[window_id.0].selections[selection_id.0];
        let result = selection.end.move_to(&self.buffers[buffer].content, movement);
        if result.is_ok() && !drag {
            selection.start = selection.end;
        }
        self.windows[window_id.0].selections[selection_id.0] = selection;
        proof {
            reveal(stepped);
            self.lemma_with(*old(self), window_id.0 as int, selection_id.0 as int);
        }
        result
    }

    /// Both ends of a selection take the same step, the anchor first. Where
    /// the step of the anchor fails the cursor stays.
    pub fn shift_selection(
        &mut self,
        window_id: WindowId,
        selection_id: SelectionId,
        movement: Movement,
    ) -> (result: Result<(), MovementError>)
        requires
            old(self).wf(),
            old(self)@.has_selection(window_id.0 as int, selection_id.0 as int),
        ensures
            final(self).wf(),
            final(self)@.same_shape(old(self)@),
            final(self)@ == old(self)@.attempt(
                window_id.0 as int,
                selection_id.0 as int,
                Change::Shift { movement },
            ).editor,
            result == outcome(
                old(self)@.attempt(
                    window_id.0 as int,
                    selection_id.0 as int,
                    Change::Shift { movement },
                ).failure,
            ),
    {
        let buffer = self.windows[window_id.0].buffer.0;
        let mut selection = self.windows[window_id.0].selections[selection_id.0];
        let mut result = selection.start.move_to(&self.buffers[buffer].content, movement);
        if result.is_ok() {
            result = selection.end.move_to(&self.buffers[buffer].content, movement);
        }
        self.windows[window_id.0].selections[selection_id.0] = selection;
        proof {
            reveal(stepped);
            self.lemma_with(*old(self), window_id.0 as int, selection_id.0 as int);
        }
        result
    }

    /// Removes the characters of a selection from the text of its window, as
    /// `Selection::remove_from` does.
    pub fn delete_selection(
        &mut self,
        window_id: WindowId,
        selection_id: SelectionId,
    ) -> (result: Result<(), MovementError>)
        requires
            old(self).wf(),
            old(self)@.has_selection(window_id.0 as int, selection_id.0 as int),
        ensures
            final(self).wf(),
            final(self)@.same_shape(old(self)@),
            final(self)@ == old(self)@.attempt(
                window_id.0 as int,
                selection_id.0 as int,
                Change::Delete,
            ).editor,
            result == outcome(
                old(self)@.attempt(
                    window_id.0 as int,
                    selection_id.0 as int,
                    Change::Delete,
                ).failure,
            ),
    {
        let buffer = self.windows[window_id.0].buffer.0;
        let mut selection = self.windows[window_id.0].selections[selection_id.0];
        let result = selection.remove_from(&mut self.buffers[buffer].content);
        self.windows[window_id.0].selections[selection_id.0] = selection;
        proof {
            reveal(stepped);
            self.lemma_with(*old(self), window_id.0 as int, selection_id.0 as int);
        }
        result
    }

    /// Exchanges the anchor and the cursor of a selection.
    pub fn flip_selection(
        &mut self,
        window_id: WindowId,
        selection_id: SelectionId,
    )
        requires
            old(self).wf(),
            old(self)@.has_selection(window_id.0 as int, selection_id.0 as int),
        ensures
            final(self).wf(),
            final(self)@.same_shape(old(self)@),
            final(self)@ == old(self)@.attempt(
                window_id.0 as int,
                selection_id.0 as int,
                Change::Flip,
            ).editor,
    {
        let mut selection = self.windows[window_id.0].selections[selection_id.0];
        selection.flip();
        self.windows[window_id.0].selections[selection_id.0] = selection;
        proof {
            reveal(stepped);
            self.lemma_with(*old(self), window_id.0 as int, selection_id.0 as int);
        }
    }

    /// Makes the earlier end of a selection its anchor.
    pub fn order_selection(
        &mut self,
        window_id: WindowId,
        selection_id: SelectionId,
    )
        requires
            old(self).wf(),
            old(self)@.has_selection(window_id.0 as int, selection_id.0 as int),
        ensures
            final(self).wf(),
            final(self)@.same_shape(old(self)@),
            final(self)@ == old(self)@.attempt(
                window_id.0 as int,
                selection_id.0 as int,
                Change::Order,
            ).editor,
    {
        let mut selection = self.windows[window_id.0].selections[selection_id.0];
        selection.order();
        self.windows[window_id.0].selections[selection_id.0] = selection;
        proof {
            reveal(stepped);
            self.lemma_with(*old(self), window_id.0 as int, selection_id.0 as int);
        }
    }

    /// Puts `c` into the text in front of the anchor of a selection. An
    /// anchor at which the text cannot take a character is validated
    /// first.
    pub fn insert_char_before(
        &mut self,
        window_id: WindowId,
        selection_id: SelectionId,
        c: char,
    )
        requires
            old(self).wf(),
            old(self)@.has_selection(window_id.0 as int, selection_id.0 as int),
        ensures
            final(self).wf(),
            final(self)@.same_shape(old(self)@),
            final(self)@ == old(self)@.attempt(
                window_id.0 as int,
                selection_id.0 as int,
                Change::InsertBefore { c },
            ).editor,
    {
        let buffer = self.windows[window_id.0].buffer.0;
        let mut selection = self.windows[window_id.0].selections[selection_id.0];
        if !selection.start.can_insert(&self.buffers[buffer].content) {
            let _ = selection.start.validate(&self.buffers[buffer].content);
        }
        selection.start.insert_char(&mut self.buffers[buffer].content, c);
        self.windows[window_id.0].selections[selection_id.0] = selection;
        proof {
            reveal(stepped);
            self.lemma_with(*old(self), window_id.0 as int, selection_id.0 as int);
        }
    }

    /// Puts `c` into the text in front of the cursor of a selection. A
    /// cursor at which the text cannot take a character is validated
    /// first.
    pub fn insert_char_after(
        &mut self,
        window_id: WindowId,
        selection_id: SelectionId,
        c: char,
    )
        requires
            old(self).wf(),
            old(self)@.has_selection(window_id.0 as int, selection_id.0 as int),
        ensures
            final(self).wf(),
            final(self)@.same_shape(old(self)@),
            final(self)@ == old(self)@.attempt(
                window_id.0 as int,
                selection_id.0 as int,
                Change::InsertAfter { c },
            ).editor,
    {
        let buffer = self.windows[window_id.0].buffer.0;
        let mut selection = self.windows[window_id.0].selections[selection_id.0];
        if !selection.end.can_insert(&self.buffers[buffer].content) {
            let _ = selection.end.validate(&self.buffers[buffer].content);
        }
        selection.end.insert_char(&mut self.buffers[buffer].content, c);
        self.windows[window_id.0].selections[selection_id.0] = selection;
        proof {
            reveal(stepped);
            self.lemma_with(*old(self), window_id.0 as int, selection_id.0 as int);
        }
    }

    /// Opens a line below the line of the cursor of a selection, and puts
    /// the selection at its start.
    fn open_line(
        &mut self,
        window_id: WindowId,
        selection_id: SelectionId,
    ) -> (result: Result<(), MovementError>)
        requires
            old(self).wf(),
            old(self)@.has_selection(window_id.0 as int, selection_id.0 as int),
        ensures
            final(self).wf(),
            final(self)@.same_shape(old(self)@),
            final(self)@ == old(self)@.attempt(
                window_id.0 as int,
                selection_id.0 as int,
                Change::OpenLine,
            ).editor,
            result == outcome(
                old(self)@.attempt(
                    window_id.0 as int,
                    selection_id.0 as int,
                    Change::OpenLine,
                ).failure,
            ),
    {
        let ghost w = window_id.0 as int;
        let ghost s = selection_id.0 as int;
        let ghost before = self@;
        let ghost c1 = stepped(
            before.text_of(w),
            before.windows[w].selections[s],
            Change::Move { movement: Movement::LineEnd, drag: false },
        );
        let ghost c2 = c1.and(Change::InsertAfter { c: '\n' });
        let ghost c3 = c2.and(Change::Move { movement: Movement::Down, drag: false });
        let ghost c4 = c3.and(Change::Move { movement: Movement::LineStart, drag: false });
        proof {
            reveal(stepped);
            lemma_with_again(before, w, s, c1.text, c1.span, c2.text, c2.span);
            lemma_with_again(before, w, s, c2.text, c2.span, c3.text, c3.span);
            lemma_with_again(before, w, s, c3.text, c3.span, c4.text, c4.span);
        }
        self.move_selection(window_id, selection_id, Movement::LineEnd, false)?;
        self.insert_char_after(window_id, selection_id, '\n');
        self.move_selection(window_id, selection_id, Movement::Down, false)?;
        self.move_selection(window_id, selection_id, Movement::LineStart, false)
    }

    /// Puts `c` in front of the anchor of a selection and shifts the
    /// selection to the right.
    fn type_before(
        &mut self,
        window_id: WindowId,
        selection_id: SelectionId,
        c: char,
    ) -> (result: Result<(), MovementError>)
        requires
            old(self).wf(),
            old(self)@.has_selection(window_id.0 as int, selection_id.0 as int),
        ensures
            final(self).wf(),
            final(self)@.same_shape(old(self)@),
            final(self)@ == old(self)@.attempt(
                window_id.0 as int,
                selection_id.0 as int,
                Change::TypeBefore { c },
            ).editor,
            result == outcome(
                old(self)@.attempt(
                    window_id.0 as int,
                    selection_id.0 as int,
                    Change::TypeBefore { c },
                ).failure,
            ),
    {
        let ghost w = window_id.0 as int;
        let ghost s = selection_id.0 as int;
        let ghost before = self@;
        let ghost c1 = stepped(
            before.text_of(w),
            before.windows[w].selections[s],
            Change::InsertBefore { c },
        );
        let ghost c2 = c1.and(Change::Shift { movement: Movement::Right });
        proof {
            reveal(stepped);
            lemma_with_again(before, w, s, c1.text, c1.span, c2.text, c2.span);
        }
        self.insert_char_before(window_id, selection_id, c);
        self.shift_selection(window_id, selection_id, Movement::Right)
    }

    /// Takes the cursor of a selection to the right, the anchor held, and
    /// puts `c` in front of it.
    fn type_after(
        &mut self,
        window_id: WindowId,
        selection_id: SelectionId,
        c: char,
    ) -> (result: Result<(), MovementError>)
        requires
            old(self).wf(),
            old(self)@.has_selection(window_id.0 as int, selection_id.0 as int),
        ensures
            final(self).wf(),
            final(self)@.same_shape(old(self)@),
            final(self)@ == old(self)@.attempt(
                window_id.0 as int,
                selection_id.0 as int,
                Change::TypeAfter { c },
            ).editor,
            result == outcome(
                old(self)@.attempt(
                    window_id.0 as int,
                    selection_id.0 as int,
                    Change::TypeAfter { c },
                ).failure,
            ),
    {
        let ghost w = window_id.0 as int;
        let ghost s = selection_id.0 as int;
        let ghost before = self@;
        let ghost c1 = stepped(
            before.text_of(w),
            before.windows[w].selections[s],
            Change::Move { movement: Movement::Right, drag: true },
        );
        let ghost c2 = c1.and(Change::InsertAfter { c });
        proof {
            reveal(stepped);
            lemma_with_again(before, w, s, c1.text, c1.span, c2.text, c2.span);
        }
        self.move_selection(window_id, selection_id, Movement::Right, true)?;
        self.insert_char_after(window_id, selection_id, c);
        Ok(())
    }

    /// Makes a change to one selection of a window, as `EdotView::attempt`
    /// says.
    pub fn change_selection(
        &mut self,
        window_id: WindowId,
        selection_id: SelectionId,
        change: Change,
    ) -> (result: Result<(), MovementError>)
        requires
            old(self).wf(),
            old(self)@.has_selection(window_id.0 as int, selection_id.0 as int),
        ensures
            final(self).wf(),
            final(self)@.same_shape(old(self)@),
            final(self)@ == old(self)@.attempt(
                window_id.0 as int,
                selection_id.0 as int,
                change,
            ).editor,
            result == outcome(
                old(self)@.attempt(window_id.0 as int, selection_id.0 as int, change).failure,
            ),
    {
        proof {
            reveal(stepped);
        }
        match change {
            Change::Move { movement, drag } => self.move_selection(
                window_id,
                selection_id,
                movement,
                drag,
            ),
            Change::Shift { movement } => self.shift_selection(window_id, selection_id, movement),
            Change::Delete => self.delete_selection(window_id, selection_id),
            Change::Order => {
                self.order_selection(window_id, selection_id);
                Ok(())
            },
            Change::Flip => {
                self.flip_selection(window_id, selection_id);
                Ok(())
            },
            Change::InsertBefore { c } => {
                self.insert_char_before(window_id, selection_id, c);
                Ok(())
            },
            Change::InsertAfter { c } => {
                self.insert_char_after(window_id, selection_id, c);
                Ok(())
            },
            Change::OpenLine => self.open_line(window_id, selection_id),
            Change::TypeBefore { c } => self.type_before(window_id, selection_id, c),
            Change::TypeAfter { c } => self.type_after(window_id, selection_id, c),
        }
    }

    /// Makes a change to every selection of a window in turn, and stops at
    /// the first on which it fails.
    pub fn change_selections(&mut self, window_id: WindowId, change: Change) -> (result: Result<
        (),
        MovementError,
    >)
        requires
            old(self).wf(),
            window_id.0 < old(self)@.windows.len(),
        ensures
            final(self).wf(),
            final(self)@.same_shape(old(self)@),
            final(self)@ == old(self)@.attempt_all(window_id.0 as int, change).editor,
            result == outcome(old(self)@.attempt_all(window_id.0 as int, change).failure),
    {
        let count = self.windows[window_id.0].selections.len();
        let mut i: usize = 0;
        while i < count
            invariant
                self.wf(),
                i <= count,
                self@.same_shape(old(self)@),
                window_id.0 < self@.windows.len(),
                self@.windows[window_id.0 as int].selections.len() == count,
                old(self)@.attempt_all(window_id.0 as int, change) == self@.attempt_from(
                    window_id.0 as int,
                    change,
                    i as int,
                    count as int,
                ),
            decreases count - i,
        {
            let result = self.change_selection(window_id, SelectionId(i), change);
            if result.is_err() {
                return result;
            }
            i += 1;
        }
        Ok(())
    }

    /// Makes a change to every selection of a window, also behind one on
    /// which it fails, and returns the failure of the first selection on
    /// which it failed.
    pub fn for_each_selection(&mut self, window_id: WindowId, change: Change) -> (result: Result<
        (),
        MovementError,
    >)
        requires
            old(self).wf(),
            window_id.0 < old(self)@.windows.len(),
        ensures
            final(self).wf(),
            final(self)@.same_shape(old(self)@),
            final(self)@ == old(self)@.insist_all(window_id.0 as int, change).editor,
            result == outcome(old(self)@.insist_all(window_id.0 as int, change).failure),
    {
        let count = self.windows[window_id.0].selections.len();
        let mut first: Result<(), MovementError> = Ok(());
        let ghost mut failure: Option<MovementError> = None;
        let mut i: usize = 0;
        while i < count
            invariant
                self.wf(),
                i <= count,
                self@.same_shape(old(self)@),
                window_id.0 < self@.windows.len(),
                self@.windows[window_id.0 as int].selections.len() == count,
                first == outcome(failure),
                old(self)@.insist_all(window_id.0 as int, change) == self@.insist_from(
                    window_id.0 as int,
                    change,
                    i as int,
                    count as int,
                    failure,
                ),
            decreases count - i,
        {
            let ghost before = self@;
            let result = self.change_selection(window_id, SelectionId(i), change);
            if first.is_ok() {
                first = result;
                proof {
                    failure = before.attempt(window_id.0 as int, i as int, change).failure;
                }
            }
            i += 1;
        }
        first
    }

    /// Moves every selection of a window, also behind one that cannot take
    /// the step, and returns the failure of the first that could not.
    pub fn move_selections(
        &mut self,
        window_id: WindowId,
        movement: Movement,
        drag: bool,
    ) -> (result: Result<(), MovementError>)
        requires
            old(self).wf(),
            window_id.0 < old(self)@.windows.len(),
        ensures
            final(self).wf(),
            final(self)@.same_shape(old(self)@),
            final(self)@ == old(self)@.insist_all(
                window_id.0 as int,
                Change::Move { movement, drag },
            ).editor,
            result == outcome(
                old(self)@.insist_all(window_id.0 as int, Change::Move { movement, drag }).failure,
            ),
            final(self)@ == old(self)@.each_stepped(
                window_id.0 as int,
                Change::Move { movement, drag },
            ),
            result == outcome(
                first_failure(
                    old(self)@.text_of(window_id.0 as int),
                    old(self)@.windows[window_id.0 as int].selections,
                    Change::Move { movement, drag },
                    0,
                ),
            ),
    {
        proof {
            lemma_moved_all(self@, window_id.0 as int, Change::Move { movement, drag });
        }
        self.for_each_selection(window_id, Change::Move { movement, drag })
    }

    /// Shifts every selection of a window, also behind one that cannot take
    /// the step, and returns the failure of the first that could not.
    pub fn shift_selections(&mut self, window_id: WindowId, movement: Movement) -> (result: Result<
        (),
        MovementError,
    >)
        requires
            old(self).wf(),
            window_id.0 < old(self)@.windows.len(),
        ensures
            final(self).wf(),
            final(self)@.same_shape(old(self)@),
            final(self)@ == old(self)@.insist_all(
                window_id.0 as int,
                Change::Shift { movement },
            ).editor,
            result == outcome(
                old(self)@.insist_all(window_id.0 as int, Change::Shift { movement }).failure,
            ),
            final(self)@ == old(self)@.each_stepped(window_id.0 as int, Change::Shift { movement }),
            result == outcome(
                first_failure(
                    old(self)@.text_of(window_id.0 as int),
                    old(self)@.windows[window_id.0 as int].selections,
                    Change::Shift { movement },
                    0,
                ),
            ),
    {
        proof {
            lemma_moved_all(self@, window_id.0 as int, Change::Shift { movement });
        }
        self.for_each_selection(window_id, Change::Shift { movement })
    }

    /// Removes the characters of every selection of a window in turn, and
    /// stops at the first selection that finds the text empty.
    pub fn delete_selections(&mut self, window_id: WindowId) -> (result: Result<(), MovementError>)
        requires
            old(self).wf(),
            window_id.0 < old(self)@.windows.len(),
        ensures
            final(self).wf(),
            final(self)@.same_shape(old(self)@),
            final(self)@ == old(self)@.attempt_all(window_id.0 as int, Change::Delete).editor,
            result == outcome(old(self)@.attempt_all(window_id.0 as int, Change::Delete).failure),
    {
        self.change_selections(window_id, Change::Delete)
    }

    /// Exchanges anchor and cursor of every selection of a window.
    pub fn flip_selections(&mut self, window_id: WindowId)
        requires
            old(self).wf(),
            window_id.0 < old(self)@.windows.len(),
        ensures
            final(self).wf(),
            final(self)@.same_shape(old(self)@),
            final(self)@ == old(self)@.with_spans(
                window_id.0 as int,
                old(self)@.windows[window_id.0 as int].selections.map_values(
                    |span: Span| span.flipped(),
                ),
            ),
    {
        proof {
            lemma_rearranged_all(self@, window_id.0 as int, Change::Flip);
            reveal(stepped);
            assert(self@.windows[window_id.0 as int].selections.map_values(
                |span: Span| span.flipped(),
            ) =~= self@.each_stepped(
                window_id.0 as int,
                Change::Flip,
            ).windows[window_id.0 as int].selections);
        }
        let _ = self.change_selections(window_id, Change::Flip);
    }

    /// Makes the earlier end the anchor in every selection of a window.
    pub fn order_selections(&mut self, window_id: WindowId)
        requires
            old(self).wf(),
            window_id.0 < old(self)@.windows.len(),
        ensures
            final(self).wf(),
            final(self)@.same_shape(old(self)@),
            final(self)@ == old(self)@.with_spans(
                window_id.0 as int,
                old(self)@.windows[window_id.0 as int].selections.map_values(
                    |span: Span| span.ordered(),
                ),
            ),
    {
        proof {
            lemma_rearranged_all(self@, window_id.0 as int, Change::Order);
            reveal(stepped);
            assert(self@.windows[window_id.0 as int].selections.map_values(
                |span: Span| span.ordered(),
            ) =~= self@.each_stepped(
                window_id.0 as int,
                Change::Order,
            ).windows[window_id.0 as int].selections);
        }
        let _ = self.change_selections(window_id, Change::Order);
    }

    /// Makes the command `T` known under the name `s`. A command registered
    /// earlier under that name is no longer found.
    pub fn register<T: Command>(&mut self, s: &str)
        ensures
            final(self)@ == (EdotView {
                commands: old(self)@.commands.push((s@, CommandDesc::desc::<T>())),
                ..old(self)@
            }),
            old(self).wf() ==> final(self).wf(),
            lookup(final(self)@.commands, s@) == Some(CommandDesc::desc::<T>()),
    {
        self.commands.push(
            Registered { name: String::from_str(s), command: CommandDesc::of::<T>() },
        );
        assert(self@.commands =~= old(self)@.commands.push((s@, CommandDesc::desc::<T>())));
        assert(self@.commands.last() == (s@, CommandDesc::desc::<T>()));
    }

    /// The command registered last under `name`.
    pub fn find_command(&self, name: &String) -> (found: Option<CommandDesc>)
        ensures
            found == lookup(self@.commands, name@),
    {
        let mut i: usize = self.commands.len();
        assert(self@.commands.take(i as int) =~= self@.commands);
        while i > 0
            invariant
                i <= self.commands@.len(),
                lookup(self@.commands, name@) == lookup(self@.commands.take(i as int), name@),
            decreases i,
        {
            proof {
                assert(self@.commands.take(i as int).drop_last() =~= self@.commands.take(i - 1));
            }
            i -= 1;
            if self.commands[i].name == *name {
                return Some(self.commands[i].command);
            }
        }
        None
    }

    /// Carries out a command line that has been divided into words, as
    /// `EdotView::commanded` says.
    pub fn cmd(&mut self, args: &Vec<String>) -> (result: Result<(), Error>)
        requires
            old(self).wf(),
        ensures
            final(self).wf(),
            final(self)@ == old(self)@.commanded(texts(args@)).editor,
            returned(result, old(self)@.commanded(texts(args@)).error),
    {
        if args.len() == 0 {
            return Err(Error::NoCommand);
        }
        let command = match self.find_command(&args[0]) {
            Some(command) => command,
            None => {
                return Err(Error::UnknownCommand(args[0].clone()));
            },
        };
        let rest = vstd::slice::slice_subrange(args.as_slice(), 1, args.len());
        proof {
            assert(texts(rest@) =~= texts(args@).subrange(1, args@.len() as int));
        }
        let window = self.focused;
        run_handler(command.run, Context { editor: self, window }, rest)
    }

    /// What the status line is to show now. A message is shown once: it is
    /// handed out and no longer kept, and the status line stays to be drawn
    /// anew. Without a message the status line is drawn.
    pub fn status(&mut self) -> (status: Status)
        requires
            old(self).wf(),
        ensures
            final(self).wf(),
            status@ == old(self)@.status(),
            final(self)@ == if old(self)@.message is Some {
                EdotView { message: None, ..old(self)@ }
            } else {
                EdotView { statusline_dirty: false, ..old(self)@ }
            },
    {
        match self.message.take() {
            Some((_, words)) => Status::Message(words),
            None => {
                let window = &self.windows[self.focused.0];
                let mode = window.mode;
                let command = match mode {
                    Mode::Command => Some(window.command.clone()),
                    _ => None,
                };
                self.statusline_dirty = false;
                Status::Mode { mode, command }
            },
        }
    }

    /// The names that the tab line is to show, after which the tab line is
    /// drawn.
    pub fn tabs(&mut self) -> (names: Vec<String>)
        requires
            old(self).wf(),
        ensures
            final(self).wf(),
            texts(names@) == old(self)@.tabs(),
            final(self)@ == (EdotView { tabline_dirty: false, ..old(self)@ }),
    {
        let mut names: Vec<String> = Vec::new();
        let mut w: usize = 0;
        while w < self.windows.len()
            invariant
                self.wf(),
                w <= self.windows@.len(),
                names@.len() == w,
                forall|i: int| 0 <= i < w ==> (#[trigger] names@[i])@ == self@.tabs()[i],
            decreases self.windows@.len() - w,
        {
            let buffer = self.windows[w].buffer.0;
            assert(self@.windows[w as int].buffer == buffer);
            names.push(self.buffers[buffer].name.clone());
            w += 1;
        }
        self.tabline_dirty = false;
        proof {
            assert(texts(names@) =~= old(self)@.tabs());
        }
        names
    }
}

} // verus!
