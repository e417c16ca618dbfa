//! The commands of the command line: how a line is divided into words, how
//! the editor keeps a command, and the commands that it comes with.

use crate::edot::{Edot, EdotView, Error, ErrorView, Reaction, WindowId};
use vstd::prelude::*;

verus! {

/// The words into which `shlex::split` divides a command line by the rules
/// of a shell, or `None` where the line cannot be divided: where a quote is
/// left open or a backslash ends the line.
pub uninterp spec fn shell_words(line: Seq<char>) -> Option<Seq<Seq<char>>>;

/// The characters of each string of `words`.
pub open spec fn texts(words: Seq<String>) -> Seq<Seq<char>> {
    words.map_values(|word: String| word@)
}

/// `shlex::split` divides a line into words, or returns `None`; which of
/// the two, and what the words are, depends on the line alone.
pub assume_specification[ shlex::split ](in_str: &str) -> (words: Option<Vec<String>>)
    ensures
        words is None <==> shell_words(in_str@) is None,
        words is Some ==> shell_words(in_str@) == Some(texts(words.unwrap()@)),
;

/// The code that runs a command.
#[derive(Debug, Copy, Clone, PartialEq, Eq, Structural)]
pub enum Handler {
    Quit,
    Edit,
}

/// A command of the command line, as the editor keeps it: what it is for,
/// how many arguments it asks for, and what runs it.
#[derive(Debug, Copy, Clone)]
pub struct CommandDesc {
    pub description: &'static str,
    pub required_arguments: usize,
    pub run: Handler,
}

/// The command registered last under `name`, if any.
pub open spec fn lookup(commands: Seq<(Seq<char>, CommandDesc)>, name: Seq<char>) -> Option<
    CommandDesc,
>
    decreases commands.len(),
{
    if commands.len() == 0 {
        None
    } else if commands.last().0 == name {
        Some(commands.last().1)
    } else {
        lookup(commands.drop_last(), name)
    }
}

impl EdotView {
    /// The editor after a command has run with the arguments `args`. To
    /// quit, the editor asks to end. To edit, it asks for the file that the
    /// first argument names to be opened, and fails without an argument.
    pub open spec fn handled(self, handler: Handler, args: Seq<Seq<char>>) -> Reaction {
        match handler {
            Handler::Quit => Reaction {
                editor: EdotView { exit_requested: true, ..self },
                error: None,
            },
            Handler::Edit => {
                if args.len() == 0 {
                    Reaction { editor: self, error: Some(ErrorView::TooFewArguments) }
                } else {
                    Reaction {
                        editor: EdotView { open_requested: Some(args[0]), ..self },
                        error: None,
                    }
                }
            },
        }
    }

    /// The editor after the command line `words` has been carried out: the
    /// first word names the command, which runs with the others as its
    /// arguments. The number of arguments that the command asks for is not
    /// looked at.
    pub open spec fn commanded(self, words: Seq<Seq<char>>) -> Reaction {
        if words.len() == 0 {
            Reaction { editor: self, error: Some(ErrorView::NoCommand) }
        } else {
            match lookup(self.commands, words[0]) {
                None => Reaction { editor: self, error: Some(ErrorView::UnknownCommand(words[0])) },
                Some(command) => self.handled(command.run, words.subrange(1, words.len() as int)),
            }
        }
    }
}

/// What a step of the editor that can fail returned, for a step that failed
/// with `error` if at all.
pub open spec fn returned(result: Result<(), Error>, error: Option<ErrorView>) -> bool {
    match result {
        Ok(_) => error is None,
        Err(e) => error == Some(e@),
    }
}

/// An editor and the window from which a command was given.
pub struct Context<'a> {
    pub editor: &'a mut Edot,
    pub window: WindowId,
}

/// A command of the command line.
pub trait Command: Sized {
    /// What the command is for.
    const DESCRIPTION: &'static str;

    /// The number of arguments that the command asks for.
    const REQUIRED_ARGUMENTS: usize = 0;

    /// The code that runs the command.
    const HANDLER: Handler;

    /// Runs the command on the editor of `cx` with the arguments `args`.
    fn run(cx: Context, args: &[String]) -> (result: Result<(), Error>)
        requires
            old(cx.editor).wf(),
        ensures
            final(cx.editor).wf(),
            final(cx.editor)@ == old(cx.editor)@.handled(Self::HANDLER, texts(args@)).editor,
            returned(result, old(cx.editor)@.handled(Self::HANDLER, texts(args@)).error),
    ;
}

/// The command that ends the editor.
pub struct Quit;

impl Command for Quit {
    const DESCRIPTION: &'static str = "quits the editor";

    const HANDLER: Handler = Handler::Quit;

    fn run(cx: Context, args: &[String]) -> (result: Result<(), Error>) {
        cx.editor.quit();
        Ok(())
    }
}

/// The command that opens a file.
pub struct Edit;

impl Command for Edit {
    const DESCRIPTION: &'static str = "open a file";

    const REQUIRED_ARGUMENTS: usize = 1;

    const HANDLER: Handler = Handler::Edit;

    fn run(cx: Context, args: &[String]) -> (result: Result<(), Error>) {
        if args.len() == 0 {
            return Err(Error::TooFewArguments);
        }
        cx.editor.ask_to_open(args[0].clone());
        Ok(())
    }
}

impl CommandDesc {
    /// The command `T` as the editor keeps it.
    pub open spec fn desc<T: Command>() -> CommandDesc {
        CommandDesc {
            description: T::DESCRIPTION,
            required_arguments: T::REQUIRED_ARGUMENTS,
            run: T::HANDLER,
        }
    }

    /// The command `T` as the editor keeps it.
    pub fn of<T: Command>() -> (desc: CommandDesc)
        ensures
            desc == CommandDesc::desc::<T>(),
    {
        CommandDesc {
            description: T::DESCRIPTION,
            required_arguments: T::REQUIRED_ARGUMENTS,
            run: T::HANDLER,
        }
    }
}

/// Runs the code of a command on the editor of `cx` with the arguments
/// `args`.
pub fn run_handler(handler: Handler, cx: Context, args: &[String]) -> (result: Result<(), Error>)
    requires
        old(cx.editor).wf(),
    ensures
        final(cx.editor).wf(),
        final(cx.editor)@ == old(cx.editor)@.handled(handler, texts(args@)).editor,
        returned(result, old(cx.editor)@.handled(handler, texts(args@)).error),
{
    match handler {
        Handler::Quit => Quit::run(cx, args),
        Handler::Edit => Edit::run(cx, args),
    }
}

} // verus!
