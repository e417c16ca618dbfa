use edot::change::Change;
use edot::command::{Command, CommandDesc, Context, Edit, Handler, Quit};
use edot::edot::{BufferId, Edot, Error, Importance, Mode, SelectionId, Status, WindowId};
use edot::event::{Event, Incoming, Key};
use edot::location::{Column, Line, Movement, MovementError, Position, Selection};
use edot::screen::Cell;
use ropey::Rope;
use std::path::PathBuf;

fn at(line: usize, column: usize) -> Position {
    Position { line: Line::from_one_based(line), column: Column::from_one_based(column) }
}

fn span(start: (usize, usize), end: (usize, usize)) -> Selection {
    Selection { start: at(start.0, start.1), end: at(end.0, end.1) }
}

fn key(editor: &mut Edot, c: char) -> Result<(), Error> {
    editor.event(Event::Key(Key::Char(c)))
}

fn press(editor: &mut Edot, keys: &str) {
    for c in keys.chars() {
        key(editor, c).unwrap();
    }
}

fn text(editor: &Edot) -> String {
    let window = editor.window(editor.focused());
    editor.buffer(window.buffer()).content().to_string()
}

fn selection(editor: &Edot) -> Selection {
    editor.window(editor.focused()).selections()[0]
}

fn mode(editor: &Edot) -> Mode {
    editor.window(editor.focused()).mode()
}

fn command_line(editor: &Edot) -> String {
    editor.window(editor.focused()).command().clone()
}

fn editing(content: &str) -> Edot {
    let mut editor = Edot::new();
    editor.open(String::from("text"), PathBuf::from("/text"), Rope::from_str(content));
    editor
}

fn with_commands() -> Edot {
    let mut editor = Edot::new();
    editor.register::<Quit>("q");
    editor.register::<Quit>("quit");
    editor.register::<Edit>("e");
    editor.register::<Edit>("edit");
    editor
}

fn words(error: Result<(), Error>) -> String {
    error.unwrap_err().message()
}

#[test]
fn a_new_editor_has_a_scratch_buffer_and_one_window() {
    let editor = Edot::new();
    assert_eq!(editor.window_count(), 1);
    assert_eq!(editor.buffer_count(), 1);
    assert_eq!(editor.focused(), WindowId(0));
    let window = editor.window(WindowId(0));
    assert_eq!(window.buffer(), BufferId(0));
    assert_eq!(window.mode(), Mode::Normal);
    assert_eq!(window.selections().as_slice(), &[span((1, 1), (1, 1))]);
    assert_eq!(window.command(), "");
    assert_eq!(window.top(), Line::from_one_based(1));
    let buffer = editor.buffer(BufferId(0));
    assert_eq!(buffer.name(), "scratch");
    assert_eq!(buffer.path(), &None);
    assert_eq!(buffer.content().to_string(), "\n");
    assert!(editor.message().is_none());
    assert_eq!(editor.selections(WindowId(0)), vec![SelectionId(0)]);
    assert_eq!(WindowId(3).id(), 3);
    assert_eq!(BufferId(4).id(), 4);
    assert_eq!(SelectionId(5).id(), 5);
}

#[test]
fn typing_in_insert_mode_fills_the_scratch_buffer() {
    let mut editor = Edot::new();
    press(&mut editor, "iabc");
    assert_eq!(mode(&editor), Mode::Insert);
    editor.event(Event::Key(Key::Esc)).unwrap();
    assert_eq!(text(&editor), "abc\n");
    assert_eq!(editor.window(WindowId(0)).selections().len(), 1);
    assert_eq!(selection(&editor), span((1, 4), (1, 4)));
    assert_eq!(mode(&editor), Mode::Normal);
}

#[test]
fn a_line_feed_typed_in_insert_mode_starts_a_new_line() {
    let mut editor = Edot::new();
    press(&mut editor, "ia\nb");
    assert_eq!(text(&editor), "a\nb\n");
    assert_eq!(selection(&editor), span((2, 2), (2, 2)));
}

#[test]
fn append_mode_types_behind_the_cursor() {
    let mut editor = editing("ab\n");
    press(&mut editor, "ax");
    assert_eq!(mode(&editor), Mode::Append);
    assert_eq!(text(&editor), "axb\n");
    assert_eq!(selection(&editor), span((1, 1), (1, 2)));
    press(&mut editor, "y");
    assert_eq!(text(&editor), "axyb\n");
    assert_eq!(selection(&editor), span((1, 1), (1, 3)));
    editor.event(Event::Key(Key::Esc)).unwrap();
    assert_eq!(mode(&editor), Mode::Normal);
}

#[test]
fn append_mode_cannot_type_behind_the_last_character() {
    let mut editor = Edot::new();
    press(&mut editor, "a");
    let typed = key(&mut editor, 'x');
    assert!(matches!(typed, Err(Error::Movement(MovementError::NoNextLine))));
    assert_eq!(text(&editor), "\n");
    assert_eq!(selection(&editor), span((1, 1), (1, 1)));
    assert_eq!(mode(&editor), Mode::Append);
}

#[test]
fn normal_mode_moves_the_selection_with_letters_and_arrows() {
    let mut editor = editing("ab\ncd\n");
    press(&mut editor, "l");
    assert_eq!(selection(&editor), span((1, 2), (1, 2)));
    press(&mut editor, "j");
    assert_eq!(selection(&editor), span((2, 2), (2, 2)));
    press(&mut editor, "h");
    assert_eq!(selection(&editor), span((2, 1), (2, 1)));
    press(&mut editor, "k");
    assert_eq!(selection(&editor), span((1, 1), (1, 1)));
    editor.event(Event::Key(Key::Right)).unwrap();
    assert_eq!(selection(&editor), span((1, 2), (1, 2)));
    editor.event(Event::Key(Key::Down)).unwrap();
    assert_eq!(selection(&editor), span((2, 2), (2, 2)));
    editor.event(Event::Key(Key::Left)).unwrap();
    assert_eq!(selection(&editor), span((2, 1), (2, 1)));
    editor.event(Event::Key(Key::Up)).unwrap();
    assert_eq!(selection(&editor), span((1, 1), (1, 1)));
    assert_eq!(mode(&editor), Mode::Normal);
    assert_eq!(text(&editor), "ab\ncd\n");
}

#[test]
fn capital_letters_extend_the_selection() {
    let mut editor = editing("ab\ncd\n");
    press(&mut editor, "L");
    assert_eq!(selection(&editor), span((1, 1), (1, 2)));
    press(&mut editor, "J");
    assert_eq!(selection(&editor), span((1, 1), (2, 2)));
    press(&mut editor, "H");
    assert_eq!(selection(&editor), span((1, 1), (2, 1)));
    press(&mut editor, "K");
    assert_eq!(selection(&editor), span((1, 1), (1, 1)));
    press(&mut editor, "lLL");
    assert_eq!(selection(&editor), span((1, 2), (2, 1)));
    press(&mut editor, "h");
    assert_eq!(selection(&editor), span((1, 3), (1, 3)));
}

#[test]
fn a_movement_that_fails_is_reported_and_changes_nothing() {
    let mut editor = editing("ab\n");
    assert!(matches!(key(&mut editor, 'h'), Err(Error::Movement(MovementError::NoPrevLine))));
    assert!(matches!(key(&mut editor, 'k'), Err(Error::Movement(MovementError::NoPrevLine))));
    assert!(matches!(key(&mut editor, 'j'), Err(Error::Movement(MovementError::NoNextLine))));
    assert_eq!(selection(&editor), span((1, 1), (1, 1)));
    press(&mut editor, "ll");
    assert!(matches!(key(&mut editor, 'l'), Err(Error::Movement(MovementError::NoNextLine))));
    assert!(matches!(key(&mut editor, 'L'), Err(Error::Movement(MovementError::NoNextLine))));
    assert_eq!(selection(&editor), span((1, 3), (1, 3)));
    assert_eq!(text(&editor), "ab\n");
    assert_eq!(mode(&editor), Mode::Normal);
}

#[test]
fn d_removes_what_is_selected() {
    let mut editor = editing("ab\ncd\n");
    press(&mut editor, "d");
    assert_eq!(text(&editor), "b\ncd\n");
    assert_eq!(selection(&editor), span((1, 1), (1, 1)));
    assert_eq!(mode(&editor), Mode::Normal);
    press(&mut editor, "LLd");
    assert_eq!(text(&editor), "d\n");
    assert_eq!(selection(&editor), span((1, 1), (1, 1)));
    press(&mut editor, "Ld");
    assert_eq!(text(&editor), "\n");
    assert_eq!(selection(&editor), span((1, 1), (1, 1)));
    press(&mut editor, "d");
    assert_eq!(text(&editor), "\n");
}

#[test]
fn c_removes_what_is_selected_and_enters_insert_mode() {
    let mut editor = editing("ab\ncd\n");
    press(&mut editor, "Lcx");
    assert_eq!(text(&editor), "x\ncd\n");
    assert_eq!(selection(&editor), span((1, 2), (1, 2)));
    assert_eq!(mode(&editor), Mode::Insert);
}

#[test]
fn i_and_a_order_the_selection() {
    let mut editor = editing("ab\ncd\n");
    press(&mut editor, "jlK");
    assert_eq!(selection(&editor), span((2, 2), (1, 2)));
    press(&mut editor, "i");
    assert_eq!(selection(&editor), span((1, 2), (2, 2)));
    assert_eq!(mode(&editor), Mode::Insert);
    editor.event(Event::Key(Key::Esc)).unwrap();
    press(&mut editor, "HK");
    assert_eq!(selection(&editor), span((1, 2), (1, 1)));
    press(&mut editor, "a");
    assert_eq!(selection(&editor), span((1, 1), (1, 2)));
    assert_eq!(mode(&editor), Mode::Append);
}

#[test]
fn capital_a_goes_to_the_end_of_the_line_to_insert() {
    let mut editor = editing("ab\ncd\n");
    press(&mut editor, "A");
    assert_eq!(selection(&editor), span((1, 3), (1, 3)));
    assert_eq!(mode(&editor), Mode::Insert);
    press(&mut editor, "x");
    assert_eq!(text(&editor), "abx\ncd\n");
    assert_eq!(selection(&editor), span((1, 4), (1, 4)));
}

#[test]
fn o_opens_a_line_below() {
    let mut editor = editing("ab\ncd\n");
    press(&mut editor, "o");
    assert_eq!(text(&editor), "ab\n\ncd\n");
    assert_eq!(selection(&editor), span((2, 1), (2, 1)));
    assert_eq!(mode(&editor), Mode::Insert);
    press(&mut editor, "x");
    assert_eq!(text(&editor), "ab\nx\ncd\n");
    assert_eq!(selection(&editor), span((2, 2), (2, 2)));
}

#[test]
fn keys_without_a_meaning_do_nothing() {
    let mut editor = editing("ab\ncd\n");
    press(&mut editor, "xXzq0 ");
    editor.event(Event::Key(Key::Other)).unwrap();
    editor.event(Event::Key(Key::Esc)).unwrap();
    editor.event(Event::Key(Key::Backspace)).unwrap();
    editor.event(Event::Other).unwrap();
    assert_eq!(text(&editor), "ab\ncd\n");
    assert_eq!(selection(&editor), span((1, 1), (1, 1)));
    assert_eq!(mode(&editor), Mode::Normal);
    press(&mut editor, "i");
    editor.event(Event::Key(Key::Left)).unwrap();
    editor.event(Event::Other).unwrap();
    assert_eq!(selection(&editor), span((1, 1), (1, 1)));
    assert_eq!(mode(&editor), Mode::Insert);
}

#[test]
fn goto_mode_takes_one_key_and_returns_to_normal_mode() {
    let mut editor = editing("abc\ncd\n");
    press(&mut editor, "g");
    assert_eq!(mode(&editor), Mode::Goto { drag: false });
    press(&mut editor, "l");
    assert_eq!(selection(&editor), span((1, 4), (1, 4)));
    assert_eq!(mode(&editor), Mode::Normal);
    press(&mut editor, "gh");
    assert_eq!(selection(&editor), span((1, 1), (1, 1)));
    press(&mut editor, "lgj");
    assert_eq!(selection(&editor), span((2, 1), (2, 1)));
    press(&mut editor, "lgk");
    assert_eq!(selection(&editor), span((1, 1), (1, 1)));
    press(&mut editor, "lgz");
    assert_eq!(selection(&editor), span((1, 2), (1, 2)));
    assert_eq!(mode(&editor), Mode::Normal);
    press(&mut editor, "g");
    editor.event(Event::Key(Key::Esc)).unwrap();
    assert_eq!(mode(&editor), Mode::Normal);
    press(&mut editor, "g");
    editor.event(Event::Other).unwrap();
    assert_eq!(mode(&editor), Mode::Normal);
}

#[test]
fn capital_g_holds_the_anchor() {
    let mut editor = editing("abc\ncd\n");
    press(&mut editor, "lG");
    assert_eq!(mode(&editor), Mode::Goto { drag: true });
    press(&mut editor, "j");
    assert_eq!(selection(&editor), span((1, 2), (2, 1)));
    assert_eq!(mode(&editor), Mode::Normal);
    press(&mut editor, "Gl");
    assert_eq!(selection(&editor), span((1, 2), (2, 3)));
    press(&mut editor, "Gk");
    assert_eq!(selection(&editor), span((1, 2), (1, 1)));
    press(&mut editor, "Gl");
    assert_eq!(selection(&editor), span((1, 2), (1, 4)));
    press(&mut editor, "Gh");
    assert_eq!(selection(&editor), span((1, 2), (1, 1)));
}

#[test]
fn goto_mode_ends_even_where_the_cursor_cannot_go() {
    let mut editor = editing("");
    press(&mut editor, "g");
    let gone = key(&mut editor, 'j');
    assert!(matches!(gone, Err(Error::Movement(MovementError::SelectionEmpty))));
    assert_eq!(mode(&editor), Mode::Normal);
    press(&mut editor, "G");
    let gone = key(&mut editor, 'l');
    assert!(matches!(gone, Err(Error::Movement(MovementError::SelectionEmpty))));
    assert_eq!(mode(&editor), Mode::Normal);
    assert_eq!(text(&editor), "");
}

#[test]
fn backspace_removes_the_character_in_front_of_the_cursor() {
    let mut editor = editing("ab\n");
    press(&mut editor, "li");
    editor.event(Event::Key(Key::Backspace)).unwrap();
    assert_eq!(text(&editor), "b\n");
    assert_eq!(selection(&editor), span((1, 1), (1, 1)));
    assert_eq!(mode(&editor), Mode::Insert);
    let again = editor.event(Event::Key(Key::Backspace));
    assert!(matches!(again, Err(Error::Movement(MovementError::NoPrevLine))));
    assert_eq!(text(&editor), "b\n");
    assert_eq!(selection(&editor), span((1, 1), (1, 1)));
}

#[test]
fn backspace_joins_a_line_to_the_one_above() {
    let mut editor = editing("ab\ncd\n");
    press(&mut editor, "ji");
    editor.event(Event::Key(Key::Backspace)).unwrap();
    assert_eq!(text(&editor), "abcd\n");
    assert_eq!(selection(&editor), span((1, 3), (1, 3)));
}

#[test]
fn a_stale_anchor_is_validated_before_a_character_goes_in() {
    let mut editor = editing("abcdef\nx\n");
    press(&mut editor, "llllljh");
    assert_eq!(selection(&editor), span((2, 1), (2, 1)));
    press(&mut editor, "klllllj");
    assert_eq!(selection(&editor), span((2, 6), (2, 6)));
    press(&mut editor, "i");
    let typed = key(&mut editor, 'q');
    assert!(matches!(typed, Err(Error::Movement(MovementError::NoNextLine))));
    assert_eq!(text(&editor), "abcdef\nxq\n");
    assert_eq!(selection(&editor), span((2, 3), (2, 3)));
}

#[test]
fn a_stale_position_in_reach_of_the_text_takes_the_character_where_it_points() {
    let mut editor = editing("abcdef\nx\nyz\n");
    press(&mut editor, "lllj");
    assert_eq!(selection(&editor), span((2, 4), (2, 4)));
    editor.insert_char_before(WindowId(1), SelectionId(0), 'q');
    assert_eq!(text(&editor), "abcdef\nx\nyqz\n");
    assert_eq!(selection(&editor), span((2, 4), (2, 4)));
    editor.insert_char_after(WindowId(1), SelectionId(0), 'r');
    assert_eq!(text(&editor), "abcdef\nx\nyrqz\n");
}

#[test]
fn command_mode_edits_the_command_line() {
    let mut editor = Edot::new();
    press(&mut editor, ":");
    assert_eq!(mode(&editor), Mode::Command);
    press(&mut editor, "qu");
    assert_eq!(command_line(&editor), "qu");
    press(&mut editor, "\t");
    assert_eq!(command_line(&editor), "qu");
    editor.event(Event::Key(Key::Left)).unwrap();
    editor.event(Event::Other).unwrap();
    assert_eq!(command_line(&editor), "qu");
    editor.event(Event::Key(Key::Backspace)).unwrap();
    assert_eq!(command_line(&editor), "q");
    assert_eq!(mode(&editor), Mode::Command);
    editor.event(Event::Key(Key::Backspace)).unwrap();
    assert_eq!(command_line(&editor), "");
    assert_eq!(mode(&editor), Mode::Command);
    editor.event(Event::Key(Key::Backspace)).unwrap();
    assert_eq!(command_line(&editor), "");
    assert_eq!(mode(&editor), Mode::Normal);
    press(&mut editor, ":abc");
    editor.event(Event::Key(Key::Esc)).unwrap();
    assert_eq!(command_line(&editor), "");
    assert_eq!(mode(&editor), Mode::Normal);
    assert_eq!(text(&editor), "\n");
}

#[test]
fn quit_asks_the_editor_to_end() {
    for line in [":q\n", ":quit\n", ":quit now\n", ":  'q'\n"] {
        let mut editor = with_commands();
        press(&mut editor, line);
        assert_eq!(mode(&editor), Mode::Normal);
        assert_eq!(command_line(&editor), "");
        assert!(editor.take_exit_request());
        assert!(!editor.take_exit_request());
        assert!(!editor.main(Incoming::Exit));
    }
    let mut editor = with_commands();
    assert!(!editor.take_exit_request());
    editor.quit();
    assert!(editor.take_exit_request());
}

#[test]
fn edit_asks_for_a_file_and_opens_nothing_itself() {
    let mut editor = with_commands();
    press(&mut editor, ":edit missing.txt\n");
    assert_eq!(editor.window_count(), 1);
    assert_eq!(editor.buffer_count(), 1);
    assert_eq!(editor.focused(), WindowId(0));
    assert_eq!(mode(&editor), Mode::Normal);
    assert_eq!(editor.take_open_request(), Some(String::from("missing.txt")));
    assert_eq!(editor.take_open_request(), None);
    editor.show_message(Importance::Error, String::from("No such file or directory"));
    assert_eq!(editor.window_count(), 1);
    assert_eq!(editor.buffer_count(), 1);
    assert_eq!(editor.focused(), WindowId(0));
    match editor.status() {
        Status::Message(message) => assert_eq!(message, "No such file or directory"),
        other => panic!("{:?}", other),
    }
    assert_eq!(text(&editor), "\n");
}

#[test]
fn the_command_line_is_divided_by_the_rules_of_a_shell() {
    let cases = [
        (":e notes.txt\n", "notes.txt"),
        (":e 'my file.txt' other\n", "my file.txt"),
        (":edit \"a b\"c\n", "a bc"),
        (":e a\\ b\n", "a b"),
        (":e   spaced   \n", "spaced"),
    ];
    for (line, name) in cases {
        let mut editor = with_commands();
        press(&mut editor, line);
        assert_eq!(editor.take_open_request(), Some(String::from(name)));
    }
}

#[test]
fn command_lines_that_cannot_be_carried_out_are_errors() {
    let cases = [
        ("frobnicate", "command 'frobnicate' doesn't exist"),
        ("Quit", "command 'Quit' doesn't exist"),
        ("", "no command given"),
        ("   ", "no command given"),
        ("e", "too few arguments"),
        ("edit ", "too few arguments"),
        ("e 'abc", "failed to parse command 'e 'abc'"),
        ("q \"", "failed to parse command 'q \"'"),
        ("e abc\\", "failed to parse command 'e abc\\'"),
    ];
    for (line, message) in cases {
        let mut editor = with_commands();
        press(&mut editor, ":");
        press(&mut editor, line);
        assert_eq!(words(key(&mut editor, '\n')), message);
        assert_eq!(mode(&editor), Mode::Normal);
        assert_eq!(command_line(&editor), "");
        assert!(!editor.take_exit_request());
        assert_eq!(editor.take_open_request(), None);
    }
    let mut editor = Edot::new();
    press(&mut editor, ":q");
    assert_eq!(words(key(&mut editor, '\n')), "command 'q' doesn't exist");
}

#[test]
fn the_command_registered_last_under_a_name_is_found() {
    let mut editor = Edot::new();
    assert!(editor.find_command(&String::from("q")).is_none());
    editor.register::<Quit>("q");
    editor.register::<Edit>("e");
    assert_eq!(editor.find_command(&String::from("q")).unwrap().run, Handler::Quit);
    assert_eq!(editor.find_command(&String::from("e")).unwrap().run, Handler::Edit);
    assert!(editor.find_command(&String::from("qq")).is_none());
    editor.register::<Edit>("q");
    let found = editor.find_command(&String::from("q")).unwrap();
    assert_eq!(found.run, Handler::Edit);
    assert_eq!(found.description, "open a file");
    assert_eq!(found.required_arguments, 1);
    let carried = editor.cmd(&vec![String::from("q"), String::from("a.txt")]);
    assert!(carried.is_ok());
    assert_eq!(editor.take_open_request(), Some(String::from("a.txt")));
    assert!(!editor.take_exit_request());
}

#[test]
fn commands_describe_themselves() {
    let quit = CommandDesc::of::<Quit>();
    assert_eq!(quit.description, "quits the editor");
    assert_eq!(quit.required_arguments, 0);
    assert_eq!(quit.run, Handler::Quit);
    let edit = CommandDesc::of::<Edit>();
    assert_eq!(edit.description, "open a file");
    assert_eq!(edit.required_arguments, 1);
    assert_eq!(edit.run, Handler::Edit);
    assert_eq!(Quit::DESCRIPTION, "quits the editor");
    assert_eq!(Quit::REQUIRED_ARGUMENTS, 0);
    assert_eq!(Quit::HANDLER, Handler::Quit);
    assert_eq!(Edit::DESCRIPTION, "open a file");
    assert_eq!(Edit::REQUIRED_ARGUMENTS, 1);
    assert_eq!(Edit::HANDLER, Handler::Edit);
    let mut editor = Edot::new();
    let ran = Edit::run(Context { editor: &mut editor, window: WindowId(0) }, &[]);
    assert!(matches!(ran, Err(Error::TooFewArguments)));
    let ran = Quit::run(Context { editor: &mut editor, window: WindowId(0) }, &[]);
    assert!(ran.is_ok());
    assert!(editor.take_exit_request());
}

#[test]
fn errors_have_their_words() {
    assert_eq!(Error::Movement(MovementError::SelectionEmpty).message(), "selection is empty");
    assert_eq!(Error::Movement(MovementError::NoPrevLine).message(), "no previous line");
    assert_eq!(Error::Movement(MovementError::NoNextLine).message(), "no next line");
    assert_eq!(Error::Unparsed(String::from("a 'b")).message(), "failed to parse command 'a 'b'");
    assert_eq!(Error::NoCommand.message(), "no command given");
    assert_eq!(Error::UnknownCommand(String::from("w")).message(), "command 'w' doesn't exist");
    assert_eq!(Error::TooFewArguments.message(), "too few arguments");
}

#[test]
fn an_opened_file_gets_a_buffer_and_the_focused_window() {
    let mut editor = Edot::new();
    press(&mut editor, "ix");
    editor.open(String::from("notes"), PathBuf::from("/home/notes"), Rope::from_str("one\ntwo\n"));
    assert_eq!(editor.window_count(), 2);
    assert_eq!(editor.buffer_count(), 2);
    assert_eq!(editor.focused(), WindowId(1));
    let window = editor.window(WindowId(1));
    assert_eq!(window.buffer(), BufferId(1));
    assert_eq!(window.mode(), Mode::Normal);
    assert_eq!(window.selections().as_slice(), &[span((1, 1), (1, 1))]);
    let buffer = editor.buffer(BufferId(1));
    assert_eq!(buffer.name(), "notes");
    assert_eq!(buffer.path(), &Some(PathBuf::from("/home/notes")));
    assert_eq!(buffer.content().to_string(), "one\ntwo\n");
    press(&mut editor, "jd");
    assert_eq!(editor.buffer(BufferId(1)).content().to_string(), "one\nwo\n");
    assert_eq!(editor.buffer(BufferId(0)).content().to_string(), "x\n");
    assert_eq!(editor.window(WindowId(0)).mode(), Mode::Insert);
    assert_eq!(editor.window(WindowId(0)).selections()[0], span((1, 2), (1, 2)));
    assert_eq!(editor.tabs(), vec![String::from("scratch"), String::from("notes")]);
}

#[test]
fn the_status_line_shows_a_message_once_and_the_mode_otherwise() {
    let mut editor = Edot::new();
    match editor.status() {
        Status::Mode { mode, command } => {
            assert_eq!(mode, Mode::Normal);
            assert_eq!(command, None);
        },
        other => panic!("{:?}", other),
    }
    press(&mut editor, ":ab");
    match editor.status() {
        Status::Mode { mode, command } => {
            assert_eq!(mode, Mode::Command);
            assert_eq!(command, Some(String::from("ab")));
        },
        other => panic!("{:?}", other),
    }
    editor.show_message(Importance::Error, String::from("oh"));
    assert_eq!(editor.message(), &Some((Importance::Error, String::from("oh"))));
    assert!(matches!(editor.status(), Status::Message(message) if message == "oh"));
    assert!(editor.message().is_none());
    assert!(matches!(editor.status(), Status::Mode { mode: Mode::Command, .. }));
}

#[test]
fn an_error_of_an_event_becomes_the_message_and_the_editor_goes_on() {
    let mut editor = with_commands();
    assert!(editor.main(Incoming::Input(Event::Key(Key::Char('h')))));
    assert!(matches!(editor.status(), Status::Message(message) if message == "no previous line"));
    assert!(editor.main(Incoming::Input(Event::Key(Key::Char('i')))));
    assert!(editor.main(Incoming::Input(Event::Key(Key::Char('z')))));
    assert!(editor.message().is_none());
    assert_eq!(text(&editor), "z\n");
    assert!(editor.main(Incoming::Resize));
    assert_eq!(text(&editor), "z\n");
    assert!(editor.main(Incoming::Input(Event::Key(Key::Esc))));
    for c in ":nope\n".chars() {
        assert!(editor.main(Incoming::Input(Event::Key(Key::Char(c)))));
    }
    assert_eq!(
        editor.message(),
        &Some((Importance::Error, String::from("command 'nope' doesn't exist")))
    );
    for c in ":quit\n".chars() {
        assert!(editor.main(Incoming::Input(Event::Key(Key::Char(c)))));
    }
    assert!(editor.take_exit_request());
    assert!(!editor.main(Incoming::Exit));
    let mut editor = Edot::new();
    editor.report(&Error::TooFewArguments);
    assert_eq!(editor.message(), &Some((Importance::Error, String::from("too few arguments"))));
}

#[test]
fn single_selections_are_changed_by_name() {
    let mut editor = editing("ab\ncd\n");
    let window = WindowId(1);
    let first = SelectionId(0);
    assert_eq!(editor.move_selection(window, first, Movement::Right, true), Ok(()));
    assert_eq!(selection(&editor), span((1, 1), (1, 2)));
    assert_eq!(editor.shift_selection(window, first, Movement::Down), Ok(()));
    assert_eq!(selection(&editor), span((2, 1), (2, 2)));
    assert_eq!(
        editor.shift_selection(window, first, Movement::Down),
        Err(MovementError::NoNextLine)
    );
    assert_eq!(selection(&editor), span((2, 1), (2, 2)));
    editor.flip_selection(window, first);
    assert_eq!(selection(&editor), span((2, 2), (2, 1)));
    assert_eq!(
        editor.move_selection(window, first, Movement::Left, false),
        Ok(())
    );
    assert_eq!(selection(&editor), span((1, 3), (1, 3)));
    assert_eq!(editor.move_selection(window, first, Movement::Down, true), Ok(()));
    editor.flip_selection(window, first);
    assert_eq!(selection(&editor), span((2, 3), (1, 3)));
    editor.order_selection(window, first);
    assert_eq!(selection(&editor), span((1, 3), (2, 3)));
    assert_eq!(editor.delete_selection(window, first), Ok(()));
    assert_eq!(text(&editor), "ab");
    assert_eq!(selection(&editor), span((1, 2), (1, 2)));
    assert_eq!(
        editor.move_selection(window, first, Movement::Up, false),
        Err(MovementError::NoPrevLine)
    );
    assert_eq!(editor.change_selection(window, first, Change::Flip), Ok(()));
    assert_eq!(editor.change_selection(window, first, Change::TypeBefore { c: 'x' }), Ok(()));
    assert_eq!(text(&editor), "axb");
    assert_eq!(selection(&editor), span((1, 3), (1, 3)));
}

#[test]
fn the_selections_of_a_window_are_changed_together() {
    let mut editor = editing("ab\ncd\n");
    let window = WindowId(1);
    assert_eq!(editor.move_selections(window, Movement::Right, true), Ok(()));
    assert_eq!(selection(&editor), span((1, 1), (1, 2)));
    editor.flip_selections(window);
    assert_eq!(selection(&editor), span((1, 2), (1, 1)));
    editor.order_selections(window);
    assert_eq!(selection(&editor), span((1, 1), (1, 2)));
    assert_eq!(editor.shift_selections(window, Movement::Right), Ok(()));
    assert_eq!(selection(&editor), span((1, 2), (1, 3)));
    assert_eq!(editor.shift_selections(window, Movement::Up), Err(MovementError::NoPrevLine));
    assert_eq!(
        editor.for_each_selection(window, Change::Shift { movement: Movement::Down }),
        Ok(())
    );
    assert_eq!(selection(&editor), span((2, 2), (2, 3)));
    assert_eq!(
        editor.for_each_selection(window, Change::Move { movement: Movement::Down, drag: false }),
        Err(MovementError::NoNextLine)
    );
    assert_eq!(editor.change_selections(window, Change::Order), Ok(()));
    assert_eq!(editor.delete_selections(window), Ok(()));
    assert_eq!(text(&editor), "ab\nc");
    assert_eq!(selection(&editor), span((2, 1), (2, 1)));
    assert_eq!(editor.change_selections(window, Change::OpenLine), Ok(()));
    assert_eq!(text(&editor), "ab\n\nc");
    assert_eq!(selection(&editor), span((3, 1), (3, 1)));
    assert_eq!(
        editor.change_selections(window, Change::TypeAfter { c: 'x' }),
        Err(MovementError::NoNextLine)
    );
    assert_eq!(text(&editor), "ab\n\nc");
    editor.set_mode(window, Mode::Append);
    assert_eq!(mode(&editor), Mode::Append);
    assert_eq!(editor.window(WindowId(0)).mode(), Mode::Normal);
    assert_eq!(editor.buffer(BufferId(0)).content().to_string(), "\n");
}

#[test]
fn deleting_in_an_empty_buffer_fails() {
    let mut editor = editing("");
    assert!(matches!(key(&mut editor, 'd'), Err(Error::Movement(MovementError::SelectionEmpty))));
    assert!(matches!(key(&mut editor, 'c'), Err(Error::Movement(MovementError::SelectionEmpty))));
    assert_eq!(mode(&editor), Mode::Normal);
    assert_eq!(text(&editor), "");
    assert!(matches!(key(&mut editor, 'A'), Err(Error::Movement(MovementError::SelectionEmpty))));
    assert_eq!(mode(&editor), Mode::Normal);
    press(&mut editor, "i");
    assert!(matches!(key(&mut editor, 'x'), Err(Error::Movement(MovementError::NoNextLine))));
    assert_eq!(text(&editor), "x");
    assert_eq!(selection(&editor), span((1, 1), (1, 1)));
}

fn shown(row: &[Cell]) -> String {
    row.iter().map(|cell| cell.c).collect()
}

fn marked(row: &[Cell]) -> Vec<bool> {
    row.iter().map(|cell| cell.selected).collect()
}

#[test]
fn the_screen_shows_the_lines_row_by_row() {
    let mut editor = editing("ab\ncdefg\n");
    let rows = editor.screen(WindowId(1), 3, 6);
    assert_eq!(rows.len(), 6);
    assert_eq!(shown(&rows[0]), "ab\u{2424}");
    assert_eq!(shown(&rows[1]), "cde");
    assert_eq!(shown(&rows[2]), "fg\u{2424}");
    assert_eq!(shown(&rows[3]), "");
    assert_eq!(shown(&rows[4]), "");
    assert_eq!(shown(&rows[5]), "");
    assert_eq!(marked(&rows[0]), vec![true, false, false]);
    assert_eq!(marked(&rows[1]), vec![false, false, false]);
    press(&mut editor, "lLLLL");
    assert_eq!(selection(&editor), span((1, 2), (2, 3)));
    let rows = editor.screen(WindowId(1), 4, 2);
    assert_eq!(rows.len(), 2);
    assert_eq!(shown(&rows[0]), "ab\u{2424}");
    assert_eq!(shown(&rows[1]), "cdef");
    assert_eq!(marked(&rows[0]), vec![false, true, true]);
    assert_eq!(marked(&rows[1]), vec![true, true, true, false]);
    let rows = editor.screen(WindowId(1), 2, 3);
    assert_eq!(shown(&rows[0]), "ab");
    assert_eq!(shown(&rows[1]), "\u{2424}");
    assert_eq!(shown(&rows[2]), "cd");
    assert_eq!(editor.screen(WindowId(1), 80, 0).len(), 0);
    let rows = editor.screen(WindowId(1), 0, 3);
    assert_eq!(rows.len(), 3);
    assert!(rows.iter().all(|row| row.is_empty()));
    let open = editing("abc\nde");
    let rows = open.screen(WindowId(1), 2, 4);
    assert_eq!(shown(&rows[0]), "ab");
    assert_eq!(shown(&rows[1]), "c\u{2424}");
    assert_eq!(shown(&rows[2]), "de");
    assert_eq!(shown(&rows[3]), "");
    let rows = editor.screen(WindowId(0), 80, 2);
    assert_eq!(shown(&rows[0]), "\u{2424}");
    assert_eq!(marked(&rows[0]), vec![true]);
    assert_eq!(shown(&rows[1]), "");
}

#[test]
fn a_stale_selection_is_shown_where_validation_puts_it() {
    let mut editor = editing("abcdef\nx\n");
    press(&mut editor, "lllj");
    assert_eq!(selection(&editor), span((2, 4), (2, 4)));
    let rows = editor.screen(WindowId(1), 10, 2);
    assert_eq!(shown(&rows[1]), "x\u{2424}");
    assert_eq!(marked(&rows[1]), vec![false, true]);
    let window = editor.window(WindowId(1));
    let rope = editor.buffer(window.buffer()).content();
    assert!(window.is_selected(rope, at(2, 2)));
    assert!(!window.is_selected(rope, at(2, 1)));
    assert!(!window.is_selected(rope, at(2, 4)));
    let empty = Rope::from_str("");
    assert!(!window.is_selected(&empty, at(1, 1)));
}

#[test]
fn the_command_line_of_the_focused_window_is_edited_by_name() {
    let mut editor = editing("ab\n");
    editor.push_command('w');
    editor.push_command('q');
    assert_eq!(command_line(&editor), "wq");
    assert_eq!(editor.window(WindowId(0)).command(), "");
    assert_eq!(editor.pop_command(), Some('q'));
    assert_eq!(command_line(&editor), "w");
    assert_eq!(editor.take_command(), "w");
    assert_eq!(command_line(&editor), "");
    assert_eq!(editor.pop_command(), None);
    assert_eq!(command_line(&editor), "");
    editor.push_command('x');
    editor.clear_command();
    assert_eq!(command_line(&editor), "");
    assert_eq!(mode(&editor), Mode::Normal);
    assert_eq!(text(&editor), "ab\n");
}
