use rusty::input::{Command, InputHandler, InputMode, Key, KeyPress};

fn ctrl(key: Key) -> KeyPress {
    KeyPress { key, ctrl: true }
}

fn plain(key: Key) -> KeyPress {
    KeyPress { key, ctrl: false }
}

#[test]
fn editing_mode_decodes_shortcuts() {
    let mut h = InputHandler::new();
    assert_eq!(h.process_key(ctrl(Key::Char('q'))), Some(Command::Quit));
    assert_eq!(h.process_key(ctrl(Key::Char('z'))), Some(Command::Undo));
    assert_eq!(h.process_key(ctrl(Key::Char('y'))), Some(Command::Redo));
    assert_eq!(h.process_key(ctrl(Key::Char('f'))), Some(Command::StartFind));
    assert_eq!(h.process_key(ctrl(Key::Char('o'))), Some(Command::StartOpenFile));
    assert_eq!(h.process_key(ctrl(Key::Char('s'))), Some(Command::StartSaveFile));
    assert_eq!(h.process_key(ctrl(Key::Left)), Some(Command::MoveLeft));
    assert_eq!(h.process_key(ctrl(Key::Right)), Some(Command::MoveRight));
    assert_eq!(h.process_key(ctrl(Key::Up)), Some(Command::MoveUp));
    assert_eq!(h.process_key(ctrl(Key::Down)), Some(Command::MoveDown));
    assert_eq!(*h.get_mode(), InputMode::Editing);
}

#[test]
fn editing_mode_decodes_plain_keys() {
    let mut h = InputHandler::new();
    assert_eq!(h.process_key(plain(Key::Char('a'))), Some(Command::InsertChar('a')));
    assert_eq!(h.process_key(plain(Key::Enter)), Some(Command::InsertNewline));
    assert_eq!(h.process_key(plain(Key::Backspace)), Some(Command::Backspace));
    assert_eq!(h.process_key(plain(Key::Esc)), None);
    assert_eq!(h.process_key(plain(Key::Left)), None); // arrows need control
}

#[test]
fn editing_mode_control_falls_through_to_insert() {
    let mut h = InputHandler::new();
    assert_eq!(h.process_key(ctrl(Key::Char('x'))), Some(Command::InsertChar('x')));
    assert_eq!(h.process_key(ctrl(Key::Backspace)), Some(Command::Backspace));
    assert_eq!(h.process_key(ctrl(Key::Enter)), Some(Command::InsertNewline));
}

#[test]
fn find_mode_collects_term_and_confirms() {
    let mut h = InputHandler::new();
    h.start_find();
    assert_eq!(*h.get_mode(), InputMode::Finding);
    assert_eq!(h.process_key(plain(Key::Char('a'))), None);
    assert_eq!(h.process_key(plain(Key::Char('b'))), None);
    assert_eq!(h.process_key(plain(Key::Backspace)), None);
    assert_eq!(h.find_input, "a");
    assert_eq!(h.process_key(plain(Key::Enter)), Some(Command::ConfirmFind));
    assert_eq!(*h.get_mode(), InputMode::Editing);
    assert_eq!(h.confirmed_find_term, Some("a".to_string()));
}

#[test]
fn find_mode_escape_cancels() {
    let mut h = InputHandler::new();
    h.start_find();
    h.process_key(plain(Key::Char('a')));
    assert_eq!(h.process_key(plain(Key::Esc)), None);
    assert_eq!(*h.get_mode(), InputMode::Editing);
    assert_eq!(h.confirmed_find_term, None);
}

#[test]
fn find_mode_empty_term_confirms_no_highlight() {
    let mut h = InputHandler::new();
    h.start_find();
    assert_eq!(h.process_key(plain(Key::Enter)), Some(Command::ConfirmFind));
    assert_eq!(h.confirmed_find_term, None);
}

#[test]
fn open_file_prompt_collects_name() {
    let mut h = InputHandler::new();
    h.start_open_file();
    assert_eq!(*h.get_mode(), InputMode::EnteringFileNameOpen);
    h.process_key(plain(Key::Char('f')));
    h.process_key(plain(Key::Char('x')));
    h.process_key(plain(Key::Backspace));
    assert_eq!(h.process_key(plain(Key::Enter)), Some(Command::ConfirmOpenFile));
    assert_eq!(*h.get_mode(), InputMode::Editing);
    assert_eq!(h.confirm_open_file(), Some("f".to_string()));
}

#[test]
fn save_file_prompt_collects_name() {
    let mut h = InputHandler::new();
    h.start_save_file();
    assert_eq!(*h.get_mode(), InputMode::EnteringFileNameSave);
    h.process_key(plain(Key::Char('p')));
    assert_eq!(h.process_key(plain(Key::Enter)), Some(Command::ConfirmSaveFile));
    assert_eq!(h.confirm_save_file(), Some("p".to_string()));
}

#[test]
fn empty_filename_confirms_to_none() {
    let mut h = InputHandler::new();
    h.start_open_file();
    h.process_key(plain(Key::Enter));
    assert_eq!(h.confirm_open_file(), None);
    h.start_save_file();
    h.process_key(plain(Key::Esc)); // abort: back to editing, name empty
    assert_eq!(h.confirm_save_file(), None);
}
