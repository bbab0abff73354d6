//! The input-mode state machine: decodes abstract key presses into editor
//! commands, and manages the prompt modes in which a find term or a file name
//! is being typed on the status line.

use vstd::prelude::*;
use crate::dirty::DirtyLines;
use crate::text::{line_count, EditorBuffer};

verus! {

#[derive(Debug, Clone, PartialEq, Eq, Structural)]
pub enum InputMode {
    Editing,
    Finding,
    EnteringFileNameOpen,
    EnteringFileNameSave,
}

#[derive(Debug, Clone, PartialEq, Eq, Structural)]
pub enum Command {
    Quit,
    InsertChar(char),
    MoveLeft,
    MoveRight,
    MoveUp,
    MoveDown,
    Backspace,
    InsertNewline,
    Undo,
    Redo,
    StartFind,
    ConfirmFind,
    StartOpenFile,
    ConfirmOpenFile,
    StartSaveFile,
    ConfirmSaveFile,
}

/// An abstract key, as decoded from the terminal by the input layer.
#[derive(Debug, Clone, Copy)]
pub enum Key {
    Char(char),
    Enter,
    Backspace,
    Esc,
    Left,
    Right,
    Up,
    Down,
    Other,
}

/// One key press: the key and whether the control modifier was held.
#[derive(Debug, Clone, Copy)]
pub struct KeyPress {
    pub key: Key,
    pub ctrl: bool,
}

/// The command a key press yields in editing mode.  With control held, the
/// editor's own shortcuts and arrow motions apply first; any other key falls
/// through to plain insertion, backspace or newline.
pub open spec fn editing_command(k: KeyPress) -> Option<Command> {
    if k.ctrl {
        match k.key {
            Key::Char(c) => if c == 'q' {
                Some(Command::Quit)
            } else if c == 'z' {
                Some(Command::Undo)
            } else if c == 'y' {
                Some(Command::Redo)
            } else if c == 'f' {
                Some(Command::StartFind)
            } else if c == 'o' {
                Some(Command::StartOpenFile)
            } else if c == 's' {
                Some(Command::StartSaveFile)
            } else {
                Some(Command::InsertChar(c))
            },
            Key::Left => Some(Command::MoveLeft),
            Key::Right => Some(Command::MoveRight),
            Key::Up => Some(Command::MoveUp),
            Key::Down => Some(Command::MoveDown),
            Key::Backspace => Some(Command::Backspace),
            Key::Enter => Some(Command::InsertNewline),
            _ => None,
        }
    } else {
        match k.key {
            Key::Backspace => Some(Command::Backspace),
            Key::Enter => Some(Command::InsertNewline),
            Key::Char(c) => Some(Command::InsertChar(c)),
            _ => None,
        }
    }
}

/// Relies on String::push: appends one character to the string.
#[verifier::external_body]
fn string_push(s: &mut String, c: char)
    ensures
        final(s)@ == old(s)@.push(c),
{
    s.push(c);
}

/// Relies on String::pop: removes and returns the last character, if any.
#[verifier::external_body]
fn string_pop(s: &mut String) -> (r: Option<char>)
    ensures
        old(s)@.len() == 0 ==> final(s)@ == old(s)@ && r is None,
        old(s)@.len() > 0 ==> final(s)@ == old(s)@.drop_last() && r == Some(old(s)@.last()),
{
    s.pop()
}

/// The mode state owned by the input layer and read by the renderer: the
/// current mode and the in-progress prompt texts.
pub struct InputHandler {
    pub mode: InputMode,
    pub filename_input: String,
    pub find_input: String,
    pub confirmed_find_term: Option<String>,
}

impl InputHandler {
    pub fn new() -> (r: Self)
        ensures
            r.mode == InputMode::Editing,
            r.filename_input@ == Seq::<char>::empty(),
            r.find_input@ == Seq::<char>::empty(),
            r.confirmed_find_term is None,
    {
        InputHandler {
            mode: InputMode::Editing,
            filename_input: String::new(),
            find_input: String::new(),
            confirmed_find_term: None,
        }
    }

    pub fn get_mode(&self) -> (r: &InputMode)
        ensures
            *r == self.mode,
    {
        &self.mode
    }

    /// Applies one key press in the current mode.  In editing mode the
    /// handler is untouched and the press decodes to a command (or to none).
    /// In the prompt modes the press edits the in-progress text, aborts the
    /// prompt, or confirms it, yielding the corresponding confirm command.
    pub fn process_key(&mut self, k: KeyPress) -> (r: Option<Command>)
        ensures
            ({
                let pre = *old(self);
                let post = *final(self);
                match pre.mode {
                    InputMode::Editing => post == pre && r == editing_command(k),
                    InputMode::Finding => match k.key {
                        Key::Esc => post.mode == InputMode::Editing
                            && post.confirmed_find_term is None && post.find_input
                            == pre.find_input && post.filename_input == pre.filename_input
                            && r is None,
                        Key::Enter => post.mode == InputMode::Editing && (if pre.find_input@.len()
                            > 0 {
                            post.confirmed_find_term == Some(pre.find_input)
                        } else {
                            post.confirmed_find_term is None
                        }) && post.find_input == pre.find_input && post.filename_input
                            == pre.filename_input && r == Some(Command::ConfirmFind),
                        Key::Backspace => post.mode == pre.mode && post.find_input@ == (if pre
                            .find_input@.len() > 0 {
                            pre.find_input@.drop_last()
                        } else {
                            pre.find_input@
                        }) && post.filename_input == pre.filename_input
                            && post.confirmed_find_term == pre.confirmed_find_term && r is None,
                        Key::Char(c) => post.mode == pre.mode && post.find_input@
                            == pre.find_input@.push(c) && post.filename_input
                            == pre.filename_input && post.confirmed_find_term
                            == pre.confirmed_find_term && r is None,
                        _ => post == pre && r is None,
                    },
                    InputMode::EnteringFileNameOpen => match k.key {
                        Key::Esc => post.mode == InputMode::Editing && post.filename_input
                            == pre.filename_input && post.find_input == pre.find_input
                            && post.confirmed_find_term == pre.confirmed_find_term && r is None,
                        Key::Enter => post.mode == InputMode::Editing && post.filename_input
                            == pre.filename_input && post.find_input == pre.find_input
                            && post.confirmed_find_term == pre.confirmed_find_term && r == Some(
                            Command::ConfirmOpenFile,
                        ),
                        Key::Backspace => post.mode == pre.mode && post.filename_input@ == (if pre
                            .filename_input@.len() > 0 {
                            pre.filename_input@.drop_last()
                        } else {
                            pre.filename_input@
                        }) && post.find_input == pre.find_input && post.confirmed_find_term
                            == pre.confirmed_find_term && r is None,
                        Key::Char(c) => post.mode == pre.mode && post.filename_input@
                            == pre.filename_input@.push(c) && post.find_input == pre.find_input
                            && post.confirmed_find_term == pre.confirmed_find_term && r is None,
                        _ => post == pre && r is None,
                    },
                    InputMode::EnteringFileNameSave => match k.key {
                        Key::Esc => post.mode == InputMode::Editing && post.filename_input
                            == pre.filename_input && post.find_input == pre.find_input
                            && post.confirmed_find_term == pre.confirmed_find_term && r is None,
                        Key::Enter => post.mode == InputMode::Editing && post.filename_input
                            == pre.filename_input && post.find_input == pre.find_input
                            && post.confirmed_find_term == pre.confirmed_find_term && r == Some(
                            Command::ConfirmSaveFile,
                        ),
                        Key::Backspace => post.mode == pre.mode && post.filename_input@ == (if pre
                            .filename_input@.len() > 0 {
                            pre.filename_input@.drop_last()
                        } else {
                            pre.filename_input@
                        }) && post.find_input == pre.find_input && post.confirmed_find_term
                            == pre.confirmed_find_term && r is None,
                        Key::Char(c) => post.mode == pre.mode && post.filename_input@
                            == pre.filename_input@.push(c) && post.find_input == pre.find_input
                            && post.confirmed_find_term == pre.confirmed_find_term && r is None,
                        _ => post == pre && r is None,
                    },
                }
            }),
    {
        match self.mode {
            InputMode::Editing => {
                if k.ctrl {
                    match k.key {
                        Key::Char(c) => {
                            if c == 'q' {
                                return Some(Command::Quit);
                            } else if c == 'z' {
                                return Some(Command::Undo);
                            } else if c == 'y' {
                                return Some(Command::Redo);
                            } else if c == 'f' {
                                return Some(Command::StartFind);
                            } else if c == 'o' {
                                return Some(Command::StartOpenFile);
                            } else if c == 's' {
                                return Some(Command::StartSaveFile);
                            } else {
                                return Some(Command::InsertChar(c));
                            }
                        },
                        Key::Left => return Some(Command::MoveLeft),
                        Key::Right => return Some(Command::MoveRight),
                        Key::Up => return Some(Command::MoveUp),
                        Key::Down => return Some(Command::MoveDown),
                        Key::Backspace => return Some(Command::Backspace),
                        Key::Enter => return Some(Command::InsertNewline),
                        _ => return None,
                    }
                }
                match k.key {
                    Key::Backspace => Some(Command::Backspace),
                    Key::Enter => Some(Command::InsertNewline),
                    Key::Char(c) => Some(Command::InsertChar(c)),
                    _ => None,
                }
            },
            InputMode::Finding => {
                match k.key {
                    Key::Esc => {
                        self.confirmed_find_term = None;
                        self.mode = InputMode::Editing;
                        None
                    },
                    Key::Enter => {
                        if !self.find_input.as_str().is_empty() {
                            self.confirmed_find_term = Some(self.find_input.clone());
                        } else {
                            self.confirmed_find_term = None;
                        }
                        self.mode = InputMode::Editing;
                        Some(Command::ConfirmFind)
                    },
                    Key::Backspace => {
                        let _ = string_pop(&mut self.find_input);
                        None
                    },
                    Key::Char(c) => {
                        string_push(&mut self.find_input, c);
                        None
                    },
                    _ => None,
                }
            },
            InputMode::EnteringFileNameOpen => {
                match k.key {
                    Key::Esc => {
                        self.mode = InputMode::Editing;
                        None
                    },
                    Key::Enter => {
                        self.mode = InputMode::Editing;
                        Some(Command::ConfirmOpenFile)
                    },
                    Key::Backspace => {
                        let _ = string_pop(&mut self.filename_input);
                        None
                    },
                    Key::Char(c) => {
                        string_push(&mut self.filename_input, c);
                        None
                    },
                    _ => None,
                }
            },
            InputMode::EnteringFileNameSave => {
                match k.key {
                    Key::Esc => {
                        self.mode = InputMode::Editing;
                        None
                    },
                    Key::Enter => {
                        self.mode = InputMode::Editing;
                        Some(Command::ConfirmSaveFile)
                    },
                    Key::Backspace => {
                        let _ = string_pop(&mut self.filename_input);
                        None
                    },
                    Key::Char(c) => {
                        string_push(&mut self.filename_input, c);
                        None
                    },
                    _ => None,
                }
            },
        }
    }

    /// Enters find mode with a fresh term and no active highlight.
    pub fn start_find(&mut self)
        ensures
            final(self).mode == InputMode::Finding,
            final(self).find_input@ == Seq::<char>::empty(),
            final(self).confirmed_find_term is None,
            final(self).filename_input == old(self).filename_input,
    {
        self.mode = InputMode::Finding;
        self.find_input = String::new();
        self.confirmed_find_term = None;
    }

    /// Enters the open-file prompt with an empty file name.
    pub fn start_open_file(&mut self)
        ensures
            final(self).mode == InputMode::EnteringFileNameOpen,
            final(self).filename_input@ == Seq::<char>::empty(),
            final(self).find_input == old(self).find_input,
            final(self).confirmed_find_term == old(self).confirmed_find_term,
    {
        self.mode = InputMode::EnteringFileNameOpen;
        self.filename_input = String::new();
    }

    /// Enters the save-file prompt with an empty file name.
    pub fn start_save_file(&mut self)
        ensures
            final(self).mode == InputMode::EnteringFileNameSave,
            final(self).filename_input@ == Seq::<char>::empty(),
            final(self).find_input == old(self).find_input,
            final(self).confirmed_find_term == old(self).confirmed_find_term,
    {
        self.mode = InputMode::EnteringFileNameSave;
        self.filename_input = String::new();
    }

    /// Confirms the typed find term: a non-empty term becomes the active
    /// highlight and every line of the document is marked for repaint; an
    /// empty term clears the highlight.  Either way the editor returns to
    /// editing mode.
    pub fn confirm_find(&mut self, buffer: &EditorBuffer, dirty: &mut DirtyLines)
        ensures
            final(self).mode == InputMode::Editing,
            final(self).filename_input == old(self).filename_input,
            final(self).find_input == old(self).find_input,
            old(self).find_input@.len() == 0 ==> final(self).confirmed_find_term is None
                && final(dirty)@ == old(dirty)@,
            old(self).find_input@.len() > 0 ==> final(self).confirmed_find_term == Some(
                old(self).find_input,
            ) && final(dirty)@ == old(dirty)@.union(
                Set::new(|x: usize| x < line_count(buffer@)),
            ),
    {
        if self.find_input.as_str().is_empty() {
            self.confirmed_find_term = None;
        } else {
            self.confirmed_find_term = Some(self.find_input.clone());
            let total = buffer.len_lines();
            dirty.mark_range(0, total);
            proof {
                assert(Set::new(|x: usize| 0 <= x < total) =~= Set::new(
                    |x: usize| x < line_count(buffer@),
                ));
            }
        }
        self.mode = InputMode::Editing;
    }

    /// The file name to open, if one was typed.
    pub fn confirm_open_file(&mut self) -> (r: Option<String>)
        ensures
            *final(self) == *old(self),
            old(self).filename_input@.len() == 0 ==> r is None,
            old(self).filename_input@.len() > 0 ==> r == Some(old(self).filename_input),
    {
        if self.filename_input.as_str().is_empty() {
            None
        } else {
            Some(self.filename_input.clone())
        }
    }

    /// The file name to save to, if one was typed.
    pub fn confirm_save_file(&mut self) -> (r: Option<String>)
        ensures
            *final(self) == *old(self),
            old(self).filename_input@.len() == 0 ==> r is None,
            old(self).filename_input@.len() > 0 ==> r == Some(old(self).filename_input),
    {
        if self.filename_input.as_str().is_empty() {
            None
        } else {
            Some(self.filename_input.clone())
        }
    }
}

} // verus!
