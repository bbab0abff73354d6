//! The editor state and the command loop's logic: one state struct owns the
//! buffer, history, input mode, viewport, dirty set and render cache, and a
//! single function applies one command to it, keeping all of them mutually
//! consistent.  What remains outside is only I/O: reading keys, writing rows,
//! and reading or writing files on request.

use vstd::prelude::*;
use vstd::string::StringExecFns;
use crate::dirty::DirtyLines;
use crate::history::{
    action_redo, action_undo, op_redo_cursor, op_undo_cursor, recorded, redo_marks, undo_marks,
    ActionModel, EditOp, UndoRedoStacks,
};
use crate::input::{Command, InputHandler, InputMode};
use crate::render::{intended_row, Renderer, RowPaint};
use crate::text::{
    lemma_line_of_start, lemma_line_start_bounds, lemma_line_start_mono, lemma_newline_count_mono,
    line_count, line_of, line_start, remove_span, EditorBuffer,
};
use crate::viewport::ViewportModel;

verus! {

/// What the caller must do after a command: nothing, quit the loop, or
/// perform file I/O on the given path and report back.
#[derive(Debug)]
pub enum IoRequest {
    Noop,
    Quit,
    Open(String),
    Save(String),
}

/// The length of line `l`, including its trailing line break if it has one.
pub open spec fn line_len(s: Seq<char>, l: int) -> int {
    line_start(s, l + 1) - line_start(s, l)
}

/// A column clamped onto a line: at most one before the line's end, so the
/// cursor never lands past the line break.
pub open spec fn clamp_col(col: int, len: int) -> int {
    let limit = if len >= 1 {
        len - 1
    } else {
        0
    };
    if col <= limit {
        col
    } else {
        limit
    }
}

/// The cursor after moving up one line, keeping the column where possible.
pub open spec fn cursor_after_up(s: Seq<char>, c: int) -> int {
    let l = line_of(s, c) as int;
    if l == 0 {
        c
    } else {
        line_start(s, l - 1) + clamp_col(c - line_start(s, l), line_len(s, l - 1))
    }
}

/// The cursor after moving down one line, keeping the column where possible.
pub open spec fn cursor_after_down(s: Seq<char>, c: int) -> int {
    let l = line_of(s, c) as int;
    if l + 1 < line_count(s) {
        line_start(s, l + 1) + clamp_col(c - line_start(s, l), line_len(s, l + 1))
    } else {
        c
    }
}

/// The status line shown under the text area: the active prompt and its
/// in-progress text, or empty in plain editing mode.
pub open spec fn status_spec(mode: InputMode, filename: Seq<char>, find: Seq<char>) -> Seq<char> {
    match mode {
        InputMode::Editing => Seq::empty(),
        InputMode::Finding => "Find: "@ + find,
        InputMode::EnteringFileNameOpen => "Open file: "@ + filename,
        InputMode::EnteringFileNameSave => "Save file: "@ + filename,
    }
}

/// The rows that must repaint this frame: what the edits dirtied, plus the
/// whole window after a scroll.
pub open spec fn frame_dirty(d: Set<usize>, scrolled: bool, vr: int, ml: int) -> Set<usize> {
    if scrolled {
        d.union(Set::new(|x: usize| vr <= x < vr + ml))
    } else {
        d
    }
}

/// Relies on char::to_string: a string holding exactly that character.
#[verifier::external_body]
fn char_to_string(c: char) -> (r: String)
    ensures
        r@ == seq![c],
{
    c.to_string()
}

/// One frame's worth of output: the rows that changed and must be written,
/// and where the hardware cursor belongs, in text-area coordinates.
pub struct Frame {
    pub writes: Vec<RowPaint>,
    pub cursor_row: usize,
    pub cursor_col: usize,
    pub status: String,
}

/// The whole editor state, owned by the command loop and passed by exclusive
/// mutable reference into each operation.
pub struct EditorState {
    buffer: EditorBuffer,
    history: UndoRedoStacks,
    /// Mode state: readable and steppable by the input layer directly.
    pub input: InputHandler,
    cursor: usize,
    viewport: ViewportModel,
    renderer: Renderer,
    dirty: DirtyLines,
}

impl EditorState {
    /// The buffer text.
    pub closed spec fn content(&self) -> Seq<char> {
        self.buffer@
    }

    /// The cursor, as a character offset into the text.
    pub closed spec fn cursor_at(&self) -> int {
        self.cursor as int
    }

    /// The first visible line.
    pub closed spec fn viewport_first(&self) -> int {
        self.viewport.viewport_row as int
    }

    /// The visible line capacity.
    pub closed spec fn visible_lines(&self) -> int {
        self.viewport.max_lines as int
    }

    pub closed spec fn undo_model(&self) -> Seq<ActionModel> {
        self.history.undo_model()
    }

    pub closed spec fn redo_model(&self) -> Seq<ActionModel> {
        self.history.redo_model()
    }

    /// The lines awaiting repaint.
    pub closed spec fn dirty_set(&self) -> Set<usize> {
        self.dirty@
    }

    /// The render cache: what stands on each screen row.
    pub closed spec fn screen(&self) -> Seq<Seq<char>> {
        self.renderer.screen()
    }

    pub closed spec fn input_state(&self) -> InputHandler {
        self.input
    }

    /// All components are mutually consistent: the cursor is inside the text,
    /// every stacked history action replays against the current text, and the
    /// render cache matches the window size.
    pub closed spec fn wf(&self) -> bool {
        &&& self.cursor <= self.buffer@.len()
        &&& self.buffer@.len() < usize::MAX
        &&& self.history.wf(self.buffer@)
        &&& self.viewport.max_lines >= 1
        &&& self.viewport.viewport_row + self.viewport.max_lines <= usize::MAX
        &&& self.renderer.wf()
        &&& self.renderer.max_lines == self.viewport.max_lines
    }

    /// A fresh editor over an empty document, with every visible row marked
    /// for the first paint.
    pub fn new(max_lines: usize) -> (r: Self)
        requires
            max_lines >= 1,
        ensures
            r.wf(),
            r.content() == Seq::<char>::empty(),
            r.cursor_at() == 0,
            r.viewport_first() == 0,
            r.visible_lines() == max_lines,
            r.undo_model().len() == 0,
            r.redo_model().len() == 0,
            r.dirty_set() == Set::new(|x: usize| x < max_lines),
            r.input_state().mode == InputMode::Editing,
            r.input_state().confirmed_find_term is None,
    {
        let mut dirty = DirtyLines::new();
        dirty.mark_range(0, max_lines);
        proof {
            assert(dirty@ =~= Set::new(|x: usize| x < max_lines));
        }
        let r = EditorState {
            buffer: EditorBuffer::new(),
            history: UndoRedoStacks::new(),
            input: InputHandler::new(),
            cursor: 0,
            viewport: ViewportModel::new(max_lines),
            renderer: Renderer::new(max_lines),
            dirty,
        };
        r
    }

    pub fn cursor(&self) -> (r: usize)
        ensures
            r == self.cursor_at(),
    {
        self.cursor
    }

    pub fn viewport_row(&self) -> (r: usize)
        ensures
            r == self.viewport_first(),
    {
        self.viewport.viewport_row
    }

    pub fn max_lines(&self) -> (r: usize)
        ensures
            r == self.visible_lines(),
    {
        self.viewport.max_lines
    }

    /// The whole text as an owned string.
    pub fn text(&self) -> (r: String)
        ensures
            r@ == self.content(),
    {
        self.buffer.text()
    }

    pub fn undo_depth(&self) -> (r: usize)
        ensures
            r == self.undo_model().len(),
    {
        self.history.undo_depth()
    }

    pub fn redo_depth(&self) -> (r: usize)
        ensures
            r == self.redo_model().len(),
    {
        self.history.redo_depth()
    }

    /// The number of operations in the most recent undo action; 0 when the
    /// undo stack is empty.
    pub fn last_action_len(&self) -> (r: usize)
        ensures
            r == if self.undo_model().len() == 0 {
                0int
            } else {
                self.undo_model().last().ops.len() as int
            },
    {
        self.history.last_action_len()
    }

    /// Replaces the document wholesale: the new text, cursor and viewport at
    /// the start, history discarded, and the whole window marked for repaint.
    pub fn load_text(&mut self, text: &str)
        requires
            old(self).wf(),
        ensures
            final(self).wf(),
            final(self).content() == text@,
            final(self).cursor_at() == 0,
            final(self).viewport_first() == 0,
            final(self).visible_lines() == old(self).visible_lines(),
            final(self).undo_model().len() == 0,
            final(self).redo_model().len() == 0,
            final(self).dirty_set() == old(self).dirty_set().union(
                Set::new(|x: usize| x < old(self).visible_lines()),
            ),
            final(self).input_state() == old(self).input_state(),
            final(self).screen() == old(self).screen(),
    {
        self.buffer = EditorBuffer::from_text(text);
        self.cursor = 0;
        self.viewport.viewport_row = 0;
        self.history = UndoRedoStacks::new();
        let ml = self.viewport.max_lines;
        self.dirty.mark_range(0, ml);
        proof {
            assert(self.dirty@ =~= old(self).dirty@.union(
                Set::new(|x: usize| x < old(self).visible_lines()),
            ));
        }
    }

    /// The status/prompt line for the current mode.
    pub fn status_line(&self) -> (r: String)
        ensures
            r@ == status_spec(
                self.input_state().mode,
                self.input_state().filename_input@,
                self.input_state().find_input@,
            ),
    {
        match self.input.mode {
            InputMode::Editing => String::new(),
            InputMode::Finding => String::from_str("Find: ").concat(self.input.find_input.as_str()),
            InputMode::EnteringFileNameOpen => String::from_str("Open file: ").concat(
                self.input.filename_input.as_str(),
            ),
            InputMode::EnteringFileNameSave => String::from_str("Save file: ").concat(
                self.input.filename_input.as_str(),
            ),
        }
    }

    /// Applies one editing command to the state: mutating the buffer, recording
    /// the inverse into the history, moving the cursor, and marking the
    /// affected lines dirty happen together, so buffer, history and renderer
    /// never diverge.  Commands that need file I/O or loop control return the
    /// request; the state itself is not changed by them until the caller
    /// reports back (see [`Self::load_text`]).  Every command is handled, on
    /// every document and cursor position, without panicking.
    #[verifier::spinoff_prover]
    #[verifier::rlimit(60)]
    pub fn apply_command(&mut self, cmd: Command, now: u64) -> (req: IoRequest)
        requires
            old(self).wf(),
        ensures
            final(self).wf(),
            final(self).visible_lines() == old(self).visible_lines(),
            final(self).viewport_first() == old(self).viewport_first(),
            final(self).screen() == old(self).screen(),
            ({
                let s = old(self).content();
                let c = old(self).cursor_at();
                let post = *final(self);
                let pre = *old(self);
                match cmd {
                    Command::Quit => req is Quit && post.content() == s && post.cursor_at() == c
                        && post.undo_model() == pre.undo_model() && post.redo_model()
                        == pre.redo_model() && post.dirty_set() == pre.dirty_set()
                        && post.input_state() == pre.input_state(),
                    Command::InsertChar(ch) => req is Noop && post.input_state()
                        == pre.input_state() && (if s.len() < usize::MAX - 1 {
                        &&& post.content() == s.insert(c, ch)
                        &&& post.cursor_at() == c + 1
                        &&& exists|op: EditOp|
                            (#[trigger] op_is_insert(op, c, seq![ch])) && post.undo_model()
                                == recorded(pre.undo_model(), op, now)
                        &&& post.redo_model().len() == 0
                        &&& post.dirty_set() == pre.dirty_set().insert(
                            line_of(post.content(), c + 1) as usize,
                        )
                    } else {
                        post.content() == s && post.cursor_at() == c && post.undo_model()
                            == pre.undo_model() && post.redo_model() == pre.redo_model()
                            && post.dirty_set() == pre.dirty_set()
                    }),
                    Command::InsertNewline => req is Noop && post.input_state()
                        == pre.input_state() && (if s.len() < usize::MAX - 1 {
                        &&& post.content() == s.insert(c, '\n')
                        &&& post.cursor_at() == c + 1
                        &&& exists|op: EditOp|
                            (#[trigger] op_is_insert(op, c, seq!['\n'])) && post.undo_model()
                                == recorded(pre.undo_model(), op, now)
                        &&& post.redo_model().len() == 0
                        &&& post.dirty_set() == pre.dirty_set().insert(
                            line_of(post.content(), c) as usize,
                        ).insert((line_of(post.content(), c) + 1) as usize)
                    } else {
                        post.content() == s && post.cursor_at() == c && post.undo_model()
                            == pre.undo_model() && post.redo_model() == pre.redo_model()
                            && post.dirty_set() == pre.dirty_set()
                    }),
                    Command::Backspace => req is Noop && post.input_state() == pre.input_state()
                        && (if c > 0 {
                        &&& post.content() == remove_span(s, c - 1, c)
                        &&& post.cursor_at() == c - 1
                        &&& exists|op: EditOp|
                            (#[trigger] op_is_delete(op, c - 1, s.subrange(c - 1, c)))
                                && post.undo_model() == recorded(pre.undo_model(), op, now)
                        &&& post.redo_model().len() == 0
                        &&& post.dirty_set() == pre.dirty_set().insert(
                            line_of(post.content(), c - 1) as usize,
                        )
                    } else {
                        post.content() == s && post.cursor_at() == c && post.undo_model()
                            == pre.undo_model() && post.redo_model() == pre.redo_model()
                            && post.dirty_set() == pre.dirty_set()
                    }),
                    Command::MoveLeft => req is Noop && unchanged_but_cursor(pre, post)
                        && post.cursor_at() == (if c > 0 {
                        c - 1
                    } else {
                        c
                    }),
                    Command::MoveRight => req is Noop && unchanged_but_cursor(pre, post)
                        && post.cursor_at() == (if c < s.len() {
                        c + 1
                    } else {
                        c
                    }),
                    Command::MoveUp => req is Noop && unchanged_but_cursor(pre, post)
                        && post.cursor_at() == cursor_after_up(s, c),
                    Command::MoveDown => req is Noop && unchanged_but_cursor(pre, post)
                        && post.cursor_at() == cursor_after_down(s, c),
                    Command::Undo => req is Noop && post.input_state() == pre.input_state() && (
                    if pre.undo_model().len() == 0 {
                        post.content() == s && post.cursor_at() == c && post.undo_model()
                            == pre.undo_model() && post.redo_model() == pre.redo_model()
                            && post.dirty_set() == pre.dirty_set()
                    } else {
                        let act = pre.undo_model().last();
                        &&& post.content() == action_undo(s, act.ops)
                        &&& post.undo_model() == pre.undo_model().drop_last()
                        &&& post.redo_model() == pre.redo_model().push(act)
                        &&& post.cursor_at() == op_undo_cursor(act.ops.first())
                        &&& post.dirty_set() == pre.dirty_set().union(undo_marks(s, act.ops))
                    }),
                    Command::Redo => req is Noop && post.input_state() == pre.input_state() && (
                    if pre.redo_model().len() == 0 {
                        post.content() == s && post.cursor_at() == c && post.undo_model()
                            == pre.undo_model() && post.redo_model() == pre.redo_model()
                            && post.dirty_set() == pre.dirty_set()
                    } else {
                        let act = pre.redo_model().last();
                        &&& post.content() == action_redo(s, act.ops)
                        &&& post.redo_model() == pre.redo_model().drop_last()
                        &&& post.undo_model() == pre.undo_model().push(act)
                        &&& post.cursor_at() == op_redo_cursor(act.ops.last())
                        &&& post.dirty_set() == pre.dirty_set().union(redo_marks(s, act.ops))
                    }),
                    Command::StartFind => req is Noop && unchanged_edit_state(pre, post)
                        && post.input_state().mode == InputMode::Finding && post.input_state()
                        .find_input@ == Seq::<char>::empty() && post.input_state()
                        .confirmed_find_term is None,
                    Command::ConfirmFind => req is Noop && post.content() == s && post.cursor_at()
                        == c && post.undo_model() == pre.undo_model() && post.redo_model()
                        == pre.redo_model() && post.input_state().mode == InputMode::Editing && (
                    if pre.input_state().find_input@.len() == 0 {
                        post.input_state().confirmed_find_term is None && post.dirty_set()
                            == pre.dirty_set()
                    } else {
                        post.input_state().confirmed_find_term == Some(
                            pre.input_state().find_input,
                        ) && post.dirty_set() == pre.dirty_set().union(
                            Set::new(|x: usize| x < line_count(s)),
                        )
                    }),
                    Command::StartOpenFile => req is Noop && unchanged_edit_state(pre, post)
                        && post.input_state().mode == InputMode::EnteringFileNameOpen
                        && post.input_state().filename_input@ == Seq::<char>::empty(),
                    Command::StartSaveFile => req is Noop && unchanged_edit_state(pre, post)
                        && post.input_state().mode == InputMode::EnteringFileNameSave
                        && post.input_state().filename_input@ == Seq::<char>::empty(),
                    Command::ConfirmOpenFile => unchanged_edit_state(pre, post)
                        && post.input_state() == pre.input_state() && (if pre.input_state()
                        .filename_input@.len() == 0 {
                        req is Noop
                    } else {
                        req == IoRequest::Open(pre.input_state().filename_input)
                    }),
                    Command::ConfirmSaveFile => unchanged_edit_state(pre, post)
                        && post.input_state() == pre.input_state() && (if pre.input_state()
                        .filename_input@.len() == 0 {
                        req is Noop
                    } else {
                        req == IoRequest::Save(pre.input_state().filename_input)
                    }),
                }
            }),
    {
        match cmd {
            Command::Quit => IoRequest::Quit,
            Command::InsertChar(ch) => {
                self.insert_at_cursor(ch, now);
                IoRequest::Noop
            },
            Command::InsertNewline => {
                let ghost pre = *self;
                let len = self.buffer.len_chars();
                if len < usize::MAX - 1 {
                    let ghost s = self.buffer@;
                    let c = self.cursor;
                    self.buffer.insert_char(c, '\n');
                    let content = char_to_string('\n');
                    let ghost op = EditOp::Insert { char_idx: c, content: content };
                    self.history.add_insert(c, content, now);
                    proof {
                        assert(op == (EditOp::Insert { char_idx: c, content }));
                        assert(op_is_insert(op, c as int, seq!['\n']));
                        lemma_insert_records(s, self.buffer@, pre.history.undo_model(), c, '\n', op, now);
                        assert(self.history.undo_model() == recorded(
                            pre.history.undo_model(),
                            op,
                            now,
                        ));
                    }
                    let curr_line = self.buffer.char_to_line(c);
                    proof {
                        crate::text::lemma_newline_count_le(self.buffer@, c as int);
                    }
                    self.dirty.insert(curr_line);
                    self.dirty.insert(curr_line + 1);
                    self.cursor = c + 1;
                }
                IoRequest::Noop
            },
            Command::Backspace => {
                if self.cursor > 0 {
                    let ghost pre = *self;
                    let ghost s = self.buffer@;
                    let del_start = self.cursor - 1;
                    let content = self.buffer.slice(del_start, self.cursor);
                    let ghost op = EditOp::Delete { char_idx: del_start, content: content };
                    self.buffer.remove(del_start, 1);
                    self.cursor = del_start;
                    self.history.add_delete(del_start, content, now);
                    proof {
                        assert(op == (EditOp::Delete { char_idx: del_start, content }));
                        assert(op_is_delete(op, del_start as int, s.subrange(del_start as int, del_start + 1)));
                        lemma_delete_records(
                            s,
                            self.buffer@,
                            pre.history.undo_model(),
                            del_start,
                            op,
                            now,
                        );
                        assert(self.history.undo_model() == recorded(
                            pre.history.undo_model(),
                            op,
                            now,
                        ));
                    }
                    let line = self.buffer.char_to_line(self.cursor);
                    self.dirty.insert(line);
                }
                IoRequest::Noop
            },
            Command::MoveLeft => {
                if self.cursor > 0 {
                    self.cursor = self.cursor - 1;
                }
                IoRequest::Noop
            },
            Command::MoveRight => {
                let len = self.buffer.len_chars();
                if self.cursor < len {
                    self.cursor = self.cursor + 1;
                }
                IoRequest::Noop
            },
            Command::MoveUp => {
                let ghost s = self.buffer@;
                let current_line = self.buffer.char_to_line(self.cursor);
                if current_line > 0 {
                    proof {
                        lemma_line_of_start(s, self.cursor as int);
                        lemma_newline_count_mono(s, self.cursor as int, s.len() as int);
                        lemma_line_start_bounds(s, current_line as int - 1);
                        lemma_line_start_bounds(s, current_line as int);
                        lemma_line_start_mono(s, current_line as int - 1, current_line as int);
                    }
                    let line_start_idx = self.buffer.line_to_char(current_line);
                    let col = self.cursor - line_start_idx;
                    let target = current_line - 1;
                    let tstart = self.buffer.line_to_char(target);
                    let tnext = self.buffer.line_to_char(target + 1);
                    let tlen = tnext - tstart;
                    let limit = if tlen >= 1 {
                        tlen - 1
                    } else {
                        0
                    };
                    let new_col = if col <= limit {
                        col
                    } else {
                        limit
                    };
                    self.cursor = tstart + new_col;
                }
                IoRequest::Noop
            },
            Command::MoveDown => {
                let ghost s = self.buffer@;
                let current_line = self.buffer.char_to_line(self.cursor);
                let total = self.buffer.len_lines();
                if current_line < total - 1 {
                    proof {
                        lemma_line_of_start(s, self.cursor as int);
                        lemma_line_start_bounds(s, current_line as int + 1);
                        lemma_line_start_bounds(s, current_line as int + 2);
                        lemma_line_start_mono(s, current_line as int + 1, current_line as int + 2);
                    }
                    let line_start_idx = self.buffer.line_to_char(current_line);
                    let col = self.cursor - line_start_idx;
                    let target = current_line + 1;
                    let tstart = self.buffer.line_to_char(target);
                    let tnext = self.buffer.line_to_char(target + 1);
                    let tlen = tnext - tstart;
                    let limit = if tlen >= 1 {
                        tlen - 1
                    } else {
                        0
                    };
                    let new_col = if col <= limit {
                        col
                    } else {
                        limit
                    };
                    self.cursor = tstart + new_col;
                }
                IoRequest::Noop
            },
            Command::Undo => {
                self.history.undo(&mut self.buffer, &mut self.cursor, &mut self.dirty);
                IoRequest::Noop
            },
            Command::Redo => {
                self.history.redo(&mut self.buffer, &mut self.cursor, &mut self.dirty);
                IoRequest::Noop
            },
            Command::StartFind => {
                self.input.start_find();
                IoRequest::Noop
            },
            Command::ConfirmFind => {
                self.input.confirm_find(&self.buffer, &mut self.dirty);
                IoRequest::Noop
            },
            Command::StartOpenFile => {
                self.input.start_open_file();
                IoRequest::Noop
            },
            Command::StartSaveFile => {
                self.input.start_save_file();
                IoRequest::Noop
            },
            Command::ConfirmOpenFile => {
                match self.input.confirm_open_file() {
                    Some(path) => IoRequest::Open(path),
                    None => IoRequest::Noop,
                }
            },
            Command::ConfirmSaveFile => {
                match self.input.confirm_save_file() {
                    Some(path) => IoRequest::Save(path),
                    None => IoRequest::Noop,
                }
            },
        }
    }

    fn insert_at_cursor(&mut self, ch: char, now: u64)
        requires
            old(self).wf(),
        ensures
            final(self).wf(),
            final(self).visible_lines() == old(self).visible_lines(),
            final(self).viewport_first() == old(self).viewport_first(),
            final(self).screen() == old(self).screen(),
            final(self).input_state() == old(self).input_state(),
            ({
                let s = old(self).content();
                let c = old(self).cursor_at();
                let post = *final(self);
                let pre = *old(self);
                if s.len() < usize::MAX - 1 {
                    &&& post.content() == s.insert(c, ch)
                    &&& post.cursor_at() == c + 1
                    &&& exists|op: EditOp|
                        (#[trigger] op_is_insert(op, c, seq![ch])) && post.undo_model()
                            == recorded(pre.undo_model(), op, now)
                    &&& post.redo_model().len() == 0
                    &&& post.dirty_set() == pre.dirty_set().insert(
                        line_of(post.content(), c + 1) as usize,
                    )
                } else {
                    post.content() == s && post.cursor_at() == c && post.undo_model()
                        == pre.undo_model() && post.redo_model() == pre.redo_model()
                        && post.dirty_set() == pre.dirty_set()
                }
            }),
    {
        let ghost pre = *self;
        let len = self.buffer.len_chars();
        if len < usize::MAX - 1 {
            let ghost s = self.buffer@;
            let c = self.cursor;
            self.buffer.insert_char(c, ch);
            let content = char_to_string(ch);
            let ghost op = EditOp::Insert { char_idx: c, content: content };
            self.history.add_insert(c, content, now);
            proof {
                assert(op == (EditOp::Insert { char_idx: c, content }));
                assert(op_is_insert(op, c as int, seq![ch]));
                lemma_insert_records(s, self.buffer@, pre.history.undo_model(), c, ch, op, now);
                assert(self.history.undo_model() == recorded(pre.history.undo_model(), op, now));
            }
            self.cursor = c + 1;
            let line = self.buffer.char_to_line(self.cursor);
            self.dirty.insert(line);
        }
    }

    /// One render pass: scrolls the viewport to keep the cursor visible
    /// (invalidating the whole window if it moved), paints the dirty rows, and
    /// reports the changed rows together with the cursor's screen position and
    /// the status line.  Afterwards the dirty set is empty, and the line
    /// containing the cursor lies inside the viewport.
    pub fn prepare_frame(&mut self) -> (f: Frame)
        requires
            old(self).wf(),
        ensures
            final(self).wf(),
            final(self).content() == old(self).content(),
            final(self).cursor_at() == old(self).cursor_at(),
            final(self).undo_model() == old(self).undo_model(),
            final(self).redo_model() == old(self).redo_model(),
            final(self).input_state() == old(self).input_state(),
            final(self).visible_lines() == old(self).visible_lines(),
            final(self).dirty_set() == Set::<usize>::empty(),
            // the viewport invariant: the cursor's line is visible
            final(self).viewport_first() <= line_of(old(self).content(), old(self).cursor_at()),
            line_of(old(self).content(), old(self).cursor_at()) < final(self).viewport_first()
                + final(self).visible_lines(),
            // the cursor's screen position, in text-area coordinates
            f.cursor_row == line_of(old(self).content(), old(self).cursor_at())
                - final(self).viewport_first(),
            f.cursor_col == old(self).cursor_at() - line_start(
                old(self).content(),
                line_of(old(self).content(), old(self).cursor_at()) as int,
            ),
            f.status@ == status_spec(
                old(self).input_state().mode,
                old(self).input_state().filename_input@,
                old(self).input_state().find_input@,
            ),
            // the render cache reflects what each repainted row must show and
            // is untouched elsewhere
            ({
                let eff = frame_dirty(
                    old(self).dirty_set(),
                    final(self).viewport_first() != old(self).viewport_first(),
                    final(self).viewport_first(),
                    final(self).visible_lines(),
                );
                let vr = final(self).viewport_first();
                let s = old(self).content();
                &&& forall|r: int|
                    0 <= r < final(self).visible_lines() ==> final(self).screen()[r] == (if eff
                        .contains((vr + r) as usize) {
                        intended_row(s, vr + r)
                    } else {
                        old(self).screen()[r]
                    })
                &&& forall|k: int|
                    0 <= k < f.writes@.len() ==> {
                        let w = (#[trigger] f.writes@[k]);
                        &&& w.row < final(self).visible_lines()
                        &&& eff.contains((vr + w.row) as usize)
                        &&& w.gutter@ + w.content@ == intended_row(s, vr + w.row)
                        &&& old(self).screen()[w.row as int] != intended_row(s, vr + w.row)
                    }
                &&& forall|r: int|
                    0 <= r < final(self).visible_lines() && eff.contains((vr + r) as usize) && old(
                        self,
                    ).screen()[r] != intended_row(s, vr + r) ==> exists|k: int|
                        0 <= k < f.writes@.len() && (#[trigger] f.writes@[k]).row == r
                // with nothing dirty and no scroll, nothing is written
                &&& (old(self).dirty_set() == Set::<usize>::empty() && final(self).viewport_first()
                    == old(self).viewport_first()) ==> f.writes@.len() == 0
            }),
    {
        let ghost s = self.buffer@;
        proof {
            lemma_newline_count_mono(s, self.cursor as int, s.len() as int);
        }
        let current_line = self.buffer.char_to_line(self.cursor);
        proof {
            crate::text::lemma_newline_count_le(s, self.cursor as int);
        }
        let scrolled = self.viewport.reconcile(current_line);
        if scrolled {
            let vr = self.viewport.viewport_row;
            let ml = self.viewport.max_lines;
            proof {
                // the scrolled window ends at most one past the cursor's line,
                // or below where it already ended
                assert(vr + ml <= usize::MAX);
            }
            self.dirty.mark_range(vr, vr + ml);
        }
        proof {
            assert(self.dirty@ =~= frame_dirty(
                old(self).dirty@,
                self.viewport.viewport_row != old(self).viewport.viewport_row,
                self.viewport.viewport_row as int,
                self.viewport.max_lines as int,
            ));
        }
        let ghost pre_paint_dirty = self.dirty@;
        let ghost pre_screen = self.renderer.screen();
        let writes = self.renderer.paint(&self.buffer, &mut self.dirty, self.viewport.viewport_row);
        let cursor_row = current_line - self.viewport.viewport_row;
        proof {
            lemma_line_of_start(s, self.cursor as int);
        }
        let ls = self.buffer.line_to_char(current_line);
        let cursor_col = self.cursor - ls;
        let status = self.status_line();
        let f = Frame { writes, cursor_row, cursor_col, status };
        proof {
            let eff = frame_dirty(
                old(self).dirty_set(),
                self.viewport_first() != old(self).viewport_first(),
                self.viewport_first(),
                self.visible_lines(),
            );
            assert(eff == pre_paint_dirty);
            let vr = self.viewport_first();
            assert forall|r: int|
                0 <= r < self.visible_lines() && eff.contains((vr + r) as usize) && old(
                    self,
                ).screen()[r] != intended_row(s, vr + r) implies exists|k: int|
                0 <= k < f.writes@.len() && (#[trigger] f.writes@[k]).row == r by {
                assert(pre_paint_dirty.contains((self.viewport.viewport_row + r) as usize));
                assert(pre_screen[r] != intended_row(s, self.viewport.viewport_row + r));
                let k = choose|k: int|
                    0 <= k < f.writes@.len() && (#[trigger] f.writes@[k]).row == r;
                assert(f.writes@[k].row == r);
            }
        }
        f
    }
}

/// `op` is an insertion of exactly `t` at offset `at`.
pub open spec fn op_is_insert(op: EditOp, at: int, t: Seq<char>) -> bool {
    match op {
        EditOp::Insert { char_idx, content } => char_idx == at && content@ == t,
        _ => false,
    }
}

/// `op` is a deletion of exactly `t` at offset `at`.
pub open spec fn op_is_delete(op: EditOp, at: int, t: Seq<char>) -> bool {
    match op {
        EditOp::Delete { char_idx, content } => char_idx == at && content@ == t,
        _ => false,
    }
}

/// Only the cursor moved: text, history, dirty set and mode state are as
/// they were.
pub open spec fn unchanged_but_cursor(pre: EditorState, post: EditorState) -> bool {
    &&& post.content() == pre.content()
    &&& post.undo_model() == pre.undo_model()
    &&& post.redo_model() == pre.redo_model()
    &&& post.dirty_set() == pre.dirty_set()
    &&& post.input_state() == pre.input_state()
}

/// Text, cursor, history and dirty set are as they were; only the mode state
/// may differ.
pub open spec fn unchanged_edit_state(pre: EditorState, post: EditorState) -> bool {
    &&& post.content() == pre.content()
    &&& post.cursor_at() == pre.cursor_at()
    &&& post.undo_model() == pre.undo_model()
    &&& post.redo_model() == pre.redo_model()
    &&& post.dirty_set() == pre.dirty_set()
}

/// Recording the one-character insertion that just happened leaves the
/// history consistent with the buffer.
proof fn lemma_insert_records(
    s_pre: Seq<char>,
    s_post: Seq<char>,
    stack: Seq<ActionModel>,
    at: usize,
    ch: char,
    op: EditOp,
    now: u64,
)
    requires
        crate::history::undo_stack_ok(s_pre, stack),
        at <= s_pre.len(),
        s_pre.len() + 1 < usize::MAX,
        s_post == s_pre.insert(at as int, ch),
        op_is_insert(op, at as int, seq![ch]),
    ensures
        crate::history::undo_stack_ok(s_post, recorded(stack, op, now)),
{
    match op {
        EditOp::Insert { char_idx, content } => {
            assert(s_post.subrange(at as int, at as int + 1) =~= seq![ch]);
            assert(s_post.len() == s_pre.len() + 1);
            assert(crate::history::op_applied_ok(s_post, op));
            assert(crate::history::op_undo(s_post, op) =~= s_pre);
            crate::history::lemma_record_wf(s_pre, s_post, stack, op, now);
        },
        _ => {
            assert(false);
        },
    }
}

/// Recording the one-character deletion that just happened leaves the
/// history consistent with the buffer.
proof fn lemma_delete_records(
    s_pre: Seq<char>,
    s_post: Seq<char>,
    stack: Seq<ActionModel>,
    at: usize,
    op: EditOp,
    now: u64,
)
    requires
        crate::history::undo_stack_ok(s_pre, stack),
        at < s_pre.len(),
        s_pre.len() < usize::MAX,
        s_post == remove_span(s_pre, at as int, at as int + 1),
        op_is_delete(op, at as int, s_pre.subrange(at as int, at as int + 1)),
    ensures
        crate::history::undo_stack_ok(s_post, recorded(stack, op, now)),
{
    match op {
        EditOp::Delete { char_idx, content } => {
            assert(s_post.len() == s_pre.len() - 1);
            assert(content@.len() == 1);
            assert(crate::history::op_applied_ok(s_post, op));
            assert(crate::history::op_undo(s_post, op) =~= s_pre);
            crate::history::lemma_record_wf(s_pre, s_post, stack, op, now);
        },
        _ => {
            assert(false);
        },
    }
}

} // verus!
