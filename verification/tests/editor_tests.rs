use rusty::editor::{EditorState, IoRequest};
use rusty::history::GROUP_TIME_THRESHOLD_MS;
use rusty::input::{Command, Key, KeyPress};

const WINDOW: u64 = GROUP_TIME_THRESHOLD_MS;

fn type_text(ed: &mut EditorState, text: &str, start: u64) -> u64 {
    let mut t = start;
    for ch in text.chars() {
        let cmd = if ch == '\n' {
            Command::InsertNewline
        } else {
            Command::InsertChar(ch)
        };
        ed.apply_command(cmd, t);
        t += 1;
    }
    t
}

#[test]
fn scenario_insert_backspace_undo() {
    // empty buffer; insert "hello\nworld"
    let mut ed = EditorState::new(10);
    type_text(&mut ed, "hello\nworld", 0);
    assert_eq!(ed.text(), "hello\nworld");
    assert_eq!(ed.cursor(), 11);
    let frame = ed.prepare_frame();
    assert_eq!(frame.cursor_row, 1); // line 1 visible at viewport row 1
    assert_eq!(frame.cursor_col, 5);

    // backspace once, past the coalescing window
    ed.apply_command(Command::Backspace, 10 * WINDOW);
    assert_eq!(ed.text(), "hello\nworl");
    let frame = ed.prepare_frame();
    assert_eq!(frame.cursor_row, 1);
    assert_eq!(frame.cursor_col, 4);

    // undo restores the text and the cursor index
    ed.apply_command(Command::Undo, 20 * WINDOW);
    assert_eq!(ed.text(), "hello\nworld");
    assert_eq!(ed.cursor(), 11);

    // save then open: reloading the same content clears history and cursor
    let saved = ed.text();
    ed.load_text(&saved);
    assert_eq!(ed.text(), "hello\nworld");
    assert_eq!(ed.undo_depth(), 0);
    assert_eq!(ed.redo_depth(), 0);
    assert_eq!(ed.cursor(), 0);
}

#[test]
fn scenario_two_coalesced_inserts_undo_together() {
    let mut ed = EditorState::new(5);
    ed.apply_command(Command::InsertChar('x'), 0);
    ed.apply_command(Command::InsertChar('x'), WINDOW - 1);
    assert_eq!(ed.text(), "xx");
    assert_eq!(ed.undo_depth(), 1);
    assert_eq!(ed.last_action_len(), 2);
    ed.apply_command(Command::Undo, 2 * WINDOW);
    assert_eq!(ed.text(), "");
    assert_eq!(ed.cursor(), 0);
}

#[test]
fn typing_abc_coalesces_but_a_pause_splits() {
    let mut ed = EditorState::new(5);
    ed.apply_command(Command::InsertChar('a'), 0);
    ed.apply_command(Command::InsertChar('b'), 50);
    ed.apply_command(Command::InsertChar('c'), 100);
    assert_eq!(ed.undo_depth(), 1);
    ed.apply_command(Command::Undo, 1000);
    assert_eq!(ed.text(), "");

    let mut ed2 = EditorState::new(5);
    ed2.apply_command(Command::InsertChar('a'), 0);
    ed2.apply_command(Command::InsertChar('b'), WINDOW);
    assert_eq!(ed2.undo_depth(), 2);
    ed2.apply_command(Command::Undo, 2 * WINDOW);
    assert_eq!(ed2.text(), "a");
}

#[test]
fn undo_then_redo_round_trip() {
    let mut ed = EditorState::new(5);
    type_text(&mut ed, "abc", 0);
    ed.apply_command(Command::Backspace, 10 * WINDOW);
    assert_eq!(ed.text(), "ab");
    ed.apply_command(Command::Undo, 20 * WINDOW);
    assert_eq!(ed.text(), "abc");
    ed.apply_command(Command::Undo, 30 * WINDOW);
    assert_eq!(ed.text(), "");
    ed.apply_command(Command::Redo, 40 * WINDOW);
    assert_eq!(ed.text(), "abc");
    ed.apply_command(Command::Redo, 50 * WINDOW);
    assert_eq!(ed.text(), "ab");
    assert_eq!(ed.redo_depth(), 0);
}

#[test]
fn undo_with_empty_history_leaves_editor_alone() {
    let mut ed = EditorState::new(5);
    type_text(&mut ed, "ab", 0);
    let before = ed.text();
    let cursor = ed.cursor();
    // exhaust the undo stack, then undo twice more
    ed.apply_command(Command::Undo, 10 * WINDOW);
    assert_eq!(ed.text(), "");
    ed.apply_command(Command::Undo, 11 * WINDOW);
    ed.apply_command(Command::Undo, 12 * WINDOW);
    assert_eq!(ed.text(), "");
    assert_eq!(ed.redo_depth(), 1);
    // and redo brings the text back
    ed.apply_command(Command::Redo, 13 * WINDOW);
    assert_eq!(ed.text(), before);
    assert_eq!(ed.cursor(), cursor);
    // redo on an exhausted redo stack is a no-op too
    ed.apply_command(Command::Redo, 14 * WINDOW);
    assert_eq!(ed.text(), before);
}

#[test]
fn cursor_motion_clamps_to_line_ends() {
    let mut ed = EditorState::new(5);
    type_text(&mut ed, "ab\nlong", 0);
    assert_eq!(ed.cursor(), 7);
    // up from "long" column 4 clamps onto "ab\n" before its newline
    ed.apply_command(Command::MoveUp, 1000);
    assert_eq!(ed.cursor(), 2);
    // down returns into "long", keeping column 2
    ed.apply_command(Command::MoveDown, 1001);
    assert_eq!(ed.cursor(), 5);
    ed.apply_command(Command::MoveLeft, 1002);
    assert_eq!(ed.cursor(), 4);
    ed.apply_command(Command::MoveRight, 1003);
    assert_eq!(ed.cursor(), 5);
}

#[test]
fn cursor_motion_at_document_edges_is_safe() {
    let mut ed = EditorState::new(5);
    ed.apply_command(Command::MoveLeft, 0);
    ed.apply_command(Command::MoveUp, 1);
    ed.apply_command(Command::MoveDown, 2);
    ed.apply_command(Command::MoveRight, 3);
    assert_eq!(ed.cursor(), 0);
    ed.apply_command(Command::Backspace, 4);
    assert_eq!(ed.text(), "");
    type_text(&mut ed, "a", 10);
    ed.apply_command(Command::MoveRight, 11);
    assert_eq!(ed.cursor(), 1); // already at the end
}

#[test]
fn viewport_follows_cursor_down_and_up() {
    let mut ed = EditorState::new(3);
    type_text(&mut ed, "a\nb\nc\nd\ne", 0);
    let frame = ed.prepare_frame();
    // cursor on line 4 with 3 visible rows: window is [2, 5)
    assert_eq!(ed.viewport_row(), 2);
    assert_eq!(frame.cursor_row, 2);
    // move to the top: the window scrolls back up
    for t in 0..4 {
        ed.apply_command(Command::MoveUp, 1000 + t);
    }
    ed.prepare_frame();
    assert_eq!(ed.viewport_row(), 0);
}

#[test]
fn scrolling_repaints_the_whole_window() {
    let mut ed = EditorState::new(2);
    type_text(&mut ed, "a\nb\nc", 0);
    let frame = ed.prepare_frame();
    assert_eq!(ed.viewport_row(), 1);
    assert_eq!(frame.writes.len(), 2);
    // a second frame with no changes writes nothing
    let frame = ed.prepare_frame();
    assert_eq!(frame.writes.len(), 0);
}

#[test]
fn quit_and_file_requests_surface_to_the_caller() {
    let mut ed = EditorState::new(5);
    assert!(matches!(ed.apply_command(Command::Quit, 0), IoRequest::Quit));
    ed.input.process_key(KeyPress { key: Key::Char('s'), ctrl: true });
    ed.apply_command(Command::StartSaveFile, 1);
    ed.input.process_key(KeyPress { key: Key::Char('p'), ctrl: false });
    match ed.apply_command(Command::ConfirmSaveFile, 2) {
        IoRequest::Save(path) => assert_eq!(path, "p"),
        other => panic!("expected a save request, got {:?}", other),
    }
    ed.apply_command(Command::StartOpenFile, 3);
    match ed.apply_command(Command::ConfirmOpenFile, 4) {
        IoRequest::Noop => {},
        other => panic!("expected no request for an empty name, got {:?}", other),
    }
}

#[test]
fn confirm_find_highlights_and_status_line() {
    let mut ed = EditorState::new(5);
    type_text(&mut ed, "abc", 0);
    ed.apply_command(Command::StartFind, 1000);
    ed.input.process_key(KeyPress { key: Key::Char('b'), ctrl: false });
    assert_eq!(ed.status_line(), "Find: b");
    ed.apply_command(Command::ConfirmFind, 1001);
    assert_eq!(ed.input.confirmed_find_term, Some("b".to_string()));
    assert_eq!(ed.status_line(), "");
}

#[test]
fn status_line_shows_prompts() {
    let mut ed = EditorState::new(5);
    assert_eq!(ed.status_line(), "");
    ed.apply_command(Command::StartOpenFile, 0);
    ed.input.process_key(KeyPress { key: Key::Char('f'), ctrl: false });
    assert_eq!(ed.status_line(), "Open file: f");
    ed.input.process_key(KeyPress { key: Key::Esc, ctrl: false });
    ed.apply_command(Command::StartSaveFile, 1);
    assert_eq!(ed.status_line(), "Save file: ");
}

#[test]
fn newline_marks_both_lines_dirty_and_moves_cursor() {
    let mut ed = EditorState::new(5);
    type_text(&mut ed, "ab", 0);
    ed.prepare_frame();
    ed.apply_command(Command::MoveLeft, 1000);
    ed.apply_command(Command::InsertNewline, 2000);
    assert_eq!(ed.text(), "a\nb");
    assert_eq!(ed.cursor(), 2);
    let frame = ed.prepare_frame();
    // both the split line and the one after it repaint
    assert_eq!(frame.writes.len(), 2);
}

#[test]
fn viewport_stays_at_top_for_short_documents() {
    let mut ed = EditorState::new(10);
    type_text(&mut ed, "a\nb\nc", 0);
    ed.prepare_frame();
    assert_eq!(ed.viewport_row(), 0);
    ed.apply_command(Command::MoveUp, 1000);
    ed.prepare_frame();
    assert_eq!(ed.viewport_row(), 0);
}

#[test]
fn load_text_resets_viewport_and_marks_window() {
    let mut ed = EditorState::new(2);
    type_text(&mut ed, "a\nb\nc\nd", 0);
    ed.prepare_frame();
    assert_eq!(ed.viewport_row(), 2);
    ed.load_text("fresh");
    assert_eq!(ed.viewport_row(), 0);
    assert_eq!(ed.cursor(), 0);
    let frame = ed.prepare_frame();
    assert_eq!(frame.writes.len(), 2); // the whole window repaints
}

#[test]
fn empty_document_paints_first_line_and_placeholders() {
    let mut ed = EditorState::new(3);
    let frame = ed.prepare_frame();
    assert_eq!(frame.writes.len(), 3);
    assert_eq!(frame.cursor_row, 0);
    assert_eq!(frame.cursor_col, 0);
    assert_eq!(frame.status, "");
}
