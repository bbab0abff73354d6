use rusty::dirty::DirtyLines;
use rusty::history::{UndoRedoStacks, GROUP_TIME_THRESHOLD_MS};
use rusty::text::EditorBuffer;

#[test]
fn undo_on_empty_stack_is_a_noop() {
    let mut ur = UndoRedoStacks::new();
    let mut buffer = EditorBuffer::from_text("abc");
    let mut cursor: usize = 2;
    let mut dirty = DirtyLines::new();
    ur.undo(&mut buffer, &mut cursor, &mut dirty);
    assert_eq!(buffer.text(), "abc");
    assert_eq!(cursor, 2);
    assert!(dirty.is_empty());
    assert_eq!(ur.undo_depth(), 0);
    assert_eq!(ur.redo_depth(), 0);
}

#[test]
fn redo_on_empty_stack_is_a_noop() {
    let mut ur = UndoRedoStacks::new();
    let mut buffer = EditorBuffer::from_text("abc");
    let mut cursor: usize = 1;
    let mut dirty = DirtyLines::new();
    ur.redo(&mut buffer, &mut cursor, &mut dirty);
    assert_eq!(buffer.text(), "abc");
    assert_eq!(cursor, 1);
    assert!(dirty.is_empty());
    assert_eq!(ur.undo_depth(), 0);
    assert_eq!(ur.redo_depth(), 0);
}

#[test]
fn single_insert_undo_restores_prior_text_and_cursor() {
    let mut ur = UndoRedoStacks::new();
    let mut buffer = EditorBuffer::new();
    buffer.insert(0, "x");
    ur.add_insert(0, "x".to_string(), 0);
    let mut cursor: usize = 1;
    let mut dirty = DirtyLines::new();
    ur.undo(&mut buffer, &mut cursor, &mut dirty);
    assert_eq!(buffer.text(), "");
    assert_eq!(cursor, 0);
    assert_eq!(ur.undo_depth(), 0);
    assert_eq!(ur.redo_depth(), 1);
}

#[test]
fn undo_of_delete_reinserts_entire_removed_string() {
    let mut ur = UndoRedoStacks::new();
    let mut buffer = EditorBuffer::from_text("hello");
    let removed = buffer.slice(1, 4);
    assert_eq!(removed, "ell");
    buffer.remove(1, 3);
    assert_eq!(buffer.text(), "ho");
    ur.add_delete(1, removed, 0);
    let mut cursor: usize = 1;
    let mut dirty = DirtyLines::new();
    ur.undo(&mut buffer, &mut cursor, &mut dirty);
    assert_eq!(buffer.text(), "hello");
    assert_eq!(cursor, 4); // end of the restored string
}

#[test]
fn redo_restores_post_action_text_exactly() {
    let mut ur = UndoRedoStacks::new();
    let mut buffer = EditorBuffer::from_text("ab");
    buffer.insert(1, "XYZ");
    ur.add_insert(1, "XYZ".to_string(), 0);
    let mut cursor: usize = 4;
    let mut dirty = DirtyLines::new();
    ur.undo(&mut buffer, &mut cursor, &mut dirty);
    assert_eq!(buffer.text(), "ab");
    ur.redo(&mut buffer, &mut cursor, &mut dirty);
    assert_eq!(buffer.text(), "aXYZb");
    assert_eq!(cursor, 4); // end of the reinserted string
    assert_eq!(ur.undo_depth(), 1);
    assert_eq!(ur.redo_depth(), 0);
}

#[test]
fn multi_char_insert_redo_keeps_order() {
    // replaying an insertion forward must not reverse the string
    let mut ur = UndoRedoStacks::new();
    let mut buffer = EditorBuffer::new();
    buffer.insert(0, "abc");
    ur.add_insert(0, "abc".to_string(), 0);
    let mut cursor: usize = 3;
    let mut dirty = DirtyLines::new();
    ur.undo(&mut buffer, &mut cursor, &mut dirty);
    assert_eq!(buffer.text(), "");
    ur.redo(&mut buffer, &mut cursor, &mut dirty);
    assert_eq!(buffer.text(), "abc");
}

#[test]
fn two_inserts_within_window_coalesce_into_one_action() {
    // typing "x" at offset 0 twice within the window: one action, two ops
    let mut ur = UndoRedoStacks::new();
    let mut buffer = EditorBuffer::new();
    buffer.insert_char(0, 'x');
    ur.add_insert(0, "x".to_string(), 0);
    buffer.insert_char(0, 'x');
    ur.add_insert(0, "x".to_string(), GROUP_TIME_THRESHOLD_MS - 1);
    assert_eq!(ur.undo_depth(), 1);
    assert_eq!(ur.last_action_len(), 2);
    let mut cursor: usize = 2;
    let mut dirty = DirtyLines::new();
    ur.undo(&mut buffer, &mut cursor, &mut dirty);
    assert_eq!(buffer.text(), "");
    assert_eq!(cursor, 0);
}

#[test]
fn inserts_past_window_make_separate_actions() {
    let mut ur = UndoRedoStacks::new();
    let mut buffer = EditorBuffer::new();
    buffer.insert_char(0, 'a');
    ur.add_insert(0, "a".to_string(), 0);
    buffer.insert_char(1, 'b');
    ur.add_insert(1, "b".to_string(), GROUP_TIME_THRESHOLD_MS);
    assert_eq!(ur.undo_depth(), 2);
    assert_eq!(ur.last_action_len(), 1);
    let mut cursor: usize = 2;
    let mut dirty = DirtyLines::new();
    ur.undo(&mut buffer, &mut cursor, &mut dirty);
    assert_eq!(buffer.text(), "a");
    ur.undo(&mut buffer, &mut cursor, &mut dirty);
    assert_eq!(buffer.text(), "");
}

#[test]
fn recording_an_edit_clears_the_redo_stack() {
    let mut ur = UndoRedoStacks::new();
    let mut buffer = EditorBuffer::new();
    buffer.insert_char(0, 'a');
    ur.add_insert(0, "a".to_string(), 0);
    let mut cursor: usize = 1;
    let mut dirty = DirtyLines::new();
    ur.undo(&mut buffer, &mut cursor, &mut dirty);
    assert_eq!(ur.redo_depth(), 1);
    buffer.insert_char(0, 'z');
    ur.add_insert(0, "z".to_string(), 10 * GROUP_TIME_THRESHOLD_MS);
    assert_eq!(ur.redo_depth(), 0);
}

#[test]
fn mixed_action_undoes_in_reverse_order() {
    // one coalesced action: insert "ab", then delete "b"; undo restores start
    let mut ur = UndoRedoStacks::new();
    let mut buffer = EditorBuffer::from_text("Q");
    buffer.insert(0, "ab");
    ur.add_insert(0, "ab".to_string(), 0);
    let removed = buffer.slice(1, 2);
    buffer.remove(1, 1);
    ur.add_delete(1, removed, 10);
    assert_eq!(buffer.text(), "aQ");
    assert_eq!(ur.undo_depth(), 1);
    assert_eq!(ur.last_action_len(), 2);
    let mut cursor: usize = 1;
    let mut dirty = DirtyLines::new();
    ur.undo(&mut buffer, &mut cursor, &mut dirty);
    assert_eq!(buffer.text(), "Q");
    ur.redo(&mut buffer, &mut cursor, &mut dirty);
    assert_eq!(buffer.text(), "aQ");
}

#[test]
fn undo_marks_touched_lines_dirty() {
    let mut ur = UndoRedoStacks::new();
    let mut buffer = EditorBuffer::from_text("one\ntwo\nthree");
    buffer.insert(8, "X");
    ur.add_insert(8, "X".to_string(), 0);
    let mut cursor: usize = 9;
    let mut dirty = DirtyLines::new();
    ur.undo(&mut buffer, &mut cursor, &mut dirty);
    assert!(dirty.contains(2)); // offset 8 sits on line 2 after the undo
    assert!(!dirty.contains(0));
}
