use rusty::text::EditorBuffer;

#[test]
fn empty_buffer_basics() {
    let b = EditorBuffer::new();
    assert_eq!(b.len_chars(), 0);
    assert_eq!(b.len_lines(), 1);
    assert_eq!(b.text(), "");
    assert_eq!(b.char_to_line(0), 0);
    assert_eq!(b.line_to_char(0), 0);
    assert_eq!(b.line_content(0), "");
}

#[test]
fn from_text_lengths_and_lines() {
    let b = EditorBuffer::from_text("hello\nworld");
    assert_eq!(b.len_chars(), 11);
    assert_eq!(b.len_lines(), 2);
    assert_eq!(b.char_to_line(0), 0);
    assert_eq!(b.char_to_line(5), 0); // the newline belongs to the line it ends
    assert_eq!(b.char_to_line(6), 1);
    assert_eq!(b.char_to_line(11), 1); // one past the end is the last line
    assert_eq!(b.line_to_char(0), 0);
    assert_eq!(b.line_to_char(1), 6);
    assert_eq!(b.line_to_char(2), 11); // one past the last line is the text end
}

#[test]
fn line_and_line_content() {
    let b = EditorBuffer::from_text("hello\nworld");
    assert_eq!(b.line(0), "hello\n");
    assert_eq!(b.line(1), "world");
    assert_eq!(b.line_content(0), "hello");
    assert_eq!(b.line_content(1), "world");
}

#[test]
fn trailing_newline_makes_empty_last_line() {
    let b = EditorBuffer::from_text("abc\n");
    assert_eq!(b.len_lines(), 2);
    assert_eq!(b.line_content(0), "abc");
    assert_eq!(b.line_content(1), "");
    assert_eq!(b.line_to_char(1), 4);
}

#[test]
fn insert_and_remove_by_char_offset() {
    let mut b = EditorBuffer::from_text("hello");
    b.insert_char(5, '!');
    assert_eq!(b.text(), "hello!");
    b.insert(0, ">> ");
    assert_eq!(b.text(), ">> hello!");
    b.remove(0, 3);
    assert_eq!(b.text(), "hello!");
    b.remove(5, 1);
    assert_eq!(b.text(), "hello");
}

#[test]
fn slice_returns_exact_span() {
    let b = EditorBuffer::from_text("hello\nworld");
    assert_eq!(b.slice(0, 5), "hello");
    assert_eq!(b.slice(6, 11), "world");
    assert_eq!(b.slice(3, 3), "");
}

#[test]
fn offsets_are_characters_not_bytes() {
    let b = EditorBuffer::from_text("h\u{e9}llo"); // 'é' is two bytes, one char
    assert_eq!(b.len_chars(), 5);
    assert_eq!(b.char_at(1), '\u{e9}');
    assert_eq!(b.slice(0, 2), "h\u{e9}");
    let mut b2 = EditorBuffer::from_text("\u{e9}\u{e9}");
    b2.remove(0, 1);
    assert_eq!(b2.text(), "\u{e9}");
}

#[test]
fn translation_functions_are_consistent_inverses() {
    let b = EditorBuffer::from_text("one\ntwo\nthree");
    for i in 0..=b.len_chars() {
        let l = b.char_to_line(i);
        let start = b.line_to_char(l);
        assert!(start <= i);
        if i < b.len_chars() {
            assert!(i < b.line_to_char(l + 1));
        }
    }
}
