use rusty::dirty::DirtyLines;
use rusty::render::{find_occurrences, Renderer, VirtualScreen};
use rusty::text::EditorBuffer;

#[test]
fn virtual_screen_update_and_get() {
    let mut vs = VirtualScreen::new(2);
    assert_eq!(vs.get_line(0), Some(&String::new()));
    vs.update_line(0, "abc");
    assert_eq!(vs.get_line(0), Some(&"abc".to_string()));
    assert_eq!(vs.get_line(1), Some(&String::new()));
    // out-of-range rows are ignored / absent
    vs.update_line(5, "zzz");
    assert_eq!(vs.get_line(5), None);
}

fn composed(gutter: &str, content: &str) -> String {
    let mut s = String::from(gutter);
    s.push_str(content);
    s
}

#[test]
fn first_paint_reports_gutter_content_and_placeholders() {
    let buffer = EditorBuffer::from_text("hello\nworld");
    let mut renderer = Renderer::new(3);
    let mut dirty = DirtyLines::new();
    dirty.mark_range(0, 3);
    let writes = renderer.paint(&buffer, &mut dirty, 0);
    assert!(dirty.is_empty());
    assert_eq!(writes.len(), 3);
    let mut rows: Vec<(usize, String)> = writes
        .iter()
        .map(|w| (w.row, composed(&w.gutter, &w.content)))
        .collect();
    rows.sort();
    assert_eq!(rows[0], (0, "   1 hello".to_string()));
    assert_eq!(rows[1], (1, "   2 world".to_string()));
    assert_eq!(rows[2], (2, "   ~ ".to_string()));
}

#[test]
fn paint_with_empty_dirty_set_writes_nothing() {
    let buffer = EditorBuffer::from_text("hello\nworld");
    let mut renderer = Renderer::new(3);
    let mut dirty = DirtyLines::new();
    dirty.mark_range(0, 3);
    let first = renderer.paint(&buffer, &mut dirty, 0);
    assert_eq!(first.len(), 3);
    // the pass consumed the dirty set; painting again writes nothing
    let second = renderer.paint(&buffer, &mut dirty, 0);
    assert_eq!(second.len(), 0);
}

#[test]
fn paint_skips_rows_whose_cached_text_is_unchanged() {
    let buffer = EditorBuffer::from_text("hello\nworld");
    let mut renderer = Renderer::new(3);
    let mut dirty = DirtyLines::new();
    dirty.mark_range(0, 3);
    renderer.paint(&buffer, &mut dirty, 0);
    // mark a line dirty again without changing the text: the cache matches,
    // so nothing is written
    dirty.insert(0);
    let writes = renderer.paint(&buffer, &mut dirty, 0);
    assert_eq!(writes.len(), 0);
}

#[test]
fn paint_reports_only_the_changed_row() {
    let mut buffer = EditorBuffer::from_text("hello\nworld");
    let mut renderer = Renderer::new(3);
    let mut dirty = DirtyLines::new();
    dirty.mark_range(0, 3);
    renderer.paint(&buffer, &mut dirty, 0);
    buffer.insert_char(6, 'W');
    dirty.insert(1);
    dirty.insert(0); // dirty but unchanged: skipped
    let writes = renderer.paint(&buffer, &mut dirty, 0);
    assert_eq!(writes.len(), 1);
    assert_eq!(writes[0].row, 1);
    assert_eq!(composed(&writes[0].gutter, &writes[0].content), "   2 Wworld");
}

#[test]
fn paint_ignores_dirty_lines_outside_the_viewport() {
    let buffer = EditorBuffer::from_text("a\nb\nc\nd\ne");
    let mut renderer = Renderer::new(2);
    let mut dirty = DirtyLines::new();
    dirty.insert(0);
    dirty.insert(4);
    let writes = renderer.paint(&buffer, &mut dirty, 3);
    // only line 4 falls within viewport rows [3, 5)
    assert_eq!(writes.len(), 1);
    assert_eq!(writes[0].row, 1);
    assert_eq!(composed(&writes[0].gutter, &writes[0].content), "   5 e");
}

#[test]
fn gutter_right_aligns_wide_line_numbers() {
    let mut text = String::new();
    for _ in 0..120 {
        text.push('\n');
    }
    let buffer = EditorBuffer::from_text(&text);
    let mut renderer = Renderer::new(1);
    let mut dirty = DirtyLines::new();
    dirty.insert(99);
    let writes = renderer.paint(&buffer, &mut dirty, 99);
    assert_eq!(writes.len(), 1);
    assert_eq!(composed(&writes[0].gutter, &writes[0].content), " 100 ");
}

#[test]
fn find_occurrences_greedy_non_overlapping() {
    assert_eq!(find_occurrences("abcabca", "abc"), vec![0, 3]);
    assert_eq!(find_occurrences("aaa", "aa"), vec![0]);
    assert_eq!(find_occurrences("hello", "l"), vec![2, 3]);
    assert_eq!(find_occurrences("hello", "x"), Vec::<usize>::new());
    assert_eq!(find_occurrences("", "x"), Vec::<usize>::new());
    assert_eq!(find_occurrences("hello", ""), Vec::<usize>::new());
    assert_eq!(find_occurrences("ab", "abc"), Vec::<usize>::new());
}
