use textedit::editor::PromptKind;
use textedit::{Document, Editor, Key, Position, Size, StatusMessage};

fn doc_of(lines: &[&str]) -> Document {
    let mut text = String::new();
    for l in lines {
        text.push_str(l);
        text.push('\n');
    }
    Document::open("f.txt", Some(&text))
}

fn rows(doc: &Document) -> Vec<String> {
    (0..doc.len())
        .map(|i| {
            let row = doc.row(i as u16).unwrap();
            row.render(0, row.len()).iter().collect()
        })
        .collect()
}

fn editor_at(lines: &[&str], x: u16, y: u16) -> Editor {
    let mut e = Editor::new(doc_of(lines), 0);
    e.cursor_position = Position::new(x, y);
    e
}

fn size() -> Size {
    Size::new(80, 24)
}

fn message(e: &Editor) -> String {
    e.status_message.text.iter().collect()
}

#[test]
fn enter_at_end_of_row() {
    let mut e = editor_at(&["abc"], 3, 0);
    e.process_key(Key::Enter, &size(), 0);
    assert_eq!(rows(&e.document), vec!["abc", ""]);
    assert_eq!(e.cursor_position, Position::new(0, 1));
}

#[test]
fn new_file_typing_then_save() {
    let mut e = Editor::new(Document::open("new.txt", None), 0);
    assert_eq!(e.document.len(), 0);
    e.process_key(Key::Char('h'), &size(), 1);
    e.process_key(Key::Char('i'), &size(), 2);
    assert_eq!(e.cursor_position, Position::new(2, 0));
    let out = e.process_key(Key::Ctrl('s'), &size(), 3);
    assert_eq!(out, Some(b"hi\n".to_vec()));
    assert!(!e.document.is_dirty());
}

#[test]
fn right_at_end_of_row_wraps_down() {
    let mut e = editor_at(&["ab", "cde"], 2, 0);
    e.move_cursor(Key::Right);
    assert_eq!(e.cursor_position, Position::new(0, 1));
    e.move_cursor(Key::Left);
    assert_eq!(e.cursor_position, Position::new(2, 0));
}

#[test]
fn left_at_start_of_row_wraps_up() {
    let mut e = editor_at(&["abcd", "x"], 0, 1);
    e.move_cursor(Key::Left);
    assert_eq!(e.cursor_position, Position::new(4, 0));
    e.move_cursor(Key::Right);
    assert_eq!(e.cursor_position, Position::new(0, 1));
}

#[test]
fn moves_at_document_boundaries_do_nothing() {
    let mut e = editor_at(&["ab"], 0, 0);
    e.move_cursor(Key::Left);
    assert_eq!(e.cursor_position, Position::new(0, 0));
    e.move_cursor(Key::Up);
    assert_eq!(e.cursor_position, Position::new(0, 0));
    let mut e = editor_at(&["ab"], 0, 1);
    e.move_cursor(Key::Right);
    assert_eq!(e.cursor_position, Position::new(0, 1));
    e.move_cursor(Key::Down);
    assert_eq!(e.cursor_position, Position::new(0, 1));
}

#[test]
fn vertical_move_clamps_column() {
    let mut e = editor_at(&["abcdef", "ab"], 5, 0);
    e.move_cursor(Key::Down);
    assert_eq!(e.cursor_position, Position::new(2, 1));
    e.move_cursor(Key::Down);
    assert_eq!(e.cursor_position, Position::new(0, 2));
}

#[test]
fn tab_inserts_four_spaces() {
    let mut e = editor_at(&["ab"], 1, 0);
    e.process_key(Key::Tab, &size(), 0);
    assert_eq!(rows(&e.document), vec!["a    b"]);
    assert_eq!(e.cursor_position, Position::new(5, 0));
}

#[test]
fn backspace_deletes_before_cursor() {
    let mut e = editor_at(&["abc"], 2, 0);
    e.process_key(Key::Backspace, &size(), 0);
    assert_eq!(rows(&e.document), vec!["ac"]);
    assert_eq!(e.cursor_position, Position::new(1, 0));
}

#[test]
fn backspace_at_row_start_joins_rows() {
    let mut e = editor_at(&["ab", "cd"], 0, 1);
    e.process_key(Key::Backspace, &size(), 0);
    assert_eq!(rows(&e.document), vec!["abcd"]);
    assert_eq!(e.cursor_position, Position::new(2, 0));
}

#[test]
fn backspace_at_origin_does_nothing() {
    let mut e = editor_at(&["ab"], 0, 0);
    e.process_key(Key::Backspace, &size(), 0);
    assert_eq!(rows(&e.document), vec!["ab"]);
    assert!(!e.document.is_dirty());
}

#[test]
fn delete_key_keeps_cursor() {
    let mut e = editor_at(&["abc"], 1, 0);
    e.process_key(Key::Delete, &size(), 0);
    assert_eq!(rows(&e.document), vec!["ac"]);
    assert_eq!(e.cursor_position, Position::new(1, 0));
}

#[test]
fn quit_when_clean_stops() {
    let mut e = editor_at(&["ab"], 0, 0);
    e.process_key(Key::Ctrl('q'), &size(), 0);
    assert!(!e.is_running());
}

#[test]
fn quit_when_dirty_asks_and_accepts_y() {
    let mut e = editor_at(&["ab"], 0, 0);
    e.process_key(Key::Char('x'), &size(), 0);
    e.process_key(Key::Ctrl('q'), &size(), 0);
    assert!(e.is_running());
    assert!(e.prompt.is_some());
    assert_eq!(message(&e), "Type 'y' to quit without saving: ");
    e.process_key(Key::Char('Y'), &size(), 0);
    assert_eq!(message(&e), "Type 'y' to quit without saving: Y");
    e.process_key(Key::Enter, &size(), 0);
    assert!(!e.is_running());
    assert!(e.prompt.is_none());
    assert_eq!(message(&e), "");
}

#[test]
fn quit_when_dirty_declined_warns() {
    let mut e = editor_at(&["ab"], 0, 0);
    e.process_key(Key::Char('x'), &size(), 0);
    e.process_key(Key::Ctrl('q'), &size(), 0);
    e.process_key(Key::Char('n'), &size(), 0);
    e.process_key(Key::Enter, &size(), 0);
    assert!(e.is_running());
    assert_eq!(message(&e), "[WARNING] File not saved");
    e.process_key(Key::Ctrl('q'), &size(), 0);
    e.process_key(Key::Esc, &size(), 0);
    assert!(e.is_running());
    assert_eq!(message(&e), "[WARNING] File not saved");
}

#[test]
fn save_as_prompt_names_and_saves() {
    let mut e = Editor::new(Document::default(), 0);
    e.process_key(Key::Char('a'), &size(), 0);
    assert_eq!(e.process_key(Key::Ctrl('s'), &size(), 0), None);
    assert_eq!(message(&e), "Save as: ");
    e.process_key(Key::Char('o'), &size(), 0);
    e.process_key(Key::Backspace, &size(), 0);
    e.process_key(Key::Char('x'), &size(), 0);
    let out = e.process_key(Key::Enter, &size(), 0);
    assert_eq!(out, Some(b"a\n".to_vec()));
    assert_eq!(e.document.filename, Some("x".to_string()));
    assert!(!e.document.is_dirty());
}

#[test]
fn save_as_empty_or_cancelled_warns() {
    let mut e = Editor::new(Document::default(), 0);
    e.process_key(Key::Ctrl('s'), &size(), 0);
    assert_eq!(e.process_key(Key::Enter, &size(), 0), None);
    assert_eq!(message(&e), "[WARNING] File not saved");
    assert_eq!(e.document.filename, None);
    e.process_key(Key::Ctrl('s'), &size(), 0);
    e.process_key(Key::Char('z'), &size(), 0);
    assert_eq!(e.process_key(Key::Esc, &size(), 0), None);
    assert_eq!(message(&e), "[WARNING] File not saved");
}

#[test]
fn search_jumps_to_match() {
    let mut e = editor_at(&["abc", "hello world"], 0, 0);
    e.process_key(Key::Ctrl('f'), &size(), 0);
    for ch in "world".chars() {
        e.process_key(Key::Char(ch), &size(), 0);
    }
    e.process_key(Key::Enter, &size(), 0);
    assert_eq!(e.cursor_position, Position::new(6, 1));
    assert!(e.prompt.is_none());
}

#[test]
fn search_miss_warns() {
    let mut e = editor_at(&["abc"], 1, 0);
    e.process_key(Key::Ctrl('f'), &size(), 0);
    e.process_key(Key::Char('q'), &size(), 0);
    e.process_key(Key::Enter, &size(), 0);
    assert_eq!(e.cursor_position, Position::new(1, 0));
    assert_eq!(message(&e), "[WARNING] Search query not found");
}

#[test]
fn prompt_scrolls_reply_past_width() {
    let mut e = editor_at(&["abc"], 0, 0);
    let narrow = Size::new(10, 5);
    e.process_key(Key::Ctrl('f'), &narrow, 0);
    for ch in "abcdef".chars() {
        e.process_key(Key::Char(ch), &narrow, 0);
    }
    let p = e.prompt.as_ref().unwrap();
    assert_eq!(p.kind, PromptKind::Search);
    assert_eq!(p.cursor_x, 9);
    assert_eq!(p.offset, 5);
    assert_eq!(message(&e), "Search: f");
    assert_eq!(e.screen_cursor(&narrow), Position::new(9, 6));
}

#[test]
fn scroll_follows_cursor() {
    let lines: Vec<String> = (0..30).map(|i| format!("line {i}")).collect();
    let refs: Vec<&str> = lines.iter().map(|s| s.as_str()).collect();
    let mut e = editor_at(&refs, 0, 0);
    let small = Size::new(4, 10);
    for _ in 0..12 {
        e.process_key(Key::Down, &small, 0);
    }
    assert_eq!(e.offset, Position::new(0, 3));
    for _ in 0..6 {
        e.process_key(Key::Right, &small, 0);
    }
    assert_eq!(e.offset, Position::new(3, 3));
    e.cursor_position = Position::new(0, 0);
    e.scroll(&small);
    assert_eq!(e.offset, Position::new(0, 0));
    assert_eq!(e.screen_cursor(&small), Position::new(0, 0));
}

#[test]
fn visible_rows_and_filler() {
    let mut e = editor_at(&["abcdef", "gh"], 0, 0);
    e.offset = Position::new(2, 0);
    assert_eq!(e.visible_row(0, 3).map(|v| v.iter().collect::<String>()), Some("cde".to_string()));
    assert_eq!(e.visible_row(1, 3).map(|v| v.iter().collect::<String>()), Some("".to_string()));
    assert_eq!(e.visible_row(2, 3), None);
}

#[test]
fn status_bar_layout() {
    let mut e = editor_at(&["abc"], 2, 0);
    let bar: String = e.status_bar(20).iter().collect();
    assert_eq!(bar, "f.txt            0:2");
    e.process_key(Key::Char('x'), &size(), 0);
    let bar: String = e.status_bar(20).iter().collect();
    assert_eq!(bar, "f.txt [+]        0:3");
    let bar: String = e.status_bar(4).iter().collect();
    assert_eq!(bar, "f.tx");
    let e = Editor::new(Document::default(), 0);
    let bar: String = e.status_bar(15).iter().collect();
    assert_eq!(bar, "[No Name]   0:0");
}

#[test]
fn status_message_expires() {
    let e = Editor::new(Document::default(), 1000);
    let shown = e.visible_message(1000, 80).unwrap();
    assert_eq!(shown.iter().collect::<String>(), "[HELP] CTRL-Q = quit | CTRL-S = save | CTRL-F = find");
    assert!(e.visible_message(5999, 6).is_some());
    assert_eq!(e.visible_message(5999, 6).unwrap().iter().collect::<String>(), "[HELP]");
    assert!(e.visible_message(6000, 80).is_none());
    let m = StatusMessage::new(vec!['a'], 10);
    assert!(m.is_visible(0));
    assert!(!m.is_visible(5010));
    assert_eq!(StatusMessage::default(3).text.len(), 0);
}

#[test]
fn size_holds_dimensions() {
    let s = Size::new(3, 4);
    assert_eq!((s.width, s.height), (3, 4));
}
