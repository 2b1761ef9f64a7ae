use textedit::{Document, Position};

fn rows(doc: &Document) -> Vec<String> {
    (0..doc.len())
        .map(|i| {
            let row = doc.row(i as u16).unwrap();
            row.render(0, row.len()).iter().collect()
        })
        .collect()
}

fn doc_of(lines: &[&str]) -> Document {
    let mut text = String::new();
    for l in lines {
        text.push_str(l);
        text.push('\n');
    }
    Document::open("f.txt", Some(&text))
}

#[test]
fn open_splits_lines_without_trailing_empty_row() {
    let doc = Document::open("a.txt", Some("one\ntwo\n"));
    assert_eq!(rows(&doc), vec!["one", "two"]);
    assert!(!doc.is_dirty());
    assert_eq!(doc.filename, Some("a.txt".to_string()));
}

#[test]
fn open_handles_crlf_and_missing_final_newline() {
    let doc = Document::open("a.txt", Some("one\r\ntwo\r\n\nlast"));
    assert_eq!(rows(&doc), vec!["one", "two", "", "last"]);
    let doc = Document::open("a.txt", Some("x\r"));
    assert_eq!(rows(&doc), vec!["x\r"]);
}

#[test]
fn open_unreadable_file_gives_empty_document() {
    let doc = Document::open("new.txt", None);
    assert_eq!(doc.len(), 0);
    assert_eq!(doc.filename, Some("new.txt".to_string()));
    assert!(!doc.is_dirty());
}

#[test]
fn default_document_has_no_name() {
    let doc = Document::default();
    assert_eq!(doc.len(), 0);
    assert_eq!(doc.filename, None);
    assert!(!doc.has_filename());
}

#[test]
fn new_file_typed_and_saved() {
    let mut doc = Document::open("new.txt", None);
    doc.insert('h', &Position::new(0, 0));
    doc.insert('i', &Position::new(1, 0));
    assert!(doc.is_dirty());
    assert_eq!(doc.save(), Some(b"hi\n".to_vec()));
    assert!(!doc.is_dirty());
}

#[test]
fn insert_clamps_column_and_appends_rows() {
    let mut doc = doc_of(&["ab"]);
    doc.insert('c', &Position::new(9, 0));
    assert_eq!(rows(&doc), vec!["abc"]);
    doc.insert('z', &Position::new(0, 5));
    assert_eq!(rows(&doc), vec!["abc", "z"]);
}

#[test]
fn insert_newline_splits_row() {
    let mut doc = doc_of(&["hello"]);
    doc.insert_newline(&Position::new(2, 0));
    assert_eq!(rows(&doc), vec!["he", "llo"]);
    assert!(doc.is_dirty());
}

#[test]
fn insert_newline_at_end_of_row_adds_empty_row() {
    let mut doc = doc_of(&["abc"]);
    doc.insert_newline(&Position::new(3, 0));
    assert_eq!(rows(&doc), vec!["abc", ""]);
}

#[test]
fn insert_newline_past_end() {
    let mut doc = doc_of(&["abc"]);
    doc.insert_newline(&Position::new(0, 1));
    assert_eq!(rows(&doc), vec!["abc", ""]);
    let mut doc = doc_of(&["abc"]);
    doc.insert_newline(&Position::new(0, 2));
    assert_eq!(rows(&doc), vec!["abc"]);
    assert!(!doc.is_dirty());
}

#[test]
fn newline_then_delete_below_restores() {
    let mut doc = doc_of(&["abc", "def"]);
    doc.insert_newline(&Position::new(3, 0));
    assert_eq!(rows(&doc), vec!["abc", "", "def"]);
    doc.delete(&Position::new(0, 1));
    assert_eq!(rows(&doc), vec!["abc", "def"]);
}

#[test]
fn newline_then_delete_at_break_restores() {
    let mut doc = doc_of(&["abcdef", "x"]);
    doc.insert_newline(&Position::new(2, 0));
    doc.delete(&Position::new(2, 0));
    assert_eq!(rows(&doc), vec!["abcdef", "x"]);
}

#[test]
fn delete_merges_next_row_at_end_of_row() {
    let mut doc = doc_of(&["ab", "cd"]);
    doc.delete(&Position::new(2, 0));
    assert_eq!(rows(&doc), vec!["abcd"]);
}

#[test]
fn delete_at_end_of_last_row_is_noop() {
    let mut doc = doc_of(&["ab", "cd"]);
    doc.delete(&Position::new(2, 1));
    assert_eq!(rows(&doc), vec!["ab", "cd"]);
}

#[test]
fn delete_past_last_row_is_noop() {
    let mut doc = doc_of(&["ab"]);
    doc.delete(&Position::new(0, 1));
    assert_eq!(rows(&doc), vec!["ab"]);
    assert!(!doc.is_dirty());
}

#[test]
fn delete_removes_character() {
    let mut doc = doc_of(&["abc"]);
    doc.delete(&Position::new(1, 0));
    assert_eq!(rows(&doc), vec!["ac"]);
}

#[test]
fn save_without_filename_clears_dirty() {
    let mut doc = Document::default();
    doc.insert('x', &Position::new(0, 0));
    assert!(doc.is_dirty());
    assert_eq!(doc.save(), None);
    assert!(!doc.is_dirty());
}

#[test]
fn save_writes_every_row_with_newline() {
    let mut doc = doc_of(&["a", "", "é"]);
    assert_eq!(doc.save(), Some("a\n\né\n".as_bytes().to_vec()));
    assert_eq!(doc.contents(), "a\n\né\n".as_bytes().to_vec());
}

#[test]
fn save_then_reload_gives_same_rows() {
    let mut doc = Document::open("t.txt", None);
    for (i, ch) in "hello".chars().enumerate() {
        doc.insert(ch, &Position::new(i as u16, 0));
    }
    doc.insert_newline(&Position::new(2, 0));
    doc.insert('!', &Position::new(3, 1));
    let bytes = doc.save().unwrap();
    let text = String::from_utf8(bytes).unwrap();
    let back = Document::open("t.txt", Some(&text));
    assert_eq!(rows(&back), vec!["he", "llo!"]);
    assert_eq!(rows(&back), rows(&doc));
}

#[test]
fn find_hello_world() {
    let doc = doc_of(&["hello world"]);
    assert_eq!(doc.find("world"), Some(Position::new(6, 0)));
}

#[test]
fn find_is_row_major_and_first_match() {
    let doc = doc_of(&["abc", "xxab", "ab"]);
    assert_eq!(doc.find("ab"), Some(Position::new(0, 0)));
    assert_eq!(doc.find("xab"), Some(Position::new(1, 1)));
    assert_eq!(doc.find("AB"), None);
    assert_eq!(doc.find("zz"), None);
}

#[test]
fn find_counts_characters() {
    let doc = doc_of(&["ééx"]);
    assert_eq!(doc.find("x"), Some(Position::new(2, 0)));
}

#[test]
fn set_filename_binds_document() {
    let mut doc = Document::default();
    doc.set_filename("out.txt".to_string());
    assert_eq!(doc.name_chars(), Some("out.txt".chars().collect()));
}
