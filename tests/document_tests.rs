use text_editor::{lines_of, CursorPosition, Document};

fn line(doc: &Document, y: usize) -> String {
    String::from_utf8(doc.row(y).unwrap().as_bytes().to_vec()).unwrap()
}

fn at(x: usize, y: usize) -> CursorPosition {
    CursorPosition { x, y }
}

#[test]
fn typing_then_enter_on_empty_document() {
    let mut doc: Document = Default::default();
    assert!(doc.is_empty());
    doc.insert(&at(0, 0), 'a');
    doc.insert(&at(1, 0), 'b');
    doc.insert(&at(2, 0), '\n');
    assert_eq!(doc.length(), 2);
    assert_eq!(line(&doc, 0), "ab");
    assert_eq!(line(&doc, 1), "");
    doc.insert(&at(0, 1), 'c');
    assert_eq!(line(&doc, 1), "c");
    assert_eq!(doc.length(), 2);
}

#[test]
fn delete_at_end_of_line_joins() {
    let mut doc = Document::from_contents("hello\nworld", None);
    doc.delete(&at(5, 0));
    assert_eq!(doc.length(), 1);
    assert_eq!(line(&doc, 0), "helloworld");
}

#[test]
fn delete_at_end_of_last_line_does_nothing() {
    let mut doc = Document::from_contents("hello\nworld", None);
    doc.delete(&at(5, 1));
    assert_eq!(doc.length(), 2);
    assert_eq!(line(&doc, 1), "world");
    doc.delete(&at(0, 7));
    assert_eq!(doc.length(), 2);
}

#[test]
fn delete_inside_line() {
    let mut doc = Document::from_contents("hello\nworld", None);
    doc.delete(&at(1, 1));
    assert_eq!(line(&doc, 1), "wrld");
    assert_eq!(doc.length(), 2);
}

#[test]
fn line_break_then_delete_restores() {
    let mut doc = Document::from_contents("one\nhello\nthree", None);
    doc.insert(&at(2, 1), '\n');
    assert_eq!(doc.length(), 4);
    assert_eq!(line(&doc, 1), "he");
    assert_eq!(line(&doc, 2), "llo");
    doc.delete(&at(2, 1));
    assert_eq!(doc.length(), 3);
    assert_eq!(line(&doc, 0), "one");
    assert_eq!(line(&doc, 1), "hello");
    assert_eq!(line(&doc, 2), "three");
}

#[test]
fn line_break_just_past_end_adds_empty_line() {
    let mut doc = Document::from_contents("a", None);
    doc.insert(&at(0, 1), '\n');
    assert_eq!(doc.length(), 2);
    assert_eq!(line(&doc, 1), "");
}

#[test]
fn insert_far_past_end_does_nothing() {
    let mut doc = Document::from_contents("a", None);
    doc.insert(&at(0, 5), 'x');
    doc.insert(&at(0, 5), '\n');
    assert_eq!(doc.length(), 1);
    assert_eq!(line(&doc, 0), "a");
}

#[test]
fn insert_on_line_just_past_end_adds_line() {
    let mut doc = Document::from_contents("a", None);
    doc.insert(&at(3, 1), 'x');
    assert_eq!(doc.length(), 2);
    assert_eq!(line(&doc, 1), "x");
}

#[test]
fn row_lookup_is_bounded() {
    let doc = Document::from_contents("a\nb", None);
    assert!(doc.row(1).is_some());
    assert!(doc.row(2).is_none());
}

#[test]
fn lines_split_like_str_lines() {
    assert_eq!(lines_of("foo\nbar\n\r\nbaz\r"), vec!["foo", "bar", "", "baz\r"]);
    assert_eq!(lines_of(""), Vec::<String>::new());
    assert_eq!(lines_of("\n"), vec![""]);
    assert_eq!(lines_of("a\r\nb\n"), vec!["a", "b"]);
    assert_eq!(lines_of("x\ry"), vec!["x\ry"]);
}

#[test]
fn contents_keep_file_name() {
    let doc = Document::from_contents("a\nb\n", Some("notes.txt".to_string()));
    assert_eq!(doc.length(), 2);
    assert_eq!(doc.file_name, Some("notes.txt".to_string()));
    assert_eq!(doc.source_name(), &Some("notes.txt".to_string()));
}

#[test]
fn saved_bytes_end_each_line() {
    let doc = Document::from_contents("a\r\nbé\n\nc", None);
    assert_eq!(doc.saved_bytes(), b"a\nb\xC3\xA9\n\nc\n".to_vec());
    let empty: Document = Default::default();
    assert!(empty.saved_bytes().is_empty());
}
