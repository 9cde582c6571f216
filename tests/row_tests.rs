use text_editor::Row;

fn text(row: &Row) -> String {
    String::from_utf8(row.as_bytes().to_vec()).unwrap()
}

#[test]
fn render_whole_short_row_is_not_padded() {
    let row = Row::from("abc");
    assert_eq!(row.render(0, 100), "abc");
}

#[test]
fn render_turns_tab_into_one_space() {
    let row = Row::from("a\tb");
    assert_eq!(row.render(0, 3), "a b");
}

#[test]
fn render_window_in_clusters() {
    let row = Row::from("a\u{310}e\u{301}o\u{308}\u{332}x");
    assert_eq!(row.length(), 4);
    assert_eq!(row.render(1, 3), "e\u{301}o\u{308}\u{332}");
}

#[test]
fn render_start_past_end_is_empty() {
    let row = Row::from("hello");
    assert_eq!(row.render(4, 2), "");
    assert_eq!(row.render(10, 20), "");
    assert_eq!(row.render(3, usize::MAX), "lo");
}

#[test]
fn render_never_longer_than_window() {
    let row = Row::from("abcdef");
    for s in 0..8usize {
        for e in 0..8usize {
            let r = row.render(s, e);
            let n = r.chars().count();
            assert!(n <= e.saturating_sub(s));
            assert!(n <= row.length());
        }
    }
}

#[test]
fn length_counts_clusters() {
    assert_eq!(Row::from("").length(), 0);
    assert!(Row::from("").is_empty());
    assert_eq!(Row::from("a\r\nb").length(), 3);
    assert_eq!(Row::from("\u{1F1F7}\u{1F1FA}\u{1F1F8}\u{1F1F9}").length(), 2);
    assert!(!Row::from("x").is_empty());
}

#[test]
fn insert_before_cluster() {
    let mut row = Row::from("ae\u{301}b");
    row.insert(1, 'x');
    assert_eq!(text(&row), "axe\u{301}b");
    assert_eq!(row.length(), 4);
}

#[test]
fn insert_past_end_appends() {
    let mut row = Row::from("ab");
    row.insert(2, 'c');
    assert_eq!(text(&row), "abc");
    row.insert(99, 'd');
    assert_eq!(text(&row), "abcd");
    assert_eq!(row.length(), 4);
}

#[test]
fn delete_removes_whole_cluster() {
    let mut row = Row::from("ae\u{301}b");
    row.delete(1);
    assert_eq!(text(&row), "ab");
    assert_eq!(row.length(), 2);
}

#[test]
fn delete_past_end_does_nothing() {
    let mut row = Row::from("ab");
    row.delete(2);
    assert_eq!(text(&row), "ab");
    row.delete(usize::MAX);
    assert_eq!(text(&row), "ab");
}

#[test]
fn delete_then_insert_restores() {
    for i in 0..5usize {
        let mut row = Row::from("hello");
        let c = "hello".chars().nth(i).unwrap();
        row.delete(i);
        row.insert(i, c);
        assert_eq!(text(&row), "hello");
    }
}

#[test]
fn split_and_append_round_trip() {
    let original = "ab\u{1F1F7}\u{1F1FA}c\u{301}d";
    let len = Row::from(original).length();
    for k in 0..=len + 1 {
        let mut row = Row::from(original);
        let tail = row.split(k);
        row.append(&tail);
        assert_eq!(text(&row), original);
        assert_eq!(row.length(), len);
    }
}

#[test]
fn split_divides_at_cluster() {
    let mut row = Row::from("he\u{301}llo");
    let tail = row.split(2);
    assert_eq!(text(&row), "he\u{301}");
    assert_eq!(text(&tail), "llo");
    assert_eq!(row.length(), 2);
    assert_eq!(tail.length(), 3);
}

#[test]
fn split_past_end_leaves_empty_tail() {
    let mut row = Row::from("abc");
    let tail = row.split(10);
    assert_eq!(text(&row), "abc");
    assert!(tail.is_empty());
}

#[test]
fn append_joins_text() {
    let mut row = Row::from("hello");
    row.append(&Row::from("world"));
    assert_eq!(text(&row), "helloworld");
    assert_eq!(row.length(), 10);
}

#[test]
fn update_len_keeps_count() {
    let mut row = Row::from("e\u{301}x");
    row.update_len();
    assert_eq!(row.length(), 2);
}

#[test]
fn as_bytes_is_utf8() {
    assert_eq!(Row::from("é").as_bytes(), &[0xC3, 0xA9]);
    let row: Row = Default::default();
    assert!(row.as_bytes().is_empty());
}

#[test]
fn delete_then_insert_can_regroup_flags() {
    // Removing the letter between regional indicators pairs them differently, so
    // putting it back at the same cluster index lands it elsewhere.
    let original = "\u{1F1F7}x\u{1F1FA}\u{1F1F8}";
    let mut row = Row::from(original);
    assert_eq!(row.length(), 3);
    row.delete(1);
    assert_eq!(row.length(), 2);
    row.insert(1, 'x');
    assert_eq!(text(&row), "\u{1F1F7}\u{1F1FA}x\u{1F1F8}");
}
