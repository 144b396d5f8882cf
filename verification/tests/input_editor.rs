use my_agent::entry::tui::input_editor::InputEditor;

#[test]
fn edits_cjk_without_using_byte_offsets() {
    let mut editor = InputEditor::new();
    editor.insert_text("你好 world");
    editor.delete_word_left();
    assert_eq!(editor.text(), "你好 ");
    editor.backspace();
    assert_eq!(editor.text(), "你好");
    editor.move_left();
    editor.backspace();
    assert_eq!(editor.text(), "好");
}

#[test]
fn computes_wrapped_visual_cursor_for_wide_characters() {
    let mut editor = InputEditor::new();
    editor.insert_text("ab中文");
    assert_eq!(editor.visual_cursor(4), (1, 2));
    editor.insert('\n');
    editor.insert_text("x");
    assert_eq!(editor.visual_cursor(4), (2, 1));
}

#[test]
fn deletes_combining_characters_and_zwj_emoji_as_graphemes() {
    let mut editor = InputEditor::new();
    editor.insert_text("a e\u{301} 👨‍👩‍👧‍👦");

    editor.backspace();
    assert_eq!(editor.text(), "a e\u{301} ");
    editor.backspace();
    editor.backspace();

    assert_eq!(editor.text(), "a ");
}

#[test]
fn insertion_that_joins_neighboring_emoji_keeps_cursor_on_a_grapheme_boundary() {
    let mut editor = InputEditor::new();
    editor.insert_text("👨👩");
    editor.move_left();
    editor.insert('\u{200d}');

    editor.backspace();
    assert_eq!(editor.text(), "");
}

#[test]
fn moves_and_deletes_within_a_line() {
    let mut editor = InputEditor::new();
    assert!(editor.is_empty());
    assert!(editor.is_blank());
    editor.insert_text("one two\nthree");
    assert!(!editor.is_single_line());
    editor.move_line_start();
    editor.delete();
    assert_eq!(editor.text(), "one two\nhree");
    editor.move_line_end();
    editor.insert('!');
    assert_eq!(editor.text(), "one two\nhree!");
    editor.move_word_left();
    editor.insert('t');
    assert_eq!(editor.text(), "one two\nthree!");
    editor.move_left();
    editor.move_left();
    editor.move_word_left();
    editor.insert('<');
    assert_eq!(editor.text(), "one <two\nthree!");
}

#[test]
fn at_the_ends_nothing_is_deleted() {
    let mut editor = InputEditor::new();
    editor.backspace();
    editor.delete();
    editor.move_left();
    editor.move_right();
    assert_eq!(editor.text(), "");
    editor.insert_text("ab");
    editor.delete();
    assert_eq!(editor.text(), "ab");
    editor.move_right();
    editor.insert('c');
    assert_eq!(editor.text(), "abc");
}

#[test]
fn taking_the_line_leaves_nothing() {
    let mut editor = InputEditor::new();
    editor.replace("一行");
    assert_eq!(editor.take(), "一行");
    assert!(editor.is_empty());
    editor.replace("x");
    editor.clear();
    assert_eq!(editor.text(), "");
}

#[test]
fn words_are_deleted_with_the_space_behind_them() {
    let mut editor = InputEditor::new();
    editor.insert_text("alpha  beta  ");
    editor.delete_word_left();
    assert_eq!(editor.text(), "alpha  ");
    editor.move_word_left();
    editor.move_word_right();
    editor.insert('|');
    assert_eq!(editor.text(), "alpha|  ");
}

#[test]
fn a_mark_is_not_joined_to_a_line_feed() {
    let mut editor = InputEditor::new();
    editor.insert_text("a\n\u{301}");
    editor.backspace();
    assert_eq!(editor.text(), "a\n");
    editor.backspace();
    assert_eq!(editor.text(), "a");
}

#[test]
fn what_a_deletion_joins_is_one_character() {
    let mut editor = InputEditor::new();
    editor.insert_text("\u{1F1E6}x\u{1F1E7}");
    editor.move_left();
    editor.backspace();
    assert_eq!(editor.text(), "\u{1F1E6}\u{1F1E7}");
    editor.backspace();
    assert_eq!(editor.text(), "");

    let mut editor = InputEditor::new();
    editor.insert_text("\u{1F1E6}x\u{1F1E7}");
    editor.move_left();
    editor.move_left();
    editor.delete();
    assert_eq!(editor.text(), "\u{1F1E6}\u{1F1E7}");
    editor.backspace();
    assert_eq!(editor.text(), "");
}

#[test]
fn every_line_feed_before_the_cursor_is_a_row() {
    let mut editor = InputEditor::new();
    editor.insert_text("a\n\u{301}b\n\nc");
    let (row, column) = editor.visual_cursor(10);
    assert_eq!((row, column), (3, 1));
    editor.delete_word_left();
    assert_eq!(editor.text(), "a\n\u{301}b\n\n");
    assert_eq!(editor.visual_cursor(10).0, 3);
}
