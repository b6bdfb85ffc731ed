use meow_app_launcher::edit::TextEdit;

#[test]
fn caret_limits_and_utf8() {
    let mut e = TextEdit::new("abc");
    assert_eq!(e.caret(), 3);
    e.insert_char('x');
    assert_eq!(e.text, "abcx");
    e.backspace();
    assert_eq!(e.text, "abc");
    // Chinese: three bytes each; the caret and deletion move by character.
    let mut c = TextEdit::new("喵喵");
    c.backspace();
    assert_eq!(c.text, "喵");
    c.caret = 0;
    c.selection = None;
    c.insert_char('a');
    assert_eq!(c.text, "a喵");
}

#[test]
fn selection_replaced_in_both_directions() {
    let mut e = TextEdit::new("abcdef");
    e.begin_select(4);
    e.extend_select(1); // backward drag gives [1, 4)
    assert_eq!(e.selection(), Some((1, 4)));
    e.insert_char('X');
    assert_eq!(e.text, "aXef");
    // forward drag
    let mut f = TextEdit::new("abcdef");
    f.begin_select(1);
    f.extend_select(4);
    assert_eq!(f.selection(), Some((1, 4)));
    f.backspace();
    assert_eq!(f.text, "aef");
}

#[test]
fn select_all_and_override() {
    let mut e = TextEdit::new("你好");
    e.select_all();
    assert_eq!(e.selection(), Some((0, 6)));
    e.insert_char('嗨');
    assert_eq!(e.text, "嗨");
}

#[test]
fn backward_drag_with_anchor() {
    // Dragging right to left: the anchor stays where the button went down.
    let mut e = TextEdit::new("abcdef");
    e.begin_select(4);
    e.extend_select(1);
    assert_eq!(e.selection(), Some((1, 4)));
    e.extend_select(0);
    assert_eq!(e.selection(), Some((0, 4)));
    // Back across the anchor: the selection is anchor to caret.
    e.extend_select(5);
    assert_eq!(e.selection(), Some((4, 5)));
    e.end_select();
    e.insert_char('X');
    assert_eq!(e.text, "abcdXf");
}

#[test]
fn insert_then_backspace_restores_text() {
    let mut e = TextEdit::new("ab喵");
    e.caret = 2;
    e.insert_char('猫');
    assert_eq!(e.text, "ab猫喵");
    assert_eq!(e.caret(), 5);
    e.backspace();
    assert_eq!(e.text, "ab喵");
    assert_eq!(e.caret(), 2);
}

#[test]
fn delete_removes_next_char_and_stops_at_end() {
    let mut e = TextEdit::new("a喵b");
    e.caret = 1;
    e.delete();
    assert_eq!(e.text, "ab");
    assert_eq!(e.caret(), 1);
    e.caret = 2;
    e.delete();
    assert_eq!(e.text, "ab");
}

#[test]
fn backspace_at_start_does_nothing() {
    let mut e = TextEdit::new("abc");
    e.caret = 0;
    e.backspace();
    assert_eq!(e.text, "abc");
    assert_eq!(e.caret(), 0);
}

#[test]
fn collapsed_selection_is_none() {
    let mut e = TextEdit::new("abc");
    e.begin_select(2);
    assert_eq!(e.selection(), None);
    e.extend_select(2);
    assert_eq!(e.selection(), None);
}

#[test]
fn click_then_delete_keys_act_at_the_caret() {
    let mut e = TextEdit::new("abc");
    e.begin_select(3);
    e.end_select();
    assert_eq!(e.selection(), None);
    e.backspace();
    assert_eq!(e.text, "ab");
    assert_eq!(e.caret(), 2);
    let mut d = TextEdit::new("abc");
    d.begin_select(1);
    d.end_select();
    d.delete();
    assert_eq!(d.text, "ac");
    assert_eq!(d.caret(), 1);
}
