use admintui::editor::ActiveInput;
use admintui::editor::TextField;

#[test]
fn focus_cycles_through_the_three_fields() {
    let a = ActiveInput::CronNotation;
    let b = a.next();
    let c = b.next();
    let d = c.next();
    assert!(matches!(b, ActiveInput::Job));
    assert!(matches!(c, ActiveInput::JobDescription));
    assert!(matches!(d, ActiveInput::CronNotation));
}

#[test]
fn typing_builds_the_first_line() {
    let mut f = TextField::new();
    f.insert_char('h');
    f.insert_char('i');
    assert_eq!(f.first_line(), "hi");
    assert_eq!(f.cursor(), (0, 2));
}

#[test]
fn backspace_removes_before_cursor() {
    let mut f = TextField::new();
    f.insert_text("abc");
    f.backspace();
    assert_eq!(f.first_line(), "ab");
    f.move_home();
    f.backspace();
    assert_eq!(f.first_line(), "ab");
}

#[test]
fn delete_removes_under_cursor() {
    let mut f = TextField::new();
    f.insert_text("abc");
    f.move_home();
    f.delete_char();
    assert_eq!(f.first_line(), "bc");
}

#[test]
fn cursor_moves_and_insertion_respects_position() {
    let mut f = TextField::new();
    f.insert_text("ad");
    f.move_left();
    f.insert_char('b');
    f.insert_char('c');
    assert_eq!(f.first_line(), "abcd");
    f.move_end();
    f.insert_char('!');
    assert_eq!(f.first_line(), "abcd!");
}

#[test]
fn multi_line_paste_stays_in_buffer_but_not_in_mirror() {
    let mut f = TextField::new();
    f.insert_text("first line\nsecond line");
    assert_eq!(f.first_line(), "first line");
    assert_eq!(f.lines_view().len(), 2);
    assert_eq!(f.lines_view()[1], "second line");
    assert_eq!(f.cursor(), (1, "second line".len()));
}

#[test]
fn clear_empties_the_buffer() {
    let mut f = TextField::new();
    f.insert_text("something");
    f.clear();
    assert_eq!(f.first_line(), "");
    assert_eq!(f.cursor(), (0, 0));
    assert_eq!(f.lines_view().len(), 1);
}

#[test]
fn backspace_joins_lines() {
    let mut f = TextField::new();
    f.insert_text("ab\ncd");
    f.move_home();
    f.backspace();
    assert_eq!(f.first_line(), "abcd");
    assert_eq!(f.lines_view().len(), 1);
    assert_eq!(f.cursor(), (0, 2));
}
