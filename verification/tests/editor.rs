use burst::document::{Document, Row};
use burst::editor::{Editor, Key, Position, Screen, Size};

fn editor(width: u16, height: u16, text: &str) -> Editor {
    Editor::new(Size { width, height }, Document::from_text(text), "0.1.0")
}

fn press(editor: &mut Editor, keys: &[Key]) {
    for key in keys {
        editor.process_key_press(*key);
    }
}

#[test]
fn a_document_is_the_lines_of_its_text() {
    let document = Document::from_text("one\ntwo\r\nthree\n");
    assert_eq!(3, document.len());
    assert!(!document.is_empty());
    assert_eq!(Some(&Row::from("one")), document.row(0));
    assert_eq!(Some(&Row::from("two")), document.row(1));
    assert_eq!(Some(&Row::from("three")), document.row(2));
    assert_eq!(None, document.row(3));
}

#[test]
fn an_empty_document() {
    let document = Document::default();
    assert_eq!(0, document.len());
    assert!(document.is_empty());
    assert_eq!(None, document.row(0));
    assert!(Document::from_text("").is_empty());
}

#[test]
fn a_row_renders_the_columns_asked_for() {
    let row = Row::from("Hello, World!");
    assert_eq!(13, row.len());
    assert_eq!("Hello", row.render(0, 5));
    assert_eq!("World!", row.render(7, 13));
    assert_eq!("World!", row.render(7, 100));
    assert_eq!("", row.render(13, 20));
    assert_eq!("", row.render(20, 30));
    assert_eq!("", row.render(5, 5));
    assert_eq!("", row.render(8, 3));
    assert_eq!("Hello, World!", row.render(0, usize::MAX));
}

#[test]
fn a_row_counts_characters() {
    let row = Row::from("añb€c");
    assert_eq!(5, row.len());
    assert_eq!("ñb€", row.render(1, 4));
}

#[test]
fn the_default_position_is_the_origin() {
    assert_eq!(Position { x: 0, y: 0 }, Position::default());
}

#[test]
fn arrows_move_the_cursor() {
    let mut editor = editor(80, 24, "a\nb\nc");
    assert_eq!(Position { x: 0, y: 0 }, editor.cursor());
    press(&mut editor, &[Key::Down, Key::Down, Key::Right]);
    assert_eq!(Position { x: 1, y: 2 }, editor.cursor());
    press(&mut editor, &[Key::Up, Key::Left]);
    assert_eq!(Position { x: 0, y: 1 }, editor.cursor());
}

#[test]
fn the_cursor_stops_at_the_edges() {
    let mut editor = editor(2, 24, "a\nb");
    press(&mut editor, &[Key::Up, Key::Left]);
    assert_eq!(Position { x: 0, y: 0 }, editor.cursor());
    press(&mut editor, &[Key::Down, Key::Down, Key::Down, Key::Down]);
    assert_eq!(Position { x: 0, y: 2 }, editor.cursor());
    press(&mut editor, &[Key::Right, Key::Right, Key::Right, Key::Right]);
    assert_eq!(Position { x: 2, y: 2 }, editor.cursor());
}

#[test]
fn move_cursor_ignores_other_keys() {
    let mut editor = editor(80, 24, "a\nb");
    editor.move_cursor(Key::Down);
    editor.move_cursor(Key::Other);
    editor.move_cursor(Key::Ctrl('q'));
    assert_eq!(Position { x: 0, y: 1 }, editor.cursor());
    assert!(!editor.should_quit());
}

#[test]
fn control_q_quits() {
    let mut editor = editor(80, 24, "");
    editor.process_key_press(Key::Ctrl('c'));
    editor.process_key_press(Key::Other);
    assert!(!editor.should_quit());
    editor.process_key_press(Key::Ctrl('q'));
    assert!(editor.should_quit());
    assert_eq!(Screen::Goodbye, editor.refresh_screen());
}

#[test]
fn the_screen_shows_the_document() {
    let editor = editor(5, 4, "Hello, World!\nabc");
    assert_eq!(
        Screen::Rows {
            rows: vec!["Hello".to_string(), "abc".to_string(), "~".to_string()],
            cursor: Position { x: 0, y: 0 },
        },
        editor.refresh_screen()
    );
    assert_eq!(vec!["Hello", "abc", "~"], editor.draw_rows());
    assert_eq!("Hello", editor.draw_row(&Row::from("Hello, World!")));
}

#[test]
fn a_screen_without_rows() {
    assert!(editor(80, 0, "abc").draw_rows().is_empty());
    assert!(editor(80, 1, "abc").draw_rows().is_empty());
    assert_eq!(vec!["abc"], editor(80, 2, "abc").draw_rows());
}

#[test]
fn an_empty_document_is_greeted() {
    let editor = editor(40, 7, "");
    let rows = editor.draw_rows();
    assert_eq!(6, rows.len());
    assert_eq!("~    Hecto editor -- version 0.1.0", rows[2]);
    for (at, row) in rows.iter().enumerate() {
        if at != 2 {
            assert_eq!("~", row);
        }
    }
}

#[test]
fn the_greeting_is_centred_and_cut() {
    // The greeting holds 29 characters.
    assert_eq!("~    Hecto editor -- version 0.1.0", editor(40, 7, "").draw_welcome_message());
    assert_eq!("~Hecto editor -- version 0.1.0", editor(32, 7, "").draw_welcome_message());
    assert_eq!("~Hecto editor -- version 0.1.0", editor(30, 7, "").draw_welcome_message());
    assert_eq!("~Hecto editor -- version 0.1.", editor(29, 7, "").draw_welcome_message());
    assert_eq!("~Hect", editor(5, 7, "").draw_welcome_message());
    assert_eq!("", editor(0, 7, "").draw_welcome_message());
    assert_eq!("~ Hecto editor -- version 0.1.0", editor(33, 7, "").draw_welcome_message());
}

#[test]
fn the_offset_follows_the_cursor() {
    let mut editor = editor(3, 2, "abcdefgh\n1\n2\n3\n4");
    press(&mut editor, &[Key::Down, Key::Down, Key::Down]);
    editor.scroll();
    assert_eq!(Position { x: 0, y: 2 }, editor.offset());
    press(&mut editor, &[Key::Right, Key::Right, Key::Right]);
    editor.scroll();
    assert_eq!(Position { x: 1, y: 2 }, editor.offset());
    assert_eq!(vec![""], editor.draw_rows());
    press(&mut editor, &[Key::Up, Key::Up, Key::Up, Key::Left, Key::Left, Key::Left]);
    editor.scroll();
    assert_eq!(Position { x: 0, y: 0 }, editor.offset());
    editor.scroll();
    assert_eq!(Position { x: 0, y: 0 }, editor.offset());
    assert_eq!(vec!["abc"], editor.draw_rows());
}

#[test]
fn the_offset_stays_while_the_cursor_is_in_view() {
    let mut editor = editor(3, 2, "abcdefgh\n1\n2\n3\n4");
    press(&mut editor, &[Key::Down, Key::Right, Key::Right]);
    editor.scroll();
    assert_eq!(Position { x: 0, y: 0 }, editor.offset());
}

#[test]
fn run_shows_a_screen_before_each_key() {
    let mut editor = editor(3, 3, "ab\ncd");
    let rows = vec!["ab".to_string(), "cd".to_string()];
    let screens = editor.run(&[Key::Down, Key::Other, Key::Ctrl('q'), Key::Down]);
    assert_eq!(
        vec![
            Screen::Rows { rows: rows.clone(), cursor: Position { x: 0, y: 0 } },
            Screen::Rows { rows: rows.clone(), cursor: Position { x: 0, y: 1 } },
            Screen::Rows { rows: rows.clone(), cursor: Position { x: 0, y: 1 } },
        ],
        screens
    );
    assert!(editor.should_quit());
    assert_eq!(Position { x: 0, y: 1 }, editor.cursor());
}

#[test]
fn run_stops_when_the_keys_run_out() {
    let mut editor = editor(3, 2, "ab");
    let screens = editor.run(&[Key::Right]);
    assert_eq!(
        vec![
            Screen::Rows { rows: vec!["ab".to_string()], cursor: Position { x: 0, y: 0 } },
            Screen::Rows { rows: vec!["ab".to_string()], cursor: Position { x: 1, y: 0 } },
        ],
        screens
    );
    assert!(!editor.should_quit());
    let screens = editor.run(&[]);
    assert_eq!(1, screens.len());
}
