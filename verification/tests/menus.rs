use joshuto::key::Key;
use joshuto::keymap::{Binding, Command, CommandKeybind, KeyMap};
use joshuto::menu::{menu_geometry, menu_line, menu_lines, str_le, Geometry};
use joshuto::run::unknown_key_message;

#[test]
fn menu_sits_above_the_status_bar() {
    assert_eq!(menu_geometry(24, 80, 2), Some(Geometry { rows: 3, cols: 80, y: 20, x: 0 }));
    assert_eq!(menu_geometry(24, 80, 0), Some(Geometry { rows: 1, cols: 80, y: 22, x: 0 }));
    assert_eq!(menu_geometry(40, 132, 10), Some(Geometry { rows: 11, cols: 132, y: 28, x: 0 }));
}

#[test]
fn menu_that_just_fits_starts_at_the_top() {
    assert_eq!(menu_geometry(24, 80, 22), Some(Geometry { rows: 23, cols: 80, y: 0, x: 0 }));
}

#[test]
fn menu_that_does_not_fit_has_no_place() {
    assert_eq!(menu_geometry(24, 80, 23), None);
    assert_eq!(menu_geometry(1, 80, 0), None);
    assert_eq!(menu_geometry(0, 80, 0), None);
    assert_eq!(menu_geometry(-1, 80, 0), None);
    assert_eq!(menu_geometry(24, 80, usize::MAX), None);
    assert_eq!(menu_geometry(i32::MAX, 80, usize::MAX), None);
}

#[test]
fn largest_terminal_does_not_overflow() {
    let entries = (i32::MAX - 2) as usize;
    assert_eq!(
        menu_geometry(i32::MAX, 7, entries),
        Some(Geometry { rows: i32::MAX - 1, cols: 7, y: 0, x: 0 })
    );
}

#[test]
fn line_shows_key_tab_description() {
    let entry = Binding {
        key: Key::Char('a'),
        bind: CommandKeybind::Simple(Command::new("delete")),
    };
    assert_eq!(menu_line(&entry), "  Char('a')\tdelete");
    let nested = Binding { key: Key::F(5), bind: CommandKeybind::Composite(KeyMap::new()) };
    assert_eq!(menu_line(&nested), "  F(5)\t...");
    let escape = Binding { key: Key::Esc, bind: CommandKeybind::Simple(Command::new("")) };
    assert_eq!(menu_line(&escape), "  Esc\t");
}

#[test]
fn lines_come_out_sorted() {
    let mut menu = KeyMap::new();
    menu.insert(Key::Char('b'), CommandKeybind::Simple(Command::new("bulk-rename")));
    menu.insert(Key::Char('a'), CommandKeybind::Simple(Command::new("delete")));
    assert_eq!(menu_lines(&menu), vec!["  Char('a')\tdelete", "  Char('b')\tbulk-rename"]);
}

#[test]
fn lines_of_many_kinds_of_keys() {
    let mut menu = KeyMap::new();
    menu.insert(Key::Char('z'), CommandKeybind::Simple(Command::new("last")));
    menu.insert(Key::Up, CommandKeybind::Simple(Command::new("cursor_move -1")));
    menu.insert(Key::Char('g'), CommandKeybind::Composite(KeyMap::new()));
    menu.insert(Key::Ctrl('c'), CommandKeybind::Simple(Command::new("quit")));
    menu.insert(Key::Char('\n'), CommandKeybind::Simple(Command::new("open")));
    menu.insert(Key::Backspace, CommandKeybind::Simple(Command::new("parent")));
    assert_eq!(
        menu_lines(&menu),
        vec![
            "  Backspace\tparent",
            "  Char('\\n')\topen",
            "  Char('g')\t...",
            "  Char('z')\tlast",
            "  Ctrl('c')\tquit",
            "  Up\tcursor_move -1",
        ]
    );
}

#[test]
fn empty_menu_has_no_lines() {
    assert!(menu_lines(&KeyMap::new()).is_empty());
}

#[test]
fn menu_has_one_line_for_each_entry() {
    let mut menu = KeyMap::new();
    for (i, c) in "qwertyuiop".chars().enumerate() {
        menu.insert(Key::Char(c), CommandKeybind::Simple(Command::new("same")));
        assert_eq!(menu_lines(&menu).len(), i + 1);
    }
    let lines = menu_lines(&menu);
    let mut sorted = lines.clone();
    sorted.sort();
    assert_eq!(lines, sorted);
}

#[test]
fn string_order_is_that_of_the_bytes() {
    assert!(str_le("", ""));
    assert!(str_le("", "a"));
    assert!(!str_le("a", ""));
    assert!(str_le("a", "a"));
    assert!(str_le("a", "ab"));
    assert!(!str_le("ab", "a"));
    assert!(str_le("ab", "b"));
    assert!(!str_le("b", "ab"));
    assert!(str_le("Z", "a"));
    assert!(str_le("z", "é"));
    assert!(str_le("é", "€"));
    assert!(!str_le("€", "é"));
    let words = ["", "a", "ab", "b", "Z", "z", "é", "€", "\t", " "];
    for x in words {
        for y in words {
            assert_eq!(str_le(x, y), x <= y);
        }
    }
}

#[test]
fn unknown_key_message_names_the_key() {
    assert_eq!(unknown_key_message(Key::Char('x')), "Unknown keycode: Char('x')");
    assert_eq!(unknown_key_message(Key::Esc), "Unknown keycode: Esc");
    assert_eq!(unknown_key_message(Key::F(12)), "Unknown keycode: F(12)");
    assert_eq!(unknown_key_message(Key::Alt('\'')), "Unknown keycode: Alt('\\'')");
    assert_eq!(unknown_key_message(Key::PageDown), "Unknown keycode: PageDown");
}
