use mdcards::card::{export_text, Card};
use mdcards::editor::{decide, App, Command, Key};
use mdcards::parse::{decimal_string, parse_md, Attribute, ParseError};

fn card(f: &str, b: &str, t: &str) -> Card {
    Card::new(f.to_string(), b.to_string(), t.to_string())
}

fn app_of(n: usize) -> App {
    let cards = (0..n).map(|i| card(&format!("f{}", i), &format!("b{}", i), &format!("t{}", i))).collect();
    App::new(cards)
}

#[test]
fn new_session_state() {
    let app = app_of(2);
    assert_eq!(app.cards.len(), 2);
    assert_eq!(app.text, app.default_text);
    assert!(app.text.starts_with("[q] quit"));
    assert_eq!(app.title, "Info");
    assert!(!app.is_editing);
    assert_eq!(app.selected, None);
    assert_eq!(app.last_selected, 0);
}

#[test]
fn selection_wraps() {
    let mut app = app_of(3);
    app.next();
    assert_eq!((app.selected, app.last_selected), (Some(0), 0));
    app.next();
    app.next();
    assert_eq!(app.selected, Some(2));
    app.next();
    assert_eq!(app.selected, Some(0));
    app.prev();
    assert_eq!((app.selected, app.last_selected), (Some(2), 2));
    app.prev();
    assert_eq!(app.selected, Some(1));
    app.selected = None;
    app.prev();
    assert_eq!(app.selected, Some(0));
}

#[test]
fn edit_front_and_finish() {
    let mut app = app_of(2);
    app.next();
    app.next();
    app.enable_edit(Attribute::Front);
    assert!(app.is_editing);
    assert_eq!(app.text, "f1");
    assert_eq!(app.cursor_location, 2);
    app.push('x');
    assert_eq!(app.text, "f1x");
    app.move_cursor_left();
    app.move_cursor_left();
    app.pop();
    assert_eq!(app.text, "1x");
    assert_eq!(app.cursor_location, 0);
    app.pop();
    assert_eq!(app.text, "1x");
    app.move_cursor_right();
    app.push('y');
    assert_eq!(app.text, "1yx");
    let app = app.disable_edit();
    assert!(!app.is_editing);
    assert_eq!(app.title, "Info");
    assert_eq!(app.cards[1].front, "1yx");
    assert_eq!(app.cards[0].front, "f0");
    assert_eq!(app.text, app.default_text);
}

#[test]
fn edit_tags_and_back() {
    let mut app = app_of(1);
    app.enable_edit(Attribute::SubTag);
    assert_eq!(app.field_editing, Attribute::MainTag);
    assert_eq!(app.text, "t0");
    app.push('!');
    let mut app = app.disable_edit();
    assert_eq!(app.cards[0].tags, "t0!");
    app.enable_edit(Attribute::Back);
    app.move_cursor_right();
    assert_eq!(app.cursor_location, 2);
    app.push('?');
    let app = app.disable_edit();
    assert_eq!(app.cards[0].back, "b0?");
}

#[test]
fn multibyte_text_edits_by_character() {
    let mut app = App::new(vec![card("é✓", "", "")]);
    app.enable_edit(Attribute::Front);
    assert_eq!(app.cursor_location, 2);
    app.move_cursor_left();
    app.push('ü');
    assert_eq!(app.text, "éü✓");
}

#[test]
fn delete_and_add_cards() {
    let mut app = app_of(2);
    app.next();
    app.next();
    app.delete_selected();
    assert_eq!(app.cards.len(), 1);
    assert_eq!(app.cards[0].front, "f0");
    assert_eq!((app.selected, app.last_selected), (Some(0), 0));
    app.add_card();
    assert_eq!(app.cards.len(), 2);
    assert_eq!((app.cards[1].front.as_str(), app.cards[1].back.as_str()), ("New Card", ""));
    app.delete_selected();
    assert_eq!(app.cards[0].front, "New Card");
    assert_eq!((app.selected, app.last_selected), (Some(0), 0));
}

#[test]
fn formatted_info_line() {
    let mut app = app_of(1);
    let parts = app.get_formatted_text();
    assert_eq!(parts[0], (app.default_text.clone(), false));
    assert_eq!((parts[1].0.as_str(), parts[1].1), ("", false));
    app.enable_edit(Attribute::Front);
    let parts = app.get_formatted_text();
    assert_eq!(parts, vec![("f0".to_string(), false), (" ".to_string(), true), (String::new(), false)]);
    app.move_cursor_left();
    let parts = app.get_formatted_text();
    assert_eq!(parts, vec![("f".to_string(), false), ("0".to_string(), true), (String::new(), false)]);
    app.move_cursor_left();
    let parts = app.get_formatted_text();
    assert_eq!(parts, vec![("f".to_string(), true), ("0".to_string(), false), (String::new(), false)]);
    app.pop();
    assert_eq!(app.text, "f0");
    app.move_cursor_right();
    app.pop();
    assert_eq!(app.text, "0");
    app.move_cursor_right();
    app.pop();
    assert_eq!(app.text, "");
    let parts = app.get_formatted_text();
    assert_eq!(parts, vec![(String::new(), false), (" ".to_string(), true), (String::new(), false)]);
}

#[test]
fn keys_map_to_commands() {
    assert_eq!(decide(false, Key::Char('q')), Command::Quit);
    assert_eq!(decide(false, Key::Char('f')), Command::Edit(Attribute::Front));
    assert_eq!(decide(false, Key::Char('t')), Command::Edit(Attribute::MainTag));
    assert_eq!(decide(false, Key::Down), Command::Next);
    assert_eq!(decide(false, Key::Up), Command::Prev);
    assert_eq!(decide(false, Key::Left), Command::Deselect);
    assert_eq!(decide(false, Key::Char('x')), Command::Export);
    assert_eq!(decide(false, Key::Esc), Command::Nothing);
    assert_eq!(decide(true, Key::Char('q')), Command::Insert('q'));
    assert_eq!(decide(true, Key::Esc), Command::FinishEdit);
    assert_eq!(decide(true, Key::Backspace), Command::DeleteBack);
    assert_eq!(decide(true, Key::Up), Command::Nothing);
}

#[test]
fn export_file_text() {
    let cards = vec![card("a", "b<br>", "x y"), card("c", "", " ")];
    assert_eq!(export_text(&cards), "a;b<br>;x y\nc;; \n");
    assert_eq!(export_text(&Vec::new()), "");
}

#[test]
fn card_description() {
    assert_eq!(card("f", "b", "t").describe(), "|f|\n|b|\ntags: t");
}

#[test]
fn error_messages() {
    assert_eq!(ParseError::UnknownSymbol((12, 'x')).message(), "Unknown symbol: x on line 12");
    assert_eq!(ParseError::UnexpectedEndOfLine(0).message(), "Unexpected end of line at line 0");
    assert_eq!(ParseError::UnknownAttribute(305).message(), "Unknown attribute encountered on line 305");
    let e = parse_md("# main\n##badsub").err().unwrap();
    assert_eq!(e.message(), "Unexpected end of line at line 1");
}

#[test]
fn decimal_notation() {
    assert_eq!(decimal_string(0), "0");
    assert_eq!(decimal_string(9), "9");
    assert_eq!(decimal_string(10), "10");
    assert_eq!(decimal_string(1234567), "1234567");
    assert_eq!(decimal_string(usize::MAX), usize::MAX.to_string());
}
