use redis_tui::app::FieldsPanel;
use redis_tui::list_state::ListSelection;
use redis_tui::{App, KeyCode, KeyEvent, KeyEventKind, Mode, Part, RedisHash, RedisKeysItem, RedisValue, ValuePanel};

fn press(code: KeyCode) -> KeyEvent {
    KeyEvent { code, kind: KeyEventKind::Press }
}

fn app(keys: &[&str]) -> App {
    App::new(keys.iter().map(|s| s.to_string()).collect())
}

fn type_text(app: &mut App, text: &str) -> Option<String> {
    let mut last = None;
    for c in text.chars() {
        last = app.handle_key(press(KeyCode::Char(c)));
    }
    last
}

fn visible_keys(app: &mut App) -> Vec<String> {
    app.keys_panel(100).lines
}

fn fields(panel: ValuePanel) -> FieldsPanel {
    match panel {
        ValuePanel::Fields(f) => f,
        ValuePanel::Text(t) => panic!("expected fields, got text {t}"),
    }
}

fn text(panel: ValuePanel) -> String {
    match panel {
        ValuePanel::Text(t) => t,
        ValuePanel::Fields(_) => panic!("expected text"),
    }
}

#[test]
fn new_app_starts_on_the_input() {
    let mut a = app(&["a", "b", "c"]);
    assert_eq!(a.mode(), Mode::SelectingParts(Part::KeyInput));
    assert!(!a.should_exit());
    assert_eq!(a.key_input(), "");
    assert_eq!(a.filtered_len(), 3);
    assert_eq!(a.redis_keys_selected(), None);
    assert_eq!(a.redis_keys_percent(), 30);
    assert_eq!(a.redis_value_percent(), 70);
    assert_eq!(a.redis_key_horizontal_scroll(), 0);
    assert_eq!(text(a.value_panel()), "No key selected");
    assert_eq!(visible_keys(&mut a), vec!["a", "b", "c"]);
}

#[test]
fn redis_keys_item_holds_its_key() {
    let item = RedisKeysItem::new("user:1".to_string());
    assert_eq!(item.redis_key(), "user:1");
}

#[test]
fn q_exits_when_selecting() {
    let mut a = app(&["a"]);
    assert_eq!(a.handle_key(press(KeyCode::Char('q'))), None);
    assert!(a.should_exit());
}

#[test]
fn releases_and_repeats_are_ignored() {
    let mut a = app(&["a"]);
    a.handle_key(KeyEvent { code: KeyCode::Char('q'), kind: KeyEventKind::Release });
    a.handle_key(KeyEvent { code: KeyCode::Enter, kind: KeyEventKind::Repeat });
    assert!(!a.should_exit());
    assert_eq!(a.mode(), Mode::SelectingParts(Part::KeyInput));
}

#[test]
fn highlight_moves_between_parts() {
    let mut a = app(&["a"]);
    a.handle_key(press(KeyCode::Char('j')));
    assert_eq!(a.mode(), Mode::SelectingParts(Part::RedisKeys));
    assert!(a.is_highlighted(Part::RedisKeys));
    a.handle_key(press(KeyCode::Right));
    assert_eq!(a.mode(), Mode::SelectingParts(Part::RedisValue));
    a.handle_key(press(KeyCode::Char('l')));
    assert_eq!(a.mode(), Mode::SelectingParts(Part::RedisValue));
    a.handle_key(press(KeyCode::Left));
    assert_eq!(a.mode(), Mode::SelectingParts(Part::RedisKeys));
    a.handle_key(press(KeyCode::Right));
    a.handle_key(press(KeyCode::Up));
    assert_eq!(a.mode(), Mode::SelectingParts(Part::KeyInput));
    a.handle_key(press(KeyCode::Char('k')));
    assert_eq!(a.mode(), Mode::SelectingParts(Part::KeyInput));
    a.handle_key(press(KeyCode::Char('h')));
    assert_eq!(a.mode(), Mode::SelectingParts(Part::KeyInput));
}

#[test]
fn enter_then_esc_returns_to_selecting() {
    for down in 0..3 {
        let mut a = app(&["a"]);
        for _ in 0..down.min(1) {
            a.handle_key(press(KeyCode::Down));
        }
        if down == 2 {
            a.handle_key(press(KeyCode::Right));
        }
        let before = a.mode();
        assert_eq!(a.handle_key(press(KeyCode::Enter)), None);
        match before {
            Mode::SelectingParts(p) => {
                assert_eq!(a.mode(), Mode::FocusedOnPart(p));
                assert!(a.is_focused(p));
            }
            _ => unreachable!(),
        }
        assert_eq!(a.handle_key(press(KeyCode::Esc)), None);
        assert_eq!(a.mode(), before);
    }
}

#[test]
fn typing_filters_the_keys() {
    let mut a = app(&["user:1", "session:9", "user:22", "cart"]);
    a.handle_key(press(KeyCode::Enter));
    assert_eq!(type_text(&mut a, "user"), None);
    assert_eq!(a.key_input(), "user");
    assert_eq!(a.filtered_len(), 2);
    assert_eq!(visible_keys(&mut a), vec!["user:1", "user:22"]);
    // 'q' is typed into the input, it does not exit
    type_text(&mut a, "q");
    assert!(!a.should_exit());
    assert_eq!(a.filtered_len(), 0);
}

#[test]
fn typing_then_deleting_restores_the_filter() {
    let mut a = app(&["abc", "abd", "xyz"]);
    a.handle_key(press(KeyCode::Enter));
    type_text(&mut a, "ab");
    assert_eq!(a.filtered_len(), 2);
    type_text(&mut a, "c");
    assert_eq!(a.filtered_len(), 1);
    a.handle_key(press(KeyCode::Backspace));
    assert_eq!(a.key_input(), "ab");
    assert_eq!(a.filtered_len(), 2);
    a.handle_key(press(KeyCode::Backspace));
    a.handle_key(press(KeyCode::Backspace));
    a.handle_key(press(KeyCode::Backspace));
    assert_eq!(a.key_input(), "");
    assert_eq!(a.filtered_len(), 3);
}

#[test]
fn backspace_on_multibyte_character() {
    let mut a = app(&["é", "e"]);
    a.handle_key(press(KeyCode::Enter));
    type_text(&mut a, "é");
    assert_eq!(a.filtered_len(), 1);
    a.handle_key(press(KeyCode::Backspace));
    assert_eq!(a.key_input(), "");
    assert_eq!(a.filtered_len(), 2);
}

#[test]
fn parts_resize_within_bounds() {
    let mut a = app(&["a"]);
    a.handle_key(press(KeyCode::Char('H')));
    assert_eq!(a.redis_keys_percent(), 29);
    a.handle_key(press(KeyCode::Char('L')));
    assert_eq!(a.redis_keys_percent(), 30);
    for _ in 0..100 {
        a.handle_key(press(KeyCode::Char('H')));
    }
    assert_eq!(a.redis_keys_percent(), 10);
    assert_eq!(a.redis_value_percent(), 90);
    for _ in 0..100 {
        a.handle_key(press(KeyCode::Char('L')));
    }
    assert_eq!(a.redis_keys_percent(), 89);
    assert_eq!(a.redis_value_percent(), 11);
}

#[test]
fn selecting_keys_asks_for_their_values() {
    let mut a = app(&["a", "b", "c"]);
    a.handle_key(press(KeyCode::Down));
    a.handle_key(press(KeyCode::Enter));
    assert_eq!(a.mode(), Mode::FocusedOnPart(Part::RedisKeys));
    assert_eq!(a.handle_key(press(KeyCode::Char('j'))), Some("a".to_string()));
    assert_eq!(a.redis_keys_selected(), Some(0));
    assert_eq!(a.handle_key(press(KeyCode::Down)), Some("b".to_string()));
    assert_eq!(a.handle_key(press(KeyCode::Char('G'))), Some("c".to_string()));
    assert_eq!(a.redis_keys_selected(), Some(usize::MAX));
    assert_eq!(a.handle_key(press(KeyCode::Home)), Some("a".to_string()));
    assert_eq!(a.handle_key(press(KeyCode::Up)), Some("a".to_string()));
    assert_eq!(a.redis_keys_selected(), Some(0));
    a.handle_key(press(KeyCode::Char('q')));
    assert!(a.should_exit());
}

#[test]
fn previous_with_nothing_selected_goes_to_the_last() {
    let mut a = app(&["a", "b"]);
    a.handle_key(press(KeyCode::Down));
    a.handle_key(press(KeyCode::Enter));
    assert_eq!(a.handle_key(press(KeyCode::Char('k'))), Some("b".to_string()));
    assert_eq!(a.redis_keys_selected(), Some(usize::MAX));
}

#[test]
fn no_matching_key_clears_the_value() {
    let mut a = app(&["a", "b"]);
    a.handle_key(press(KeyCode::Down));
    a.handle_key(press(KeyCode::Enter));
    let fetch = a.handle_key(press(KeyCode::Down)).unwrap();
    assert_eq!(fetch, "a");
    a.show_redis_value(RedisValue::Unknown);
    assert_eq!(text(a.value_panel()), "Unknown value");
    a.handle_key(press(KeyCode::Esc));
    a.handle_key(press(KeyCode::Up));
    a.handle_key(press(KeyCode::Enter));
    assert_eq!(type_text(&mut a, "zz"), None);
    assert_eq!(text(a.value_panel()), "No key selected");
    // deleting brings a match back, and its value is asked for again
    a.handle_key(press(KeyCode::Backspace));
    assert_eq!(a.handle_key(press(KeyCode::Backspace)), Some("a".to_string()));
}

#[test]
fn the_fetched_key_is_clamped_to_the_last_match() {
    let mut a = app(&["ab", "b", "ac"]);
    a.handle_key(press(KeyCode::Down));
    a.handle_key(press(KeyCode::Enter));
    a.handle_key(press(KeyCode::End));
    a.handle_key(press(KeyCode::Esc));
    a.handle_key(press(KeyCode::Up));
    a.handle_key(press(KeyCode::Enter));
    assert_eq!(type_text(&mut a, "a"), Some("ac".to_string()));
}

#[test]
fn hash_values_are_listed_and_navigable() {
    let mut a = app(&["h"]);
    let h = RedisHash::from_entries(vec![
        ("b".to_string(), "2".to_string()),
        ("a".to_string(), "1".to_string()),
        ("c".to_string(), "3".to_string()),
    ]);
    a.show_redis_value(RedisValue::Hash(h));
    let f = fields(a.value_panel());
    assert_eq!(f.lines, vec!["a: 1", "b: 2", "c: 3"]);
    assert_eq!(f.matches_text, "1/3");
    assert_eq!(f.selected, Some(0));
    // focus the value part
    a.handle_key(press(KeyCode::Down));
    a.handle_key(press(KeyCode::Right));
    a.handle_key(press(KeyCode::Enter));
    assert_eq!(a.mode(), Mode::FocusedOnPart(Part::RedisValue));
    a.handle_key(press(KeyCode::Char('j')));
    assert_eq!(fields(a.value_panel()).matches_text, "2/3");
    a.handle_key(press(KeyCode::End));
    let f = fields(a.value_panel());
    assert_eq!(f.selected, Some(usize::MAX));
    assert_eq!(f.matches_text, "3/3");
    a.set_redis_value_selected(Some(2));
    a.handle_key(press(KeyCode::Up));
    assert_eq!(fields(a.value_panel()).selected, Some(1));
    a.handle_key(press(KeyCode::Char('g')));
    assert_eq!(fields(a.value_panel()).matches_text, "1/3");
    a.handle_key(press(KeyCode::Char('q')));
    assert!(a.should_exit());
}

#[test]
fn empty_hash_has_no_fields() {
    let mut a = app(&["h"]);
    a.show_redis_value(RedisValue::Hash(RedisHash::new()));
    let f = fields(a.value_panel());
    assert!(f.lines.is_empty());
    assert_eq!(f.matches_text, "No fields");
}

#[test]
fn keys_panel_selects_first_and_counts() {
    let mut a = app(&["user:1", "user:2", "other"]);
    let panel = a.keys_panel(40);
    assert_eq!(panel.fetch, Some("user:1".to_string()));
    assert_eq!(panel.matches_text, "1/3");
    assert_eq!(a.redis_keys_selected(), Some(0));
    let panel = a.keys_panel(40);
    assert_eq!(panel.fetch, None);
    a.handle_key(press(KeyCode::Enter));
    type_text(&mut a, "user");
    a.set_redis_keys_selected(Some(1));
    let panel = a.keys_panel(40);
    assert_eq!(panel.matches_text, "2/2 (total 3)");
    type_text(&mut a, "x");
    let panel = a.keys_panel(40);
    assert_eq!(panel.matches_text, "No matches");
    assert!(panel.lines.is_empty());
    assert_eq!(panel.largest_horizontal_scroll, 0);
}

#[test]
fn keys_panel_clamps_the_scroll() {
    let mut a = app(&["0123456789", "abc"]);
    a.handle_key(press(KeyCode::Down));
    a.handle_key(press(KeyCode::Enter));
    for _ in 0..20 {
        a.handle_key(press(KeyCode::Char('l')));
    }
    assert_eq!(a.redis_key_horizontal_scroll(), 20);
    // 8 cells wide: 3 cells of room for the keys, so at most 10 - 3 = 7 to scroll
    let panel = a.keys_panel(8);
    assert_eq!(panel.largest_horizontal_scroll, 7);
    assert_eq!(a.redis_key_horizontal_scroll(), 7);
    assert_eq!(panel.lines, vec!["789", ""]);
    a.handle_key(press(KeyCode::Char('h')));
    a.handle_key(press(KeyCode::Left));
    assert_eq!(a.redis_key_horizontal_scroll(), 5);
    let panel = a.keys_panel(8);
    assert_eq!(panel.lines, vec!["56789", ""]);
    for _ in 0..10 {
        a.handle_key(press(KeyCode::Left));
    }
    assert_eq!(a.redis_key_horizontal_scroll(), 0);
}

#[test]
fn keys_panel_scroll_uses_byte_widths() {
    let mut a = app(&["éé"]);
    // four bytes, one cell of room: up to 3 to scroll
    assert_eq!(a.keys_panel(6).largest_horizontal_scroll, 3);
}

#[test]
fn cursor_follows_the_input() {
    let mut a = app(&["a"]);
    assert_eq!(a.key_input_cursor_x(), 7);
    a.handle_key(press(KeyCode::Enter));
    type_text(&mut a, "abé");
    assert_eq!(a.key_input_cursor_x(), 11);
}

#[test]
fn list_selection_moves() {
    let mut s = ListSelection::new();
    assert_eq!(s.selected(), None);
    s.select_next();
    assert_eq!(s.selected(), Some(0));
    s.select_next();
    s.select_previous();
    assert_eq!(s.selected(), Some(0));
    s.select_previous();
    assert_eq!(s.selected(), Some(0));
    s.select_last();
    s.select_next();
    assert_eq!(s.selected(), Some(usize::MAX));
    s.select(None);
    s.select_previous();
    assert_eq!(s.selected(), Some(usize::MAX));
    s.select_first();
    assert_eq!(s.selected(), Some(0));
    assert_eq!(ListSelection::with_selected(Some(4)).selected(), Some(4));
}

#[test]
fn widening_then_narrowing_restores_the_split() {
    let mut a = app(&["a"]);
    a.handle_key(press(KeyCode::Char('L')));
    assert_eq!(a.redis_keys_percent(), 31);
    a.handle_key(press(KeyCode::Char('H')));
    assert_eq!(a.redis_keys_percent(), 30);
}

#[test]
fn typing_only_narrows_the_matches() {
    let mut a = app(&["user:1", "user:12", "session:1", "user:2"]);
    a.handle_key(press(KeyCode::Enter));
    type_text(&mut a, "1");
    let before = visible_keys(&mut a);
    assert_eq!(before, vec!["user:1", "user:12", "session:1"]);
    type_text(&mut a, "2");
    let after = visible_keys(&mut a);
    assert_eq!(after, vec!["user:12"]);
    assert!(after.iter().all(|k| before.contains(k)));
}
