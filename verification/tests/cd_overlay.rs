use elio::input::{KeyCode, KeyEvent, KeyModifiers, MouseButton, MouseEvent, MouseEventKind, Rect};
use elio::state::{App, Effect};

fn mods(control: bool, alt: bool, shift: bool) -> KeyModifiers {
    KeyModifiers { shift, control, alt, super_key: false, hyper: false, meta: false }
}

fn key(code: KeyCode) -> KeyEvent {
    KeyEvent { code, modifiers: KeyModifiers::none() }
}

fn ctrl(code: KeyCode) -> KeyEvent {
    KeyEvent { code, modifiers: mods(true, false, false) }
}

fn alt(code: KeyCode) -> KeyEvent {
    KeyEvent { code, modifiers: mods(false, true, false) }
}

fn app() -> App {
    App::new("/start".to_string(), Vec::new())
}

fn type_text(app: &mut App, text: &str) {
    for ch in text.chars() {
        let e = app.handle_cd_key(key(KeyCode::Char(ch)));
        assert!(matches!(e, Effect::Nothing));
    }
}

#[test]
fn opening_the_overlay_closes_the_others_and_starts_empty() {
    let mut a = app();
    a.overlays.help = true;
    a.overlays.search = true;
    a.overlays.create = true;
    a.overlays.trash = true;
    a.overlays.restore = true;
    a.overlays.rename = true;
    assert!(!a.cd_is_open());
    a.open_cd_overlay();
    assert!(a.cd_is_open());
    assert_eq!(a.cd_input(), "");
    assert_eq!(a.cd_cursor_col(), 0);
    assert_eq!(a.cd_error(), None);
    assert!(!a.overlays.help && !a.overlays.search && !a.overlays.create);
    assert!(!a.overlays.trash && !a.overlays.restore && !a.overlays.rename);
}

#[test]
fn closed_overlay_getters_are_empty() {
    let a = app();
    assert_eq!(a.cd_input(), "");
    assert_eq!(a.cd_cursor_col(), 0);
    assert_eq!(a.cd_error(), None);
}

#[test]
fn typing_inserts_at_the_cursor_counting_characters() {
    let mut a = app();
    a.open_cd_overlay();
    type_text(&mut a, "héllo");
    assert_eq!(a.cd_input(), "héllo");
    assert_eq!(a.cd_cursor_col(), 5);
    a.handle_cd_key(key(KeyCode::Left));
    a.handle_cd_key(key(KeyCode::Left));
    type_text(&mut a, "X");
    assert_eq!(a.cd_input(), "hélXlo");
    assert_eq!(a.cd_cursor_col(), 4);
    // Shift is allowed for typed characters.
    a.handle_cd_key(KeyEvent { code: KeyCode::Char('Y'), modifiers: mods(false, false, true) });
    assert_eq!(a.cd_input(), "hélXYlo");
}

#[test]
fn cursor_keys_stop_at_the_ends() {
    let mut a = app();
    a.open_cd_overlay();
    type_text(&mut a, "ab");
    a.handle_cd_key(key(KeyCode::Right));
    assert_eq!(a.cd_cursor_col(), 2);
    a.handle_cd_key(key(KeyCode::Home));
    assert_eq!(a.cd_cursor_col(), 0);
    a.handle_cd_key(key(KeyCode::Left));
    assert_eq!(a.cd_cursor_col(), 0);
    a.handle_cd_key(key(KeyCode::Right));
    assert_eq!(a.cd_cursor_col(), 1);
    a.handle_cd_key(key(KeyCode::End));
    assert_eq!(a.cd_cursor_col(), 2);
    // With a modifier, Home does nothing.
    a.handle_cd_key(KeyEvent { code: KeyCode::Home, modifiers: mods(false, false, true) });
    assert_eq!(a.cd_cursor_col(), 2);
}

#[test]
fn word_movement_skips_whitespace_separated_words() {
    let mut a = app();
    a.open_cd_overlay();
    type_text(&mut a, "foo bar  baz");
    a.handle_cd_key(ctrl(KeyCode::Left));
    assert_eq!(a.cd_cursor_col(), 9);
    a.handle_cd_key(ctrl(KeyCode::Left));
    assert_eq!(a.cd_cursor_col(), 4);
    a.handle_cd_key(ctrl(KeyCode::Left));
    assert_eq!(a.cd_cursor_col(), 0);
    a.handle_cd_key(ctrl(KeyCode::Right));
    assert_eq!(a.cd_cursor_col(), 4);
    a.handle_cd_key(ctrl(KeyCode::Right));
    assert_eq!(a.cd_cursor_col(), 9);
    a.handle_cd_key(ctrl(KeyCode::Right));
    assert_eq!(a.cd_cursor_col(), 12);
    // Control with Alt is not word movement.
    a.handle_cd_key(KeyEvent { code: KeyCode::Left, modifiers: mods(true, true, false) });
    assert_eq!(a.cd_cursor_col(), 12);
}

#[test]
fn backspace_and_delete_remove_one_character() {
    let mut a = app();
    a.open_cd_overlay();
    type_text(&mut a, "abc");
    a.handle_cd_key(key(KeyCode::Backspace));
    assert_eq!(a.cd_input(), "ab");
    assert_eq!(a.cd_cursor_col(), 2);
    a.handle_cd_key(key(KeyCode::Home));
    a.handle_cd_key(key(KeyCode::Delete));
    assert_eq!(a.cd_input(), "b");
    assert_eq!(a.cd_cursor_col(), 0);
    a.handle_cd_key(key(KeyCode::Backspace));
    assert_eq!(a.cd_input(), "b");
    a.handle_cd_key(key(KeyCode::End));
    a.handle_cd_key(key(KeyCode::Delete));
    assert_eq!(a.cd_input(), "b");
}

#[test]
fn word_deletion_stops_at_path_separators() {
    let mut a = app();
    a.open_cd_overlay();
    type_text(&mut a, "~/projects/foo");
    a.handle_cd_key(ctrl(KeyCode::Char('w')));
    assert_eq!(a.cd_input(), "~/projects/");
    assert_eq!(a.cd_cursor_col(), 11);
    a.handle_cd_key(ctrl(KeyCode::Backspace));
    assert_eq!(a.cd_input(), "~/");
    a.handle_cd_key(ctrl(KeyCode::Char('h')));
    assert_eq!(a.cd_input(), "");
    assert_eq!(a.cd_cursor_col(), 0);
    type_text(&mut a, "a/bc de");
    a.handle_cd_key(key(KeyCode::Home));
    a.handle_cd_key(alt(KeyCode::Char('d')));
    assert_eq!(a.cd_input(), "/bc de");
    a.handle_cd_key(ctrl(KeyCode::Delete));
    assert_eq!(a.cd_input(), " de");
    assert_eq!(a.cd_cursor_col(), 0);
}

#[test]
fn control_and_alt_characters_are_not_typed() {
    let mut a = app();
    a.open_cd_overlay();
    type_text(&mut a, "ab");
    a.handle_cd_key(ctrl(KeyCode::Char('x')));
    a.handle_cd_key(alt(KeyCode::Char('x')));
    a.handle_cd_key(ctrl(KeyCode::Char('d')));
    a.handle_cd_key(alt(KeyCode::Char('w')));
    assert_eq!(a.cd_input(), "ab");
    assert!(a.cd_is_open());
}

#[test]
fn escape_and_control_c_close_the_overlay() {
    let mut a = app();
    a.open_cd_overlay();
    type_text(&mut a, "abc");
    assert!(matches!(a.handle_cd_key(key(KeyCode::Esc)), Effect::Nothing));
    assert!(!a.cd_is_open());
    a.open_cd_overlay();
    let e = a.handle_cd_key(KeyEvent { code: KeyCode::Char('c'), modifiers: mods(true, true, true) });
    assert!(matches!(e, Effect::Nothing));
    assert!(!a.cd_is_open());
}

#[test]
fn keys_do_nothing_when_the_overlay_is_closed() {
    let mut a = app();
    assert!(matches!(a.handle_cd_key(key(KeyCode::Char('a'))), Effect::Nothing));
    assert!(matches!(a.handle_cd_key(key(KeyCode::Enter)), Effect::Nothing));
    assert!(!a.cd_is_open());
}

#[test]
fn enter_on_blank_input_closes_without_navigating() {
    let mut a = app();
    a.open_cd_overlay();
    type_text(&mut a, "   ");
    let e = a.handle_cd_key(key(KeyCode::Enter));
    assert!(matches!(e, Effect::Nothing));
    assert!(!a.cd_is_open());
}

#[test]
fn enter_with_a_modifier_does_nothing() {
    let mut a = app();
    a.open_cd_overlay();
    type_text(&mut a, "/");
    let e = a.handle_cd_key(KeyEvent { code: KeyCode::Enter, modifiers: mods(false, false, true) });
    assert!(matches!(e, Effect::Nothing));
    assert!(a.cd_is_open());
}

#[test]
fn enter_hands_back_the_trimmed_directory() {
    let mut a = app();
    a.open_cd_overlay();
    type_text(&mut a, "  /  ");
    match a.handle_cd_key(key(KeyCode::Enter)) {
        Effect::SetDir(p) => assert_eq!(p, "/"),
        Effect::Nothing => panic!("expected a directory"),
    }
    // The overlay stays open until the outcome is reported.
    assert!(a.cd_is_open());
    a.finish_cd(Ok(()));
    assert!(!a.cd_is_open());
}

#[test]
fn a_failed_navigation_shows_the_error_and_keeps_the_input() {
    let mut a = app();
    a.open_cd_overlay();
    type_text(&mut a, "/nowhere");
    a.finish_cd(Err("No such file or directory".to_string()));
    assert!(a.cd_is_open());
    assert_eq!(a.cd_error(), Some("No such file or directory"));
    assert_eq!(a.cd_input(), "/nowhere");
    // Editing clears the error.
    a.handle_cd_key(key(KeyCode::Backspace));
    assert_eq!(a.cd_error(), None);
}

#[test]
fn moving_the_cursor_keeps_the_error() {
    let mut a = app();
    a.open_cd_overlay();
    type_text(&mut a, "ab");
    a.finish_cd(Err("bad".to_string()));
    a.handle_cd_key(key(KeyCode::Left));
    assert_eq!(a.cd_error(), Some("bad"));
}

#[test]
fn clicking_outside_the_panel_closes_the_overlay() {
    let mut a = app();
    a.open_cd_overlay();
    a.input.frame_state.cd_panel = Some(Rect { x: 10, y: 5, width: 20, height: 3 });
    let inside = MouseEvent { kind: MouseEventKind::Down(MouseButton::Left), column: 29, row: 7 };
    a.handle_cd_mouse(inside);
    assert!(a.cd_is_open());
    let right_click = MouseEvent { kind: MouseEventKind::Down(MouseButton::Right), column: 0, row: 0 };
    a.handle_cd_mouse(right_click);
    assert!(a.cd_is_open());
    let outside = MouseEvent { kind: MouseEventKind::Down(MouseButton::Left), column: 30, row: 7 };
    a.handle_cd_mouse(outside);
    assert!(!a.cd_is_open());
}

#[test]
fn clicking_without_a_drawn_panel_closes_the_overlay() {
    let mut a = app();
    a.open_cd_overlay();
    let click = MouseEvent { kind: MouseEventKind::Down(MouseButton::Left), column: 1, row: 1 };
    a.handle_cd_mouse(click);
    assert!(!a.cd_is_open());
}

#[test]
fn typing_then_backspace_gives_back_input_and_cursor() {
    let mut a = app();
    a.open_cd_overlay();
    type_text(&mut a, "/usr/lcal");
    for _ in 0..3 {
        a.handle_cd_key(key(KeyCode::Left));
    }
    a.finish_cd(Err("no such directory".to_string()));
    let before_input = a.cd_input().to_string();
    let before_cursor = a.cd_cursor_col();
    a.handle_cd_key(key(KeyCode::Char('o')));
    assert_eq!(a.cd_input(), "/usr/local");
    a.handle_cd_key(key(KeyCode::Backspace));
    assert_eq!(a.cd_input(), before_input);
    assert_eq!(a.cd_cursor_col(), before_cursor);
    assert_eq!(a.cd_error(), None);
}

#[test]
fn left_then_right_gives_back_the_cursor() {
    let mut a = app();
    a.open_cd_overlay();
    type_text(&mut a, "abc");
    a.handle_cd_key(key(KeyCode::Left));
    let cursor = a.cd_cursor_col();
    a.handle_cd_key(key(KeyCode::Left));
    a.handle_cd_key(key(KeyCode::Right));
    assert_eq!(a.cd_cursor_col(), cursor);
    assert_eq!(a.cd_input(), "abc");
}

#[test]
fn word_deletion_at_the_start_does_nothing() {
    let mut a = app();
    a.open_cd_overlay();
    type_text(&mut a, "abc");
    a.finish_cd(Err("bad".to_string()));
    a.handle_cd_key(key(KeyCode::Home));
    a.handle_cd_key(ctrl(KeyCode::Backspace));
    assert_eq!(a.cd_input(), "abc");
    // Nothing was removed, so the error stays.
    assert_eq!(a.cd_error(), Some("bad"));
}
