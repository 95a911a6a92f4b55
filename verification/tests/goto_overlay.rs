use elio::config::{GoToConfig, GoToEntry};
use elio::goto::{build_goto_overlay, goto_candidates, goto_row};
use elio::input::{KeyCode, KeyEvent, KeyModifiers, MouseButton, MouseEvent, MouseEventKind, Rect};
use elio::state::{
    App, Effect, GoToDestination, GoToHit, GoToOverlay, GoToOverlayRow, SidebarItem, SidebarRow,
};

const MISSING: &str = "/this/path/does/not/exist/anywhere";

fn key(ch: char) -> KeyEvent {
    KeyEvent { code: KeyCode::Char(ch), modifiers: KeyModifiers::none() }
}

fn item(title: &str, path: &str) -> SidebarRow {
    SidebarRow::Item(SidebarItem { title: title.to_string(), path: path.to_string() })
}

fn entry(title: &str, path: &str) -> GoToEntry {
    GoToEntry { title: title.to_string(), path: path.to_string() }
}

fn no_config() -> GoToConfig {
    GoToConfig { entries: Vec::new() }
}

fn sidebar_app() -> App {
    App::new(
        "/start".to_string(),
        vec![
            SidebarRow::Section("Places".to_string()),
            item("Root", "/"),
            item("Gone", MISSING),
            SidebarRow::Section("Devices".to_string()),
            item("Three", "/"),
            item("Four", "/"),
            item("Five", "/"),
            item("Six", "/"),
        ],
    )
}

#[test]
fn overlay_lists_the_first_five_sidebar_items() {
    let mut a = sidebar_app();
    a.status = "old status".to_string();
    a.overlays.help = true;
    a.open_goto_overlay(&no_config());
    assert!(a.goto_is_open());
    assert!(!a.overlays.help);
    assert_eq!(a.status, "");
    assert_eq!(a.goto_title(), "Go to");
    assert_eq!(a.goto_row_count(), 5);
    let labels: Vec<&str> = (0..5).map(|i| a.goto_row_label(i)).collect();
    assert_eq!(labels, vec!["Root", "Gone", "Three", "Four", "Five"]);
    let shortcuts: Vec<Option<char>> = (0..6).map(|i| a.goto_row_shortcut(i)).collect();
    assert_eq!(shortcuts, vec![Some('1'), Some('2'), Some('3'), Some('4'), Some('5'), None]);
    assert_eq!(a.goto_row_label(5), "");
}

#[test]
fn closed_goto_overlay_getters_are_empty() {
    let a = sidebar_app();
    assert!(!a.goto_is_open());
    assert_eq!(a.goto_title(), "");
    assert_eq!(a.goto_row_count(), 0);
    assert_eq!(a.goto_row_label(0), "");
    assert_eq!(a.goto_row_shortcut(0), None);
}

#[test]
fn configured_entries_replace_the_sidebar() {
    let a = sidebar_app();
    let config = GoToConfig { entries: vec![entry("Etc", "/"), entry("Nope", MISSING)] };
    let o = build_goto_overlay(&a, &config);
    assert_eq!(o.rows.len(), 2);
    assert_eq!(o.rows[0].label, "Etc");
    assert!(matches!(&o.rows[0].destination, GoToDestination::Path(p) if p == "/"));
    assert!(
        matches!(&o.rows[1].destination, GoToDestination::Missing(m) if m == "Nope not available")
    );
}

#[test]
fn candidates_take_at_most_five_configured_entries() {
    let config = GoToConfig {
        entries: (0..7).map(|i| entry(&format!("E{i}"), &format!("/e{i}"))).collect(),
    };
    let c = goto_candidates(&Vec::new(), &config);
    let titles: Vec<&str> = c.iter().map(|e| e.title.as_str()).collect();
    assert_eq!(titles, vec!["E0", "E1", "E2", "E3", "E4"]);
}

#[test]
fn a_row_reports_a_missing_destination() {
    let r = goto_row(2, &entry("Music", "/m"), false);
    assert_eq!(r.shortcut, '3');
    assert_eq!(r.label, "Music");
    assert!(matches!(r.destination, GoToDestination::Missing(ref m) if m == "Music not available"));
    let r = goto_row(0, &entry("Music", "/m"), true);
    assert_eq!(r.shortcut, '1');
    assert!(matches!(r.destination, GoToDestination::Path(ref p) if p == "/m"));
}

#[test]
fn a_shortcut_opens_an_existing_destination() {
    let mut a = sidebar_app();
    a.open_goto_overlay(&no_config());
    match a.handle_goto_key(key('1')) {
        Effect::SetDir(p) => assert_eq!(p, "/"),
        Effect::Nothing => panic!("expected a directory"),
    }
    assert!(!a.goto_is_open());
}

#[test]
fn a_shortcut_for_a_missing_destination_sets_the_status() {
    let mut a = sidebar_app();
    a.open_goto_overlay(&no_config());
    assert!(matches!(a.handle_goto_key(key('2')), Effect::Nothing));
    assert!(a.goto_is_open());
    assert_eq!(a.status, "Gone not available");
}

#[test]
fn zero_returns_to_the_start_directory() {
    let mut a = sidebar_app();
    a.open_goto_overlay(&no_config());
    match a.handle_goto_key(key('0')) {
        Effect::SetDir(p) => assert_eq!(p, "/start"),
        Effect::Nothing => panic!("expected the start directory"),
    }
    assert!(!a.goto_is_open());
}

#[test]
fn unknown_keys_and_modified_keys_do_nothing() {
    let mut a = sidebar_app();
    a.open_goto_overlay(&no_config());
    assert!(matches!(a.handle_goto_key(key('9')), Effect::Nothing));
    let alt_one = KeyEvent {
        code: KeyCode::Char('1'),
        modifiers: KeyModifiers { alt: true, ..KeyModifiers::none() },
    };
    assert!(matches!(a.handle_goto_key(alt_one), Effect::Nothing));
    let up = KeyEvent { code: KeyCode::Up, modifiers: KeyModifiers::none() };
    assert!(matches!(a.handle_goto_key(up), Effect::Nothing));
    assert!(a.goto_is_open());
}

#[test]
fn escape_and_control_c_close_the_goto_overlay() {
    let mut a = sidebar_app();
    a.open_goto_overlay(&no_config());
    let esc = KeyEvent { code: KeyCode::Esc, modifiers: KeyModifiers::none() };
    assert!(matches!(a.handle_goto_key(esc), Effect::Nothing));
    assert!(!a.goto_is_open());
    a.open_goto_overlay(&no_config());
    let ctrl_c = KeyEvent {
        code: KeyCode::Char('c'),
        modifiers: KeyModifiers { control: true, ..KeyModifiers::none() },
    };
    assert!(matches!(a.handle_goto_key(ctrl_c), Effect::Nothing));
    assert!(!a.goto_is_open());
}

#[test]
fn shortcut_lookup_ignores_ascii_case() {
    let mut a = sidebar_app();
    a.overlays.goto = Some(GoToOverlay {
        title: "Go to".to_string(),
        rows: vec![
            GoToOverlayRow {
                shortcut: 'a',
                label: "A".to_string(),
                destination: GoToDestination::Path("/a".to_string()),
            },
            GoToOverlayRow {
                shortcut: 'B',
                label: "B".to_string(),
                destination: GoToDestination::Path("/b".to_string()),
            },
        ],
    });
    assert_eq!(a.goto_row_index_for_shortcut('A'), Some(0));
    assert_eq!(a.goto_row_index_for_shortcut('b'), Some(1));
    assert_eq!(a.goto_row_index_for_shortcut('c'), None);
    match a.handle_goto_key(key('b')) {
        Effect::SetDir(p) => assert_eq!(p, "/b"),
        Effect::Nothing => panic!("expected /b"),
    }
}

#[test]
fn confirming_an_index_without_a_row_does_nothing() {
    let mut a = sidebar_app();
    a.open_goto_overlay(&no_config());
    assert!(matches!(a.confirm_goto_index(7), Effect::Nothing));
    assert!(a.goto_is_open());
    assert_eq!(a.status, "");
}

#[test]
fn clicks_choose_rows_or_close_the_overlay() {
    let mut a = sidebar_app();
    a.open_goto_overlay(&no_config());
    a.input.frame_state.goto_panel = Some(Rect { x: 0, y: 0, width: 40, height: 10 });
    a.input.frame_state.goto_hits = vec![
        GoToHit { rect: Rect { x: 1, y: 1, width: 30, height: 1 }, index: 1 },
        GoToHit { rect: Rect { x: 1, y: 2, width: 30, height: 1 }, index: 0 },
    ];
    let click = |column, row| MouseEvent { kind: MouseEventKind::Down(MouseButton::Left), column, row };
    // Inside the panel but on no row.
    assert!(matches!(a.handle_goto_mouse(click(35, 5)), Effect::Nothing));
    assert!(a.goto_is_open());
    // On the row of the missing destination.
    assert!(matches!(a.handle_goto_mouse(click(5, 1)), Effect::Nothing));
    assert_eq!(a.status, "Gone not available");
    // On the row of the root directory.
    match a.handle_goto_mouse(click(5, 2)) {
        Effect::SetDir(p) => assert_eq!(p, "/"),
        Effect::Nothing => panic!("expected /"),
    }
    assert!(!a.goto_is_open());
    a.open_goto_overlay(&no_config());
    assert!(matches!(a.handle_goto_mouse(click(50, 5)), Effect::Nothing));
    assert!(!a.goto_is_open());
}

#[test]
fn headings_and_items_after_the_fifth_change_no_row() {
    let five: Vec<SidebarRow> = (1..=5).map(|i| item(&format!("P{i}"), "/")).collect();
    let mut with_extra = vec![SidebarRow::Section("Places".to_string())];
    with_extra.extend((1..=3).map(|i| item(&format!("P{i}"), "/")));
    with_extra.push(SidebarRow::Section("More".to_string()));
    with_extra.extend((4..=7).map(|i| item(&format!("P{i}"), "/")));
    let a = goto_candidates(&five, &no_config());
    let b = goto_candidates(&with_extra, &no_config());
    let titles = |c: &Vec<GoToEntry>| c.iter().map(|e| e.title.clone()).collect::<Vec<_>>();
    assert_eq!(titles(&a), titles(&b));
    assert_eq!(titles(&a), vec!["P1", "P2", "P3", "P4", "P5"]);
}
