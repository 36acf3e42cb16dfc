use barcode_generator::app::{KEY_BACKSPACE, KEY_DOWN, KEY_ENTER, KEY_F3, KEY_LEFT, KEY_RIGHT, KEY_UP};
use barcode_generator::stored::{code_key, format_from_key, format_key, settings_from_fields};
use barcode_generator::{AppState, BarcodeApp, BarcodeFormat};

fn type_text(app: &mut BarcodeApp, text: &str) {
    for c in text.chars() {
        assert!(app.handle_key(c));
    }
}

#[test]
fn new_app_starts_on_menu() {
    let app = BarcodeApp::new();
    assert_eq!(app.state, AppState::MainMenu);
    assert_eq!(app.menu_index, 0);
    assert!(app.input_text.is_empty());
    assert!(app.barcode.is_none());
    assert!(app.saved_codes.is_empty());
    assert!(app.needs_redraw);
}

#[test]
fn quit_from_menu() {
    let mut app = BarcodeApp::new();
    assert!(!app.handle_key('q'));
}

#[test]
fn menu_cursor_stays_in_range() {
    let mut app = BarcodeApp::new();
    app.handle_key(KEY_UP);
    assert_eq!(app.menu_index, 0);
    for _ in 0..6 {
        app.handle_key(KEY_DOWN);
    }
    assert_eq!(app.menu_index, 3);
    app.handle_key(KEY_ENTER);
    assert_eq!(app.state, AppState::Help);
    app.handle_key(KEY_BACKSPACE);
    assert_eq!(app.state, AppState::MainMenu);
}

#[test]
fn unknown_menu_key_needs_no_redraw() {
    let mut app = BarcodeApp::new();
    assert!(app.handle_key('z'));
    assert!(!app.needs_redraw);
    assert_eq!(app.state, AppState::MainMenu);
}

#[test]
fn enter_text_and_generate_with_auto_format() {
    let mut app = BarcodeApp::new();
    app.handle_key('n');
    assert_eq!(app.state, AppState::Input);
    type_text(&mut app, "HELLO-123");
    assert_eq!(app.input_text, "HELLO-123");
    assert_eq!(app.active_format(), BarcodeFormat::Code39);
    app.handle_key(KEY_ENTER);
    assert_eq!(app.state, AppState::Display);
    let b = app.barcode.as_ref().unwrap();
    assert_eq!(b.format, BarcodeFormat::Code39);
    assert_eq!(app.barcode_text, "HELLO-123");
}

#[test]
fn failed_encode_stays_on_input() {
    let mut app = BarcodeApp::new();
    app.handle_key('n');
    app.handle_key(KEY_F3);
    assert_eq!(app.settings.format, BarcodeFormat::Ean13);
    assert!(!app.settings.auto_format);
    type_text(&mut app, "12ab");
    app.handle_key(KEY_ENTER);
    assert_eq!(app.state, AppState::Input);
    assert!(app.barcode.is_none());
}

#[test]
fn backspace_and_length_limit() {
    let mut app = BarcodeApp::new();
    app.handle_key('n');
    type_text(&mut app, "ab");
    app.handle_key(KEY_BACKSPACE);
    assert_eq!(app.input_text, "a");
    for _ in 0..100 {
        app.handle_key('x');
    }
    assert_eq!(app.input_text.len(), 80);
}

#[test]
fn q_leaves_input_only_when_empty() {
    let mut app = BarcodeApp::new();
    app.handle_key('n');
    app.handle_key('a');
    app.handle_key('q');
    assert_eq!(app.input_text, "aq");
    assert_eq!(app.state, AppState::Input);
    app.handle_key(KEY_BACKSPACE);
    app.handle_key(KEY_BACKSPACE);
    app.handle_key('q');
    assert_eq!(app.state, AppState::MainMenu);
}

#[test]
fn save_load_and_delete() {
    let mut app = BarcodeApp::new();
    app.handle_key('n');
    type_text(&mut app, "ABC");
    app.handle_key(KEY_ENTER);
    app.handle_key('s');
    assert_eq!(app.state, AppState::SavePrompt);
    app.handle_key('y');
    assert_eq!(app.state, AppState::SaveNameEntry);
    type_text(&mut app, "first");
    app.handle_key(KEY_ENTER);
    assert_eq!(app.state, AppState::Display);
    assert!(app.codes_changed);
    assert_eq!(app.saved_codes.len(), 1);
    assert_eq!(app.saved_codes[0].name, "first");
    assert_eq!(app.saved_codes[0].text, "ABC");
    assert_eq!(app.saved_codes[0].format, BarcodeFormat::Code39);

    app.handle_key('q');
    app.handle_key(KEY_DOWN);
    app.handle_key(KEY_ENTER);
    assert_eq!(app.state, AppState::LoadList);
    app.handle_key(KEY_ENTER);
    assert_eq!(app.state, AppState::Display);
    assert_eq!(app.input_text, "ABC");
    assert!(!app.settings.auto_format);
    assert_eq!(app.settings.format, BarcodeFormat::Code39);

    app.handle_key('q');
    app.handle_key(KEY_ENTER);
    app.codes_changed = false;
    app.handle_key('d');
    assert!(app.saved_codes.is_empty());
    assert!(app.codes_changed);
    assert_eq!(app.load_index, 0);
}

#[test]
fn display_keys_resize_bars() {
    let mut app = BarcodeApp::new();
    app.handle_key('n');
    type_text(&mut app, "X");
    app.handle_key(KEY_ENTER);
    app.handle_key(KEY_UP);
    assert_eq!(app.settings.bar_height, 220);
    assert!(app.settings_changed);
    app.handle_key(KEY_RIGHT);
    app.handle_key(KEY_RIGHT);
    app.handle_key(KEY_RIGHT);
    assert_eq!(app.settings.bar_width, 4);
    app.handle_key(KEY_LEFT);
    assert_eq!(app.settings.bar_width, 3);
}

#[test]
fn settings_screen_cycles_values() {
    let mut app = BarcodeApp::new();
    app.handle_key(KEY_DOWN);
    app.handle_key(KEY_DOWN);
    app.handle_key(KEY_ENTER);
    assert_eq!(app.state, AppState::Settings);
    app.handle_key(KEY_RIGHT);
    assert_eq!(app.settings.format, BarcodeFormat::Code39);
    app.handle_key(KEY_DOWN);
    app.handle_key(KEY_LEFT);
    assert!(!app.settings.auto_format);
    app.handle_key(KEY_DOWN);
    app.handle_key(KEY_RIGHT);
    app.handle_key(KEY_RIGHT);
    app.handle_key(KEY_RIGHT);
    assert_eq!(app.settings.bar_width, 1);
    app.handle_key(KEY_LEFT);
    assert_eq!(app.settings.bar_width, 4);
    app.handle_key(KEY_DOWN);
    for _ in 0..10 {
        app.handle_key(KEY_LEFT);
    }
    assert_eq!(app.settings.bar_height, 80);
    for _ in 0..20 {
        app.handle_key(KEY_RIGHT);
    }
    assert_eq!(app.settings.bar_height, 300);
    assert!(app.settings_changed);
}

#[test]
fn format_names_round_trip() {
    for f in BarcodeFormat::all() {
        assert_eq!(format_from_key(Some(format_key(*f))), *f);
    }
    assert_eq!(format_key(BarcodeFormat::UpcA), "upca");
    assert_eq!(format_from_key(Some("nonsense")), BarcodeFormat::Code128);
    assert_eq!(format_from_key(None), BarcodeFormat::Code128);
}

#[test]
fn settings_from_stored_fields() {
    let s = settings_from_fields(Some("ean13"), Some(3), Some(120), Some(false));
    assert_eq!(s.format, BarcodeFormat::Ean13);
    assert_eq!(s.bar_width, 3);
    assert_eq!(s.bar_height, 120);
    assert!(!s.auto_format);
    let d = settings_from_fields(None, None, None, None);
    assert_eq!((d.bar_width, d.bar_height, d.format, d.auto_format), (2, 200, BarcodeFormat::Code128, true));
    assert_eq!(settings_from_fields(None, Some(258), None, None).bar_width, 2);
}

#[test]
fn entry_key_prefix() {
    assert_eq!(code_key("shelf"), "code.shelf");
}
