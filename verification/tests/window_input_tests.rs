use clipstack::input::{copy_keystrokes, simulate_copy, Key, KeyEvent};
use clipstack::window::{get_active_window_info, WindowInfo};

#[test]
fn default_window_is_unknown() {
    let info = WindowInfo::default();
    assert_eq!(info.app_name, "unknown");
    assert_eq!(info.window_title, "Unknown Window");
}

#[test]
fn portable_window_info_is_the_default() {
    let info = get_active_window_info();
    assert_eq!(info.app_name, "unknown");
    assert_eq!(info.window_title, "Unknown Window");
}

#[test]
fn probe_results_fall_back_part_by_part() {
    let both = WindowInfo::from_probe(Some("editor.exe".to_string()), Some("notes".to_string()));
    assert_eq!(both.app_name, "editor.exe");
    assert_eq!(both.window_title, "notes");
    let no_app = WindowInfo::from_probe(None, Some("notes".to_string()));
    assert_eq!(no_app.app_name, "unknown");
    assert_eq!(no_app.window_title, "notes");
    let no_title = WindowInfo::from_probe(Some("editor.exe".to_string()), None);
    assert_eq!(no_title.app_name, "editor.exe");
    assert_eq!(no_title.window_title, "Unknown Window");
    let neither = WindowInfo::from_probe(None, None);
    assert_eq!(neither.app_name, "unknown");
    assert_eq!(neither.window_title, "Unknown Window");
}

#[test]
fn probe_results_that_are_empty_count_as_missing() {
    let empty_app = WindowInfo::from_probe(Some(String::new()), Some("notes".to_string()));
    assert_eq!(empty_app.app_name, "unknown");
    assert_eq!(empty_app.window_title, "notes");
    let empty_title = WindowInfo::from_probe(Some("editor.exe".to_string()), Some(String::new()));
    assert_eq!(empty_title.app_name, "editor.exe");
    assert_eq!(empty_title.window_title, "Unknown Window");
    let blank_title = WindowInfo::from_probe(None, Some(" ".to_string()));
    assert_eq!(blank_title.window_title, " ");
}

#[test]
fn window_info_clone_is_equal() {
    let info = WindowInfo { app_name: "a".to_string(), window_title: "b".to_string() };
    let copy = info.clone();
    assert_eq!(copy.app_name, "a");
    assert_eq!(copy.window_title, "b");
}

#[test]
fn copy_keystrokes_release_shift_around_control_c() {
    assert_eq!(
        copy_keystrokes(),
        vec![
            KeyEvent { key: Key::Shift, released: true },
            KeyEvent { key: Key::Control, released: false },
            KeyEvent { key: Key::C, released: false },
            KeyEvent { key: Key::C, released: true },
            KeyEvent { key: Key::Control, released: true },
            KeyEvent { key: Key::Shift, released: false },
        ]
    );
}

#[test]
fn portable_simulate_copy_returns() {
    simulate_copy();
}
