use yatap::index::RootListing;
use yatap::input::{handle_input, KeyCode, KeyEvent};
use yatap::state::App;

fn key(code: KeyCode) -> KeyEvent {
    KeyEvent { code, ctrl: false }
}

fn ctrl(c: char) -> KeyEvent {
    KeyEvent { code: KeyCode::Char(c), ctrl: true }
}

fn sample_app() -> App {
    App::from_listings(vec![RootListing {
        root: "/tmp/a".to_string(),
        entries: Some(vec![("/tmp/a/proj1".to_string(), true), ("/tmp/a/proj2".to_string(), true)]),
    }])
}

#[test]
fn arrows_and_ctrl_keys_move_selection() {
    let mut app = sample_app();
    assert_eq!(handle_input(&mut app, key(KeyCode::Down)), None);
    assert_eq!(app.selection_index, 1);
    assert_eq!(handle_input(&mut app, key(KeyCode::Up)), None);
    assert_eq!(app.selection_index, 0);
    assert_eq!(handle_input(&mut app, ctrl('n')), None);
    assert_eq!(app.selection_index, 1);
    assert_eq!(handle_input(&mut app, ctrl('p')), None);
    assert_eq!(app.selection_index, 0);
    assert_eq!(app.input, "");
    assert!(!app.should_close);
}

#[test]
fn quit_keys_close_without_launching() {
    for k in [key(KeyCode::Esc), ctrl('c'), ctrl('z')] {
        let mut app = sample_app();
        assert_eq!(handle_input(&mut app, k), None);
        assert!(app.should_close);
        assert_eq!(app.input, "");
    }
}

#[test]
fn enter_launches_selected_directory() {
    let mut app = sample_app();
    handle_input(&mut app, key(KeyCode::Down));
    let launch = handle_input(&mut app, key(KeyCode::Enter));
    assert_eq!(launch, Some("/tmp/a/proj2".to_string()));
    assert!(app.should_close);
}

#[test]
fn enter_on_empty_results_does_nothing() {
    let mut app = App::default();
    assert_eq!(handle_input(&mut app, key(KeyCode::Enter)), None);
    assert!(!app.should_close);
}

#[test]
fn printable_characters_edit_query_and_reset_selection() {
    let mut app = sample_app();
    handle_input(&mut app, key(KeyCode::Down));
    assert_eq!(handle_input(&mut app, key(KeyCode::Char('r'))), None);
    assert_eq!(app.input, "r");
    assert_eq!(app.selection_index, 0);
    handle_input(&mut app, key(KeyCode::Down));
    handle_input(&mut app, key(KeyCode::Backspace));
    assert_eq!(app.input, "");
    assert_eq!(app.selection_index, 0);
}

#[test]
fn other_keys_change_nothing() {
    let mut app = sample_app();
    handle_input(&mut app, key(KeyCode::Down));
    assert_eq!(handle_input(&mut app, key(KeyCode::Other)), None);
    assert_eq!(handle_input(&mut app, ctrl('x')), None);
    assert_eq!(app.selection_index, 1);
    assert_eq!(app.input, "");
    assert!(!app.should_close);
}
