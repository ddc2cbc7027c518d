use yatap::index::RootListing;
use yatap::input::KeyCode;
use yatap::state::{App, InputMode};

fn listing(root: &str, entries: Option<&[(&str, bool)]>) -> RootListing {
    RootListing {
        root: root.to_string(),
        entries: entries.map(|es| es.iter().map(|(p, d)| (p.to_string(), *d)).collect()),
    }
}

fn strings(v: &[&str]) -> Vec<String> {
    v.iter().map(|s| s.to_string()).collect()
}

fn sample_app() -> App {
    App::from_listings(vec![listing(
        "/tmp/a",
        Some(&[("/tmp/a/proj1", true), ("/tmp/a/proj2", true)]),
    )])
}

#[test]
fn scenario_a_index_lists_subdirectories() {
    let mut app = sample_app();
    assert_eq!(app.paths, strings(&["/tmp/a/proj1", "/tmp/a/proj2"]));
    assert_eq!(app.all_paths(), strings(&["/tmp/a/proj1", "/tmp/a/proj2"]));
    assert_eq!(app.search_dirs(), strings(&["/tmp/a/proj1", "/tmp/a/proj2"]));
    assert_eq!(app.selection_index, 0);
    assert_eq!(app.input, "");
    assert_eq!(app.input_mode, InputMode::Insert);
    assert!(!app.should_close);
}

#[test]
fn scenario_e_unreadable_root_is_skipped() {
    let app = App::from_listings(vec![
        listing("/does/not/exist", None),
        listing("/tmp/a", Some(&[("/tmp/a/proj1", true)])),
    ]);
    assert_eq!(app.all_paths(), strings(&["/tmp/a/proj1"]));
    assert_eq!(app.paths, strings(&["/tmp/a/proj1"]));
}

#[test]
fn index_keeps_only_directories_in_root_then_discovery_order() {
    let app = App::from_listings(vec![
        listing("/r1", Some(&[("/r1/b", true), ("/r1/file.txt", false), ("/r1/a", true)])),
        listing("/r2", Some(&[])),
        listing("/r3", Some(&[("/r3/x", true)])),
    ]);
    assert_eq!(app.all_paths(), strings(&["/r1/b", "/r1/a", "/r3/x"]));
}

#[test]
fn index_keeps_duplicates_from_repeated_roots() {
    let app = App::from_listings(vec![
        listing("/r", Some(&[("/r/p", true)])),
        listing("/r", Some(&[("/r/p", true)])),
    ]);
    assert_eq!(app.all_paths(), strings(&["/r/p", "/r/p"]));
}

#[test]
fn default_app_is_empty() {
    let app = App::default();
    assert!(app.paths.is_empty());
    assert!(app.all_paths().is_empty());
    assert_eq!(app.selection_index, 0);
    assert!(app.current().is_none());
    assert!(!app.should_close);
}

#[test]
fn selection_moves_within_bounds() {
    let mut app = sample_app();
    app.select_prev_item();
    assert_eq!(app.selection_index, 0);
    app.select_next_item();
    assert_eq!(app.selection_index, 1);
    app.select_next_item();
    assert_eq!(app.selection_index, 1);
    assert_eq!(app.current(), Some("/tmp/a/proj2".to_string()));
    app.select_prev_item();
    assert_eq!(app.selection_index, 0);
    assert_eq!(app.current(), Some("/tmp/a/proj1".to_string()));
}

#[test]
fn selection_on_empty_list_stays_at_zero() {
    let mut app = App::default();
    app.select_next_item();
    assert_eq!(app.selection_index, 0);
    app.select_prev_item();
    assert_eq!(app.selection_index, 0);
    assert_eq!(app.current(), None);
}

#[test]
fn query_edit_resets_selection() {
    let mut app = sample_app();
    app.select_next_item();
    assert_eq!(app.selection_index, 1);
    app.add_input_char(KeyCode::Char('p'));
    assert_eq!(app.input, "p");
    assert_eq!(app.selection_index, 0);
    app.select_next_item();
    app.add_input_char(KeyCode::Backspace);
    assert_eq!(app.input, "");
    assert_eq!(app.selection_index, 0);
    assert_eq!(app.paths, strings(&["/tmp/a/proj1", "/tmp/a/proj2"]));
}

#[test]
fn backspace_on_empty_query_keeps_it_empty() {
    let mut app = sample_app();
    app.add_input_char(KeyCode::Backspace);
    assert_eq!(app.input, "");
    assert_eq!(app.paths, strings(&["/tmp/a/proj1", "/tmp/a/proj2"]));
}

#[test]
fn typed_query_filters_results() {
    let mut app = App::from_listings(vec![listing(
        "/tmp/a",
        Some(&[("/tmp/a/zzz", true), ("/tmp/a/proj2", true), ("/tmp/a/proj1", true)]),
    )]);
    for c in "proj1".chars() {
        app.add_input_char(KeyCode::Char(c));
    }
    assert_eq!(app.input, "proj1");
    assert_eq!(app.paths, strings(&["/tmp/a/proj1", "/tmp/a/proj2"]));
    app.add_input_char(KeyCode::Backspace);
    assert_eq!(app.input, "proj");
}

#[test]
fn reset_selection_goes_to_top() {
    let mut app = sample_app();
    app.select_next_item();
    app.reset_selection();
    assert_eq!(app.selection_index, 0);
}

#[test]
fn selection_stays_in_range_over_any_sequence() {
    let mut app = App::from_listings(vec![listing(
        "/r",
        Some(&[("/r/a", true), ("/r/b", true), ("/r/c", true)]),
    )]);
    let ops = [1, 1, 1, 1, 0, 2, 1, 0, 0, 0, 3, 1, 1, 2, 1];
    for op in ops {
        match op {
            0 => app.select_prev_item(),
            1 => app.select_next_item(),
            2 => app.add_input_char(KeyCode::Char('r')),
            _ => app.add_input_char(KeyCode::Backspace),
        }
        assert!(app.selection_index < std::cmp::max(1, app.paths.len()));
    }
}
