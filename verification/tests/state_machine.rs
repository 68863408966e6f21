//! Scenario tests for the application state, the directory browser and the
//! event router.

use funkhunt::book::Book;
use funkhunt::events::handle_key_event;
use funkhunt::events::Key;
use funkhunt::state::AppAction;
use funkhunt::state::DirEntry;
use funkhunt::state::FileBrowser;
use funkhunt::state::TuiState;
use funkhunt::state::UiMode;

/// A path no test machine is expected to have, so reloads are
/// deterministic: they find nothing.
const NOWHERE: &str = "/funkhunt-test-nowhere";

fn dir(name: &str) -> DirEntry {
    DirEntry {
        name: name.to_string(),
        path: format!("{}/{}", NOWHERE, name),
        is_dir: true,
    }
}

fn browser_with(entries: Vec<DirEntry>) -> FileBrowser {
    let mut b = FileBrowser {
        current_path: NOWHERE.to_string(),
        entries: Vec::new(),
        selected_index: 0,
    };
    b.set_entries(entries);
    b
}

fn state_with(books: Vec<Book>, scan_paths: Vec<String>) -> TuiState {
    TuiState {
        books,
        selected_index: 0,
        should_quit: false,
        scan_paths,
        mode: UiMode::Normal,
        browser: browser_with(Vec::new()),
    }
}

fn two_books() -> Vec<Book> {
    vec![
        Book::new("a.epub".to_string(), "/x/a.epub".to_string()),
        Book::new("b.epub".to_string(), "/x/b.epub".to_string()),
    ]
}

fn entry_names(b: &FileBrowser) -> Vec<String> {
    b.entries.iter().map(|e| e.name.clone()).collect()
}

#[test]
fn sort_is_ordinal_and_stable_across_reloads() {
    let listing = vec![dir("b"), dir("A"), dir("c")];
    let mut b = browser_with(listing.clone());
    assert_eq!(entry_names(&b), vec!["A", "b", "c"]);
    // Reloading the same listing leaves the same order.
    b.set_entries(listing.clone());
    assert_eq!(entry_names(&b), vec!["A", "b", "c"]);
    b.set_entries(listing);
    assert_eq!(entry_names(&b), vec!["A", "b", "c"]);
}

#[test]
fn sort_keeps_equal_names_in_listing_order() {
    let mut first = dir("same");
    first.path = "/one/same".to_string();
    let mut second = dir("same");
    second.path = "/two/same".to_string();
    let b = browser_with(vec![dir("z"), first, second, dir("a")]);
    assert_eq!(entry_names(&b), vec!["a", "same", "same", "z"]);
    assert_eq!(b.entries[1].path, "/one/same");
    assert_eq!(b.entries[2].path, "/two/same");
}

#[test]
fn listing_filters_hidden_and_files() {
    let mut plain_file = dir("data");
    plain_file.is_dir = false;
    let listing = vec![dir(".git"), dir(".cache"), plain_file, dir("docs")];
    let b = browser_with(listing);
    assert_eq!(entry_names(&b), vec!["docs"]);
}

#[test]
fn set_entries_resets_cursor() {
    let mut b = browser_with(vec![dir("a"), dir("b"), dir("c")]);
    b.move_down();
    b.move_down();
    assert_eq!(b.selected_index, 2);
    b.set_entries(vec![dir("a"), dir("b"), dir("c")]);
    assert_eq!(b.selected_index, 0);
}

#[test]
fn load_entries_on_unreadable_path_is_empty() {
    let mut b = browser_with(vec![dir("a"), dir("b")]);
    b.move_down();
    b.load_entries();
    assert_eq!(b.selected_index, 0);
    assert!(b.entries.is_empty());
}

#[test]
fn browser_cursor_is_clamped() {
    let mut b = browser_with(vec![dir("a"), dir("b"), dir("c")]);
    b.move_up();
    assert_eq!(b.selected_index, 0);
    b.move_down();
    b.move_down();
    b.move_down();
    b.move_down();
    assert_eq!(b.selected_index, 2);
    b.move_up();
    assert_eq!(b.selected_index, 1);
}

#[test]
fn empty_browser_cursor_stays_at_zero() {
    let mut b = browser_with(Vec::new());
    b.move_down();
    b.move_up();
    b.move_down();
    assert_eq!(b.selected_index, 0);
}

#[test]
fn enter_selected_descends_into_directory() {
    let mut b = browser_with(vec![dir("inner"), dir("other")]);
    b.enter_selected();
    assert_eq!(b.current_path, format!("{}/inner", NOWHERE));
    assert_eq!(b.selected_index, 0);
    assert!(b.entries.is_empty());
}

#[test]
fn enter_selected_on_empty_listing_is_a_no_op() {
    let mut b = browser_with(Vec::new());
    let before_path = b.current_path.clone();
    b.enter_selected();
    assert_eq!(b.current_path, before_path);
    assert_eq!(b.selected_index, 0);
}

#[test]
fn go_up_moves_to_parent_and_stops_at_root() {
    let mut b = browser_with(Vec::new());
    b.go_up();
    assert_eq!(b.current_path, "/");
    let entries_before = entry_names(&b);
    b.go_up();
    assert_eq!(b.current_path, "/");
    assert_eq!(entry_names(&b), entries_before);
}

#[test]
fn selection_cursor_is_clamped() {
    let mut s = state_with(two_books(), vec!["/x".to_string()]);
    s.move_selection_up();
    assert_eq!(s.selected_index, 0);
    s.move_selection_down();
    s.move_selection_down();
    s.move_selection_down();
    assert_eq!(s.selected_index, 1);
    s.move_selection_up();
    assert_eq!(s.selected_index, 0);
}

#[test]
fn empty_catalogue_has_no_selection() {
    let mut s = state_with(Vec::new(), Vec::new());
    assert!(s.selected_book().is_none());
    s.move_selection_down();
    s.move_selection_up();
    assert_eq!(s.selected_index, 0);
    // Confirming with nothing selected does nothing and asks for nothing.
    let action = handle_key_event(Key::Enter, &mut s);
    assert!(action.is_none());
    assert_eq!(s.selected_index, 0);
    assert!(s.books.is_empty());
    assert!(matches!(s.mode, UiMode::Normal));
}

#[test]
fn selected_book_follows_cursor() {
    let mut s = state_with(two_books(), vec!["/x".to_string()]);
    assert_eq!(s.selected_book().unwrap().name, "a.epub");
    s.move_selection_down();
    assert_eq!(s.selected_book().unwrap().name, "b.epub");
}

#[test]
fn scan_result_replaces_catalogue() {
    let mut s = state_with(two_books(), vec!["/x".to_string()]);
    s.move_selection_down();
    let found = vec![Book::new("c.epub".to_string(), "/y/c.epub".to_string())];
    s.apply_scan_result("/y".to_string(), found);
    assert_eq!(s.books.len(), 1);
    assert_eq!(s.books[0].name, "c.epub");
    assert_eq!(s.scan_paths, vec!["/y".to_string()]);
    assert_eq!(s.selected_index, 0);
}

#[test]
fn empty_scan_result_changes_nothing() {
    let mut s = state_with(two_books(), vec!["/x".to_string()]);
    s.move_selection_down();
    s.apply_scan_result("/y".to_string(), Vec::new());
    assert_eq!(s.books.len(), 2);
    assert_eq!(s.scan_paths, vec!["/x".to_string()]);
    assert_eq!(s.selected_index, 1);
}

#[test]
fn quit_key_requests_quit() {
    let mut s = state_with(two_books(), vec!["/x".to_string()]);
    assert!(!s.should_quit);
    let action = handle_key_event(Key::Char('q'), &mut s);
    assert!(action.is_none());
    assert!(s.should_quit);
    // Nothing resets it.
    let action = handle_key_event(Key::Up, &mut s);
    assert!(action.is_none());
    assert!(s.should_quit);
}

#[test]
fn confirm_asks_to_open_the_selected_book() {
    let mut s = state_with(two_books(), vec!["/x".to_string()]);
    s.move_selection_down();
    let action = handle_key_event(Key::Enter, &mut s);
    assert_eq!(action, Some(AppAction::OpenBook("/x/b.epub".to_string())));
    assert!(matches!(s.mode, UiMode::Normal));
}

#[test]
fn arrows_move_the_selection() {
    let mut s = state_with(two_books(), vec!["/x".to_string()]);
    assert!(handle_key_event(Key::Down, &mut s).is_none());
    assert_eq!(s.selected_index, 1);
    assert!(handle_key_event(Key::Down, &mut s).is_none());
    assert_eq!(s.selected_index, 1);
    assert!(handle_key_event(Key::Up, &mut s).is_none());
    assert_eq!(s.selected_index, 0);
}

#[test]
fn unbound_keys_are_no_ops_in_both_modes() {
    let mut s = state_with(two_books(), vec!["/x".to_string()]);
    assert!(handle_key_event(Key::Char('z'), &mut s).is_none());
    assert!(handle_key_event(Key::Other, &mut s).is_none());
    assert!(handle_key_event(Key::Esc, &mut s).is_none());
    assert!(matches!(s.mode, UiMode::Normal));
    assert_eq!(s.books.len(), 2);
    assert!(handle_key_event(Key::Char('a'), &mut s).is_none());
    assert!(matches!(s.mode, UiMode::AddingFolder));
    assert!(handle_key_event(Key::Char('z'), &mut s).is_none());
    assert!(handle_key_event(Key::Other, &mut s).is_none());
    assert!(handle_key_event(Key::Char('q'), &mut s).is_none());
    assert!(matches!(s.mode, UiMode::AddingFolder));
    assert!(!s.should_quit);
}

#[test]
fn popup_round_trip_leaves_catalogue_alone() {
    let mut s = state_with(two_books(), vec!["/x".to_string()]);
    let action = handle_key_event(Key::Char('a'), &mut s);
    assert!(action.is_none());
    assert!(matches!(s.mode, UiMode::AddingFolder));
    assert_eq!(s.browser.selected_index, 0);
    let action = handle_key_event(Key::Esc, &mut s);
    assert!(action.is_none());
    assert!(matches!(s.mode, UiMode::Normal));
    assert_eq!(s.books.len(), 2);
    assert_eq!(s.books[0].name, "a.epub");
    assert_eq!(s.scan_paths, vec!["/x".to_string()]);
}

#[test]
fn popup_confirm_requests_a_scan() {
    let mut s = state_with(two_books(), vec!["/x".to_string()]);
    s.mode = UiMode::AddingFolder;
    let action = handle_key_event(Key::Enter, &mut s);
    assert_eq!(action, Some(AppAction::AddFolder(NOWHERE.to_string())));
    assert!(matches!(s.mode, UiMode::Normal));
    assert_eq!(s.books.len(), 2);
}

#[test]
fn popup_navigation_keys_drive_the_browser() {
    let mut s = state_with(Vec::new(), Vec::new());
    s.browser = browser_with(vec![dir("x"), dir("y")]);
    s.mode = UiMode::AddingFolder;
    assert!(handle_key_event(Key::Down, &mut s).is_none());
    assert_eq!(s.browser.selected_index, 1);
    assert!(handle_key_event(Key::Up, &mut s).is_none());
    assert_eq!(s.browser.selected_index, 0);
    assert!(handle_key_event(Key::Right, &mut s).is_none());
    assert_eq!(s.browser.current_path, format!("{}/x", NOWHERE));
    assert!(handle_key_event(Key::Char('h'), &mut s).is_none());
    assert_eq!(s.browser.current_path, NOWHERE);
    assert!(handle_key_event(Key::Char('l'), &mut s).is_none());
    assert_eq!(s.browser.current_path, NOWHERE);
    assert!(handle_key_event(Key::Left, &mut s).is_none());
    assert_eq!(s.browser.current_path, "/");
    assert!(matches!(s.mode, UiMode::AddingFolder));
}

#[test]
fn header_counts_books_and_folders() {
    let s = state_with(two_books(), vec!["/x".to_string()]);
    assert_eq!(s.header_text(), "FunkHunt | Books: 2 | /x");
    let none = state_with(Vec::new(), Vec::new());
    assert_eq!(none.header_text(), "FunkHunt | Books: 0 | No folders added");
    let many = state_with(Vec::new(), vec!["/x".to_string(), "/y".to_string(), "/z".to_string()]);
    assert_eq!(many.header_text(), "FunkHunt | Books: 0 | 3 folders");
}

#[test]
fn new_state_starts_browsing_at_the_top() {
    let s = TuiState::new(
        two_books(),
        vec!["/x".to_string()],
        Some(NOWHERE.to_string()),
    );
    assert_eq!(s.selected_index, 0);
    assert!(!s.should_quit);
    assert!(matches!(s.mode, UiMode::Normal));
    assert_eq!(s.browser.current_path, NOWHERE);
    assert_eq!(s.browser.selected_index, 0);
    assert!(s.browser.entries.is_empty());
}

#[test]
fn new_browser_without_home_starts_at_root() {
    let b = FileBrowser::new(None);
    assert_eq!(b.current_path, "/");
    assert_eq!(b.selected_index, 0);
    // Whatever the filesystem holds, the listing keeps only plain-named
    // directories, in ascending name order.
    let names = entry_names(&b);
    let mut sorted = names.clone();
    sorted.sort();
    assert_eq!(names, sorted);
    assert!(names.iter().all(|n| !n.starts_with('.')));
    assert!(b.entries.iter().all(|e| e.is_dir));
}
