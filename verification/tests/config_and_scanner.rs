//! Tests for argument parsing, scanning, and book metadata formatting.

use funkhunt::book::Book;
use funkhunt::config::Config;
use funkhunt::scanner::books_from_walk;
use funkhunt::scanner::scan_epubs;

fn args(list: &[&str]) -> Vec<String> {
    list.iter().map(|s| s.to_string()).collect()
}

#[test]
fn no_arguments_mean_an_empty_catalogue() {
    let c = Config::from_args(Vec::new());
    assert!(c.scan_paths.is_empty());
    assert!(!c.show_help);
}

#[test]
fn help_flags_ask_for_usage() {
    let c = Config::from_args(args(&["-h"]));
    assert!(c.show_help);
    assert!(c.scan_paths.is_empty());
    let c = Config::from_args(args(&["--help"]));
    assert!(c.show_help);
    let c = Config::from_args(args(&["/books", "--help", "/more"]));
    assert!(c.show_help);
    assert!(c.scan_paths.is_empty());
}

#[test]
fn plain_arguments_become_scan_paths() {
    let c = Config::from_args(args(&["/books", "/more/books"]));
    assert!(!c.show_help);
    assert_eq!(c.scan_paths, args(&["/books", "/more/books"]));
}

#[test]
fn scanning_nowhere_finds_nothing() {
    assert!(scan_epubs("/funkhunt-test-nowhere").is_empty());
    let c = Config::from_args(args(&["/funkhunt-test-nowhere", "/funkhunt-test-elsewhere"]));
    assert!(c.scan_all_paths().is_empty());
}

#[test]
fn scanning_a_plain_file_finds_nothing() {
    // A path that exists on any test machine but is no directory.
    assert!(scan_epubs("/proc/self/cmdline").is_empty());
}

#[test]
fn walk_results_keep_only_epubs_in_order() {
    let found = args(&[
        "/b",
        "/b/one.epub",
        "/b/notes.txt",
        "/b/sub",
        "/b/sub/TWO.EPUB",
        "/b/.epub",
        "/b/three.ePub",
    ]);
    let books = books_from_walk(found);
    let names: Vec<String> = books.iter().map(|b| b.name.clone()).collect();
    assert_eq!(names, args(&["one.epub", "TWO.EPUB", "three.ePub"]));
    let paths: Vec<String> = books.iter().map(|b| b.path.clone()).collect();
    assert_eq!(
        paths,
        args(&["/b/one.epub", "/b/sub/TWO.EPUB", "/b/three.ePub"])
    );
}

#[test]
fn metadata_shows_title_path_and_size() {
    let b = Book::new("title.epub".to_string(), "/books/title.epub".to_string());
    assert_eq!(
        b.get_metadata(Some(2048)),
        "Title: title.epub\n\nPath: /books/title.epub\n\nSize: 2 KB"
    );
    assert_eq!(
        b.get_metadata(Some(1023)),
        "Title: title.epub\n\nPath: /books/title.epub\n\nSize: 0 KB"
    );
}

#[test]
fn metadata_without_a_readable_file_is_the_sentinel() {
    let b = Book::new("x".to_string(), "/nowhere/x".to_string());
    assert_eq!(b.get_metadata(None), "Error reading metadata");
}

#[test]
fn book_new_keeps_its_fields() {
    let b = Book::new("n".to_string(), "/p/n".to_string());
    assert_eq!(b.name, "n");
    assert_eq!(b.path, "/p/n");
    let c = b.clone();
    assert_eq!(c.name, "n");
    assert_eq!(c.path, "/p/n");
}
