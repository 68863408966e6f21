//! Startup configuration: which paths to scan, parsed from the argument
//! list.

use crate::book::Book;
use crate::paths::display_name;
use crate::paths::is_epub_path;
use crate::scanner::scan_epubs;
use vstd::prelude::*;

verus! {

/// Whether an argument list asks for the usage text.
pub open spec fn asks_for_help(args: Seq<String>) -> bool {
    exists|i: int| 0 <= i < args.len() && (#[trigger] args[i]@ == "-h"@ || args[i]@ == "--help"@)
}

/// Application configuration parsed from the command line.
pub struct Config {
    /// The paths to scan for e-book files at startup.
    pub scan_paths: Vec<String>,
    /// Whether the user asked for the usage text instead.
    pub show_help: bool,
}

impl Config {
    /// Parses an argument list (the program name already removed): no
    /// arguments start an empty catalogue, a help flag anywhere asks for
    /// the usage text, and anything else is the list of paths to scan.
    pub fn from_args(args: Vec<String>) -> (r: Config)
        ensures
            r.show_help == asks_for_help(args@),
            r.show_help ==> r.scan_paths@.len() == 0,
            args@.len() == 0 ==> r.scan_paths@.len() == 0,
            args@.len() > 0 && !asks_for_help(args@) ==> r.scan_paths == args,
    {
        let help_short = "-h".to_owned();
        let help_long = "--help".to_owned();
        let mut has_help = false;
        let mut i: usize = 0;
        while i < args.len()
            invariant
                i <= args@.len(),
                help_short@ == "-h"@,
                help_long@ == "--help"@,
                has_help == exists|j: int|
                    0 <= j < i && (#[trigger] args@[j]@ == "-h"@ || args@[j]@ == "--help"@),
            decreases args@.len() - i,
        {
            let a = &args[i];
            if a.eq(&help_short) || a.eq(&help_long) {
                has_help = true;
            }
            i = i + 1;
        }
        if args.len() == 0 {
            Config { scan_paths: Vec::new(), show_help: false }
        } else if has_help {
            Config { scan_paths: Vec::new(), show_help: true }
        } else {
            Config { scan_paths: args, show_help: false }
        }
    }

    /// Scans every configured path in order and gathers all the books
    /// found. As `scan_epubs` promises, every returned book names an
    /// e-book file.
    pub fn scan_all_paths(&self) -> (r: Vec<Book>)
        ensures
            forall|k: int|
                0 <= k < r@.len() ==> is_epub_path(#[trigger] r@[k].path@) && r@[k].name@
                    == display_name(r@[k].path@),
    {
        let mut all_books: Vec<Book> = Vec::new();
        let mut i: usize = 0;
        while i < self.scan_paths.len()
            invariant
                i <= self.scan_paths@.len(),
                forall|k: int|
                    0 <= k < all_books@.len() ==> is_epub_path(#[trigger] all_books@[k].path@)
                        && all_books@[k].name@ == display_name(all_books@[k].path@),
            decreases self.scan_paths@.len() - i,
        {
            let mut books = scan_epubs(self.scan_paths[i].as_str());
            all_books.append(&mut books);
            i = i + 1;
        }
        all_books
    }
}

} // verus!
