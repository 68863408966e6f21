//! Finding e-book files and listing directories.
//!
//! The filesystem walks go through walkdir behind the trusted wrappers
//! here. What the filesystem returns is outside anyone's control, so the
//! wrappers promise nothing about their results; everything done with the
//! results afterwards is verified for every value they could take.

use crate::book::Book;
use crate::paths::display_name;
use crate::paths::file_name_of;
use crate::paths::has_epub_extension;
use crate::paths::is_epub_path;
use crate::state::DirEntry;
use vstd::prelude::*;

verus! {

/// Relies on walkdir::WalkDir with min_depth(1) and max_depth(1): yields
/// the direct children of `path`, each as its bare name, its full path and
/// whether it is a directory. A path that does not name a readable
/// directory yields nothing.
#[verifier::external_body]
pub(crate) fn list_children(path: &str) -> Vec<DirEntry> {
    walkdir::WalkDir::new(path)
        .min_depth(1)
        .max_depth(1)
        .into_iter()
        .filter_map(|e| e.ok())
        .map(
            |e| DirEntry {
                name: e.file_name().to_string_lossy().to_string(),
                path: e.path().to_string_lossy().to_string(),
                is_dir: e.file_type().is_dir(),
            },
        )
        .collect()
}

/// Relies on walkdir::WalkDir with max_depth(0): the one entry it yields
/// for `path` tells whether `path` names a directory; a path that cannot
/// be read yields nothing and counts as no directory.
#[verifier::external_body]
pub(crate) fn is_directory(path: &str) -> bool {
    walkdir::WalkDir::new(path)
        .max_depth(0)
        .into_iter()
        .filter_map(|e| e.ok())
        .next()
        .map(|e| e.file_type().is_dir())
        .unwrap_or(false)
}

/// Relies on walkdir::WalkDir: yields the path of every entry under
/// `root`, recursively, the root itself included; an unreadable or missing
/// root yields nothing.
#[verifier::external_body]
pub(crate) fn walk_tree(root: &str) -> Vec<String> {
    walkdir::WalkDir::new(root)
        .into_iter()
        .filter_map(|e| e.ok())
        .map(|e| e.path().to_string_lossy().to_string())
        .collect()
}

/// The paths among `paths` that name e-book files, in their original
/// order, as character sequences.
pub open spec fn epub_paths(paths: Seq<String>) -> Seq<Seq<char>>
    decreases paths.len(),
{
    if paths.len() == 0 {
        Seq::empty()
    } else if is_epub_path(paths.last()@) {
        epub_paths(paths.drop_last()).push(paths.last()@)
    } else {
        epub_paths(paths.drop_last())
    }
}

/// Turns a walk's results into books: exactly the paths whose extension
/// spells `epub` (in any ASCII case) remain, in their original order, each
/// named by its file name.
pub fn books_from_walk(found: Vec<String>) -> (r: Vec<Book>)
    ensures
        r@.len() == epub_paths(found@).len(),
        forall|i: int|
            0 <= i < r@.len() ==> (#[trigger] r@[i]).path@ == epub_paths(found@)[i] && r@[i].name@
                == display_name(r@[i].path@),
{
    let ghost orig = found@;
    let mut remaining = found;
    let mut books: Vec<Book> = Vec::new();
    let ghost k: int = 0;
    proof {
        assert(orig.take(0) =~= Seq::<String>::empty());
    }
    while remaining.len() > 0
        invariant
            0 <= k <= orig.len(),
            remaining@ == orig.skip(k),
            books@.len() == epub_paths(orig.take(k)).len(),
            forall|i: int|
                0 <= i < books@.len() ==> (#[trigger] books@[i]).path@ == epub_paths(
                    orig.take(k),
                )[i] && books@[i].name@ == display_name(books@[i].path@),
        decreases remaining@.len(),
    {
        let p = remaining.remove(0);
        proof {
            assert(p == orig[k]);
            assert(remaining@ =~= orig.skip(k + 1));
            assert(orig.take(k + 1).drop_last() =~= orig.take(k));
            assert(orig.take(k + 1).last() == orig[k]);
        }
        if has_epub_extension(p.as_str()) {
            let name = file_name_of(p.as_str());
            books.push(Book::new(name, p));
        }
        proof {
            k = k + 1;
        }
    }
    proof {
        assert(orig.take(orig.len() as int) =~= orig);
    }
    books
}

/// Collects the e-book files under `path`: every entry of the recursive
/// walk whose extension spells `epub` (in any ASCII case) becomes a book,
/// named by its file name, as `books_from_walk` pins down. A `path` that
/// names no directory yields no books.
pub fn scan_epubs(path: &str) -> (r: Vec<Book>)
    ensures
        forall|i: int|
            0 <= i < r@.len() ==> is_epub_path(#[trigger] r@[i].path@) && r@[i].name@
                == display_name(r@[i].path@),
{
    if !is_directory(path) {
        let books: Vec<Book> = Vec::new();
        return books;
    }
    let found = walk_tree(path);
    proof {
        lemma_epub_paths_all(found@);
    }
    books_from_walk(found)
}

/// Law: every path `epub_paths` keeps names an e-book file.
pub proof fn lemma_epub_paths_all(paths: Seq<String>)
    ensures
        forall|i: int|
            0 <= i < epub_paths(paths).len() ==> is_epub_path(#[trigger] epub_paths(paths)[i]),
    decreases paths.len(),
{
    if paths.len() > 0 {
        lemma_epub_paths_all(paths.drop_last());
        let dl = epub_paths(paths.drop_last());
        if is_epub_path(paths.last()@) {
            assert forall|i: int| 0 <= i < epub_paths(paths).len() implies is_epub_path(
                #[trigger] epub_paths(paths)[i],
            ) by {
                if i < dl.len() {
                    assert(epub_paths(paths)[i] == dl[i]);
                } else {
                    assert(epub_paths(paths)[i] == paths.last()@);
                }
            }
        }
    }
}

} // verus!
