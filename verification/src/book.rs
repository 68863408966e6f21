//! The catalogue's data entity: one discovered e-book file.

use crate::text::dec_digits;
use crate::text::u64_to_string;
use vstd::prelude::*;

verus! {

/// One catalogued e-book: a display name and the path it was found at.
/// Immutable once constructed.
pub struct Book {
    /// Display name of the book (usually the file name).
    pub name: String,
    /// Full filesystem path to the book's file.
    pub path: String,
}

impl Clone for Book {
    fn clone(&self) -> (r: Self)
        ensures
            r == *self,
    {
        Book { name: self.name.clone(), path: self.path.clone() }
    }
}

/// The details block `get_metadata` produces when the file's size is known:
/// title, path, and size in whole kilobytes.
pub open spec fn metadata_text(name: Seq<char>, path: Seq<char>, size_bytes: nat) -> Seq<char> {
    "Title: "@ + name + "\n\nPath: "@ + path + "\n\nSize: "@ + dec_digits(size_bytes / 1024)
        + " KB"@
}

impl Book {
    /// Creates a new book record.
    pub fn new(name: String, path: String) -> (r: Book)
        ensures
            r.name == name,
            r.path == path,
    {
        Book { name, path }
    }

    /// Formats the details block for this book. The caller supplies the
    /// file's size in bytes, or nothing when the file could not be read;
    /// the latter yields the fixed sentinel text.
    pub fn get_metadata(&self, size_bytes: Option<u64>) -> (r: String)
        ensures
            match size_bytes {
                Some(n) => r@ == metadata_text(self.name@, self.path@, n as nat),
                None => r@ == "Error reading metadata"@,
            },
    {
        match size_bytes {
            None => "Error reading metadata".to_owned(),
            Some(n) => {
                let mut s = "Title: ".to_owned();
                s.append(self.name.as_str());
                s.append("\n\nPath: ");
                s.append(self.path.as_str());
                s.append("\n\nSize: ");
                let kb = u64_to_string(n / 1024);
                s.append(kb.as_str());
                s.append(" KB");
                proof {
                    assert(s@ =~= metadata_text(self.name@, self.path@, n as nat));
                }
                s
            },
        }
    }
}

} // verus!
