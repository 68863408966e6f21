//! The library's lexical model of filesystem paths.
//!
//! A path is a plain string whose components are separated by `/`. The
//! operations here are purely textual: the parent of a path is the text
//! before its last separator, a path's file name is the text after it, and a
//! path's extension is the text after the last `.` of its file name (absent
//! when the file name has no `.` or only a leading one). Paths that reach
//! the library come from the embedding program and from the directory walks
//! in `scanner`, which produce `/`-joined names without trailing separators.

use vstd::prelude::*;

verus! {

/// The index of the last occurrence of `c` in `p`, or `-1` if `c` does not
/// occur.
pub open spec fn last_index_of(p: Seq<char>, c: char) -> int
    decreases p.len(),
{
    if p.len() == 0 {
        -1
    } else if p[p.len() - 1] == c {
        p.len() - 1
    } else {
        last_index_of(p.drop_last(), c)
    }
}

pub proof fn lemma_last_index_of_in_range(p: Seq<char>, c: char)
    ensures
        -1 <= last_index_of(p, c) < p.len(),
    decreases p.len(),
{
    if p.len() > 0 && p[p.len() - 1] != c {
        lemma_last_index_of_in_range(p.drop_last(), c);
    }
}

fn find_last(p: &str, c: char) -> (r: Option<usize>)
    ensures
        match r {
            Some(j) => last_index_of(p@, c) == j as int && j < p@.len(),
            None => last_index_of(p@, c) == -1,
        },
{
    let len = p.unicode_len();
    let mut i: usize = len;
    proof {
        assert(p@.take(len as int) =~= p@);
    }
    while i > 0
        invariant
            i <= len,
            len == p@.len(),
            last_index_of(p@, c) == last_index_of(p@.take(i as int), c),
        decreases i,
    {
        let ch = p.get_char(i - 1);
        if ch == c {
            return Some(i - 1);
        }
        proof {
            assert(p@.take(i as int).drop_last() =~= p@.take(i - 1));
        }
        i = i - 1;
    }
    None
}

/// The lexical parent of a path: the text before its last `/`, the root for
/// a path whose only `/` leads it, and nothing for the root itself or for a
/// path without a separator.
pub open spec fn parent_view(p: Seq<char>) -> Option<Seq<char>> {
    let j = last_index_of(p, '/');
    if p.len() == 0 || p == seq!['/'] || j == -1 {
        None
    } else if j == 0 {
        Some(seq!['/'])
    } else {
        Some(p.take(j))
    }
}

/// Computes the lexical parent of `p`, as `parent_view` describes.
pub fn parent_of(p: &str) -> (r: Option<String>)
    ensures
        match r {
            Some(q) => parent_view(p@) == Some(q@),
            None => parent_view(p@) is None,
        },
{
    let len = p.unicode_len();
    if len == 0 {
        return None;
    }
    if len == 1 && p.get_char(0) == '/' {
        proof {
            assert(p@ =~= seq!['/']);
        }
        return None;
    }
    match find_last(p, '/') {
        None => None,
        Some(j) => {
            if j == 0 {
                let s = "/".to_owned();
                proof {
                    reveal_strlit("/");
                    assert(s@ =~= seq!['/']);
                }
                Some(s)
            } else {
                let q = p.substring_char(0, j).to_owned();
                proof {
                    assert(q@ =~= p@.take(j as int));
                }
                Some(q)
            }
        },
    }
}

/// The display name a path yields: the text after its last `/`, or a fixed
/// placeholder when that text is empty.
pub open spec fn display_name(p: Seq<char>) -> Seq<char> {
    let tail = p.skip(last_index_of(p, '/') + 1);
    if tail.len() == 0 {
        "Unknown"@
    } else {
        tail
    }
}

/// Extracts the display name of `p`, as `display_name` describes.
pub fn file_name_of(p: &str) -> (r: String)
    ensures
        r@ == display_name(p@),
{
    let len = p.unicode_len();
    let start: usize = match find_last(p, '/') {
        Some(j) => j + 1,
        None => 0,
    };
    proof {
        lemma_last_index_of_in_range(p@, '/');
        assert(p@.skip(0) =~= p@);
    }
    if start >= len {
        let s = "Unknown".to_owned();
        s
    } else {
        let r = p.substring_char(start, len).to_owned();
        proof {
            assert(r@ =~= p@.skip(start as int));
        }
        r
    }
}

/// The extension of a path: the text after the last `.` of its file name,
/// absent when the file name holds no `.` or only one in leading position.
pub open spec fn extension_view(p: Seq<char>) -> Option<Seq<char>> {
    let name = p.skip(last_index_of(p, '/') + 1);
    let j = last_index_of(name, '.');
    if j <= 0 {
        None
    } else {
        Some(name.skip(j + 1))
    }
}

/// Whether `s` spells `epub`, each letter in either case.
pub open spec fn is_epub_ext(s: Seq<char>) -> bool {
    s.len() == 4 && (s[0] == 'e' || s[0] == 'E') && (s[1] == 'p' || s[1] == 'P') && (s[2] == 'u'
        || s[2] == 'U') && (s[3] == 'b' || s[3] == 'B')
}

/// Whether a path names an e-book file: its extension spells `epub`,
/// compared without regard to ASCII case.
pub open spec fn is_epub_path(p: Seq<char>) -> bool {
    match extension_view(p) {
        Some(e) => is_epub_ext(e),
        None => false,
    }
}

/// Decides `is_epub_path` for a path.
pub fn has_epub_extension(p: &str) -> (r: bool)
    ensures
        r == is_epub_path(p@),
{
    let len = p.unicode_len();
    let start: usize = match find_last(p, '/') {
        Some(j) => j + 1,
        None => 0,
    };
    proof {
        lemma_last_index_of_in_range(p@, '/');
        assert(p@.skip(0) =~= p@);
    }
    let name = p.substring_char(start, len);
    proof {
        assert(name@ =~= p@.skip(start as int));
    }
    let name_len = name.unicode_len();
    match find_last(name, '.') {
        None => false,
        Some(j) => {
            if j == 0 || name_len - (j + 1) != 4 {
                false
            } else {
                let c0 = name.get_char(j + 1);
                let c1 = name.get_char(j + 2);
                let c2 = name.get_char(j + 3);
                let c3 = name.get_char(j + 4);
                (c0 == 'e' || c0 == 'E') && (c1 == 'p' || c1 == 'P') && (c2 == 'u' || c2 == 'U')
                    && (c3 == 'b' || c3 == 'B')
            }
        },
    }
}

} // verus!
