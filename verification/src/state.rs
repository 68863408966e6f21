//! Application state: the catalogue view and the directory browser.
//!
//! Both cursors here are clamped indices: they never leave
//! `[0, length - 1]` on a non-empty list and sit at `0` on an empty one.

use crate::book::Book;
use crate::paths::parent_view;
use crate::text::dec_digits;
use crate::text::lemma_lex_le_refl;
use crate::text::lemma_lex_le_total;
use crate::text::lemma_lex_le_trans;
use crate::text::lex_le;
use crate::text::str_le;
use crate::text::u64_to_string;
use vstd::prelude::*;

verus! {

broadcast use vstd::seq_lib::group_to_multiset_ensures, vstd::multiset::group_multiset_axioms;

/// One entry of the directory browser's current listing.
pub struct DirEntry {
    /// The entry's bare name (the last path component).
    pub name: String,
    /// The entry's full path.
    pub path: String,
    /// Whether the entry is a directory.
    pub is_dir: bool,
}

impl Clone for DirEntry {
    fn clone(&self) -> (r: Self)
        ensures
            r == *self,
    {
        DirEntry { name: self.name.clone(), path: self.path.clone(), is_dir: self.is_dir }
    }
}

/// A name the browser hides: one that begins with a dot.
pub open spec fn hidden_name(name: Seq<char>) -> bool {
    name.len() > 0 && name[0] == '.'
}

/// Whether the browser's listing keeps an entry: directories only, and
/// never hidden ones.
pub open spec fn keep_entry(e: DirEntry) -> bool {
    e.is_dir && !hidden_name(e.name@)
}

/// The subsequence of `s` that `keep_entry` admits, in its original order.
pub open spec fn kept_entries(s: Seq<DirEntry>) -> Seq<DirEntry>
    decreases s.len(),
{
    if s.len() == 0 {
        Seq::empty()
    } else if keep_entry(s.last()) {
        kept_entries(s.drop_last()).push(s.last())
    } else {
        kept_entries(s.drop_last())
    }
}

/// Entries in ascending ordinal order of their names.
pub open spec fn sorted_by_name(s: Seq<DirEntry>) -> bool {
    forall|i: int, j: int|
        0 <= i < j < s.len() ==> lex_le(#[trigger] s[i].name@, #[trigger] s[j].name@)
}

/// `x` placed after every entry of `s` whose name sorts no later than
/// `x`'s own. Inserting this way into a sorted sequence keeps it sorted and
/// keeps the original relative order of entries with equal names.
pub open spec fn insert_by_name(x: DirEntry, s: Seq<DirEntry>) -> Seq<DirEntry>
    decreases s.len(),
{
    if s.len() == 0 {
        seq![x]
    } else if lex_le(s[0].name@, x.name@) {
        seq![s[0]] + insert_by_name(x, s.skip(1))
    } else {
        seq![x] + s
    }
}

/// Insertion sort of entries by name: a stable, deterministic ordering.
pub open spec fn sort_by_name(s: Seq<DirEntry>) -> Seq<DirEntry>
    decreases s.len(),
{
    if s.len() == 0 {
        Seq::empty()
    } else {
        insert_by_name(s.last(), sort_by_name(s.drop_last()))
    }
}

/// Law: inserting into a sorted sequence yields a sorted sequence holding
/// exactly the old entries and the new one.
pub proof fn lemma_insert_by_name(x: DirEntry, s: Seq<DirEntry>)
    requires
        sorted_by_name(s),
    ensures
        sorted_by_name(insert_by_name(x, s)),
        insert_by_name(x, s).to_multiset() == s.to_multiset().insert(x),
        insert_by_name(x, s).len() == s.len() + 1,
    decreases s.len(),
{
    if s.len() == 0 {
        assert(insert_by_name(x, s) =~= Seq::<DirEntry>::empty().push(x));
    } else if lex_le(s[0].name@, x.name@) {
        let tail = s.skip(1);
        assert(sorted_by_name(tail)) by {
            assert(forall|i: int| 0 <= i < tail.len() ==> tail[i] == s[i + 1]);
        }
        lemma_insert_by_name(x, tail);
        let rest = insert_by_name(x, tail);
        let r = seq![s[0]] + rest;
        assert(insert_by_name(x, s) == r);
        assert forall|i: int, j: int| 0 <= i < j < r.len() implies lex_le(
            r[i].name@,
            r[j].name@,
        ) by {
            if i == 0 {
                let e = rest[j - 1];
                assert(rest.contains(e));
                assert(rest.to_multiset().count(e) > 0);
                if e == x {
                    assert(lex_le(s[0].name@, x.name@));
                } else {
                    assert(tail.to_multiset().count(e) > 0);
                    assert(tail.contains(e));
                    let k = choose|k: int| 0 <= k < tail.len() && tail[k] == e;
                    assert(tail[k] == s[k + 1]);
                    assert(lex_le(s[0].name@, s[k + 1].name@));
                }
            } else {
                assert(r[i] == rest[i - 1] && r[j] == rest[j - 1]);
            }
        }
        assert(s =~= seq![s[0]] + tail);
        vstd::seq_lib::lemma_multiset_commutative(seq![s[0]], tail);
        vstd::seq_lib::lemma_multiset_commutative(seq![s[0]], rest);
        assert(r.to_multiset() =~= s.to_multiset().insert(x));
    } else {
        let r = seq![x] + s;
        assert(insert_by_name(x, s) == r);
        lemma_lex_le_total(s[0].name@, x.name@);
        assert forall|i: int, j: int| 0 <= i < j < r.len() implies lex_le(
            r[i].name@,
            r[j].name@,
        ) by {
            if i == 0 {
                assert(r[j] == s[j - 1]);
                if j > 1 {
                    lemma_lex_le_trans(x.name@, s[0].name@, s[j - 1].name@);
                }
            } else {
                assert(r[i] == s[i - 1] && r[j] == s[j - 1]);
            }
        }
        assert(seq![x] =~= Seq::<DirEntry>::empty().push(x));
        vstd::seq_lib::lemma_multiset_commutative(seq![x], s);
        assert(r.to_multiset() =~= s.to_multiset().insert(x));
    }
}

/// Law: sorting yields a sorted sequence that holds exactly the entries of
/// the input, no more and no fewer.
pub proof fn lemma_sort_by_name(s: Seq<DirEntry>)
    ensures
        sorted_by_name(sort_by_name(s)),
        sort_by_name(s).to_multiset() == s.to_multiset(),
        sort_by_name(s).len() == s.len(),
    decreases s.len(),
{
    if s.len() == 0 {
    } else {
        lemma_sort_by_name(s.drop_last());
        lemma_insert_by_name(s.last(), sort_by_name(s.drop_last()));
        assert(s =~= s.drop_last().push(s.last()));
        assert(s.drop_last().push(s.last()).to_multiset() == s.drop_last().to_multiset().insert(
            s.last(),
        ));
    }
}

/// The entries of `s` named exactly `n`, in their original order.
pub open spec fn named_entries(s: Seq<DirEntry>, n: Seq<char>) -> Seq<DirEntry>
    decreases s.len(),
{
    if s.len() == 0 {
        Seq::empty()
    } else if s.last().name@ == n {
        named_entries(s.drop_last(), n).push(s.last())
    } else {
        named_entries(s.drop_last(), n)
    }
}

proof fn lemma_named_entries_concat(a: Seq<DirEntry>, b: Seq<DirEntry>, n: Seq<char>)
    ensures
        named_entries(a + b, n) == named_entries(a, n) + named_entries(b, n),
    decreases b.len(),
{
    if b.len() == 0 {
        assert(a + b =~= a);
        assert(named_entries(a, n) + named_entries(b, n) =~= named_entries(a, n));
    } else {
        lemma_named_entries_concat(a, b.drop_last(), n);
        assert((a + b).drop_last() =~= a + b.drop_last());
        assert((a + b).last() == b.last());
        if b.last().name@ == n {
            assert(named_entries(a, n) + named_entries(b.drop_last(), n).push(b.last()) =~= (
            named_entries(a, n) + named_entries(b.drop_last(), n)).push(b.last()));
        }
    }
}

proof fn lemma_named_entries_absent(s: Seq<DirEntry>, n: Seq<char>)
    requires
        forall|i: int| 0 <= i < s.len() ==> (#[trigger] s[i]).name@ != n,
    ensures
        named_entries(s, n) == Seq::<DirEntry>::empty(),
    decreases s.len(),
{
    if s.len() > 0 {
        lemma_named_entries_absent(s.drop_last(), n);
    }
}

proof fn lemma_insert_by_name_stable(x: DirEntry, s: Seq<DirEntry>, n: Seq<char>)
    requires
        sorted_by_name(s),
    ensures
        named_entries(insert_by_name(x, s), n) == (if x.name@ == n {
            named_entries(s, n).push(x)
        } else {
            named_entries(s, n)
        }),
    decreases s.len(),
{
    assert(named_entries(Seq::<DirEntry>::empty(), n) =~= Seq::<DirEntry>::empty());
    if s.len() == 0 {
        assert(insert_by_name(x, s) == seq![x]);
        assert(seq![x].drop_last() =~= Seq::<DirEntry>::empty());
    } else if lex_le(s[0].name@, x.name@) {
        let tail = s.skip(1);
        assert(sorted_by_name(tail)) by {
            assert(forall|i: int| 0 <= i < tail.len() ==> tail[i] == s[i + 1]);
        }
        lemma_insert_by_name_stable(x, tail, n);
        assert(seq![s[0]].drop_last() =~= Seq::<DirEntry>::empty());
        lemma_named_entries_concat(seq![s[0]], insert_by_name(x, tail), n);
        lemma_named_entries_concat(seq![s[0]], tail, n);
        assert(s =~= seq![s[0]] + tail);
        if x.name@ == n {
            assert(named_entries(seq![s[0]], n) + named_entries(tail, n).push(x) =~= (
            named_entries(seq![s[0]], n) + named_entries(tail, n)).push(x));
        }
    } else {
        // The new entry sorts strictly before the head, hence strictly
        // before every entry: no entry of `s` shares its name.
        lemma_lex_le_refl(s[0].name@);
        lemma_named_entries_concat(seq![x], s, n);
        assert(seq![x].drop_last() =~= Seq::<DirEntry>::empty());
        if x.name@ == n {
            assert forall|i: int| 0 <= i < s.len() implies (#[trigger] s[i]).name@ != n by {
                if s[i].name@ == n {
                    if i == 0 {
                        assert(lex_le(s[0].name@, x.name@));
                    } else {
                        assert(lex_le(s[0].name@, s[i].name@));
                    }
                }
            }
            lemma_named_entries_absent(s, n);
            assert(named_entries(seq![x], n) + named_entries(s, n) =~= named_entries(
                s,
                n,
            ).push(x));
        } else {
            assert(named_entries(seq![x], n) + named_entries(s, n) =~= named_entries(s, n));
        }
    }
}

/// Law: the sort is stable. Entries with any one name come out in exactly
/// the order they went in.
pub proof fn lemma_sort_by_name_stable(s: Seq<DirEntry>, n: Seq<char>)
    ensures
        named_entries(sort_by_name(s), n) == named_entries(s, n),
    decreases s.len(),
{
    if s.len() > 0 {
        let dl = s.drop_last();
        lemma_sort_by_name_stable(dl, n);
        lemma_sort_by_name(dl);
        lemma_insert_by_name_stable(s.last(), sort_by_name(dl), n);
        assert(s =~= dl.push(s.last()));
        assert(dl.push(s.last()).drop_last() =~= dl);
    }
}

/// Law: every entry a `kept_entries` result holds passes `keep_entry`.
pub proof fn lemma_kept_entries_all(s: Seq<DirEntry>)
    ensures
        forall|i: int|
            0 <= i < kept_entries(s).len() ==> keep_entry(#[trigger] kept_entries(s)[i]),
    decreases s.len(),
{
    if s.len() > 0 {
        lemma_kept_entries_all(s.drop_last());
        let dl = kept_entries(s.drop_last());
        if keep_entry(s.last()) {
            assert forall|i: int| 0 <= i < kept_entries(s).len() implies keep_entry(
                #[trigger] kept_entries(s)[i],
            ) by {
                if i < dl.len() {
                    assert(kept_entries(s)[i] == dl[i]);
                } else {
                    assert(kept_entries(s)[i] == s.last());
                }
            }
        }
    }
}

/// What always holds of a freshly loaded listing: only plain-named
/// directories, in ascending name order.
pub open spec fn entries_ok(s: Seq<DirEntry>) -> bool {
    sorted_by_name(s) && forall|i: int| 0 <= i < s.len() ==> keep_entry(#[trigger] s[i])
}

/// Law: the browser's reload pipeline always yields an `entries_ok`
/// listing, whatever the filesystem handed it.
pub proof fn lemma_reload_entries_ok(listing: Seq<DirEntry>)
    ensures
        entries_ok(sort_by_name(kept_entries(listing))),
{
    let kept = kept_entries(listing);
    let sorted = sort_by_name(kept);
    lemma_sort_by_name(kept);
    lemma_kept_entries_all(listing);
    assert forall|i: int| 0 <= i < sorted.len() implies keep_entry(#[trigger] sorted[i]) by {
        let e = sorted[i];
        assert(sorted.contains(e));
        assert(sorted.to_multiset().count(e) > 0);
        assert(kept.contains(e));
        let k = choose|k: int| 0 <= k < kept.len() && kept[k] == e;
        assert(keep_entry(kept[k]));
    }
}

/// Places `x` in an already sorted vector as `insert_by_name` describes.
fn sorted_insert(entries: &mut Vec<DirEntry>, x: DirEntry)
    ensures
        final(entries)@ == insert_by_name(x, old(entries)@),
{
    let ghost orig = entries@;
    let mut k: usize = 0;
    while k < entries.len() && str_le(entries[k].name.as_str(), x.name.as_str())
        invariant
            entries@ == orig,
            k <= orig.len(),
            forall|i: int| 0 <= i < k ==> lex_le(#[trigger] orig[i].name@, x.name@),
        decreases orig.len() - k,
    {
        k = k + 1;
    }
    proof {
        lemma_insert_at(x, orig, k as int);
    }
    entries.insert(k, x);
    proof {
        assert(entries@ =~= insert_by_name(x, orig));
    }
}

proof fn lemma_insert_at(x: DirEntry, s: Seq<DirEntry>, k: int)
    requires
        0 <= k <= s.len(),
        forall|i: int| 0 <= i < k ==> lex_le(#[trigger] s[i].name@, x.name@),
        k < s.len() ==> !lex_le(s[k].name@, x.name@),
    ensures
        insert_by_name(x, s) == s.insert(k, x),
    decreases k,
{
    if k == 0 {
        if s.len() == 0 {
            assert(insert_by_name(x, s) =~= s.insert(0, x));
        } else {
            assert(insert_by_name(x, s) == seq![x] + s);
            assert(seq![x] + s =~= s.insert(0, x));
        }
    } else {
        let tail = s.skip(1);
        lemma_insert_at(x, tail, k - 1);
        assert(insert_by_name(x, s) == seq![s[0]] + tail.insert(k - 1, x));
        assert(seq![s[0]] + tail.insert(k - 1, x) =~= s.insert(k, x));
    }
}

/// One step up for a clamped cursor: down by one, stopping at the top.
pub open spec fn cursor_up(pre: usize, post: usize) -> bool {
    post as int == if pre > 0 {
        pre as int - 1
    } else {
        0
    }
}

/// One step down for a clamped cursor over `len` items: up by one,
/// stopping at the last item, and not moving at all when there are none.
pub open spec fn cursor_down(pre: usize, post: usize, len: int) -> bool {
    post as int == if pre + 1 < len {
        pre as int + 1
    } else {
        pre as int
    }
}

/// The directory browser behind the add-folder popup: one directory level
/// at a time, sub-directories only.
pub struct FileBrowser {
    /// The directory whose children are listed.
    pub current_path: String,
    /// The current listing: plain-named sub-directories, sorted by name.
    pub entries: Vec<DirEntry>,
    /// The cursor into `entries`.
    pub selected_index: usize,
}

impl FileBrowser {
    /// The browser's cursor invariant: clamped to the listing.
    pub open spec fn wf(&self) -> bool {
        if self.entries@.len() == 0 {
            self.selected_index == 0
        } else {
            (self.selected_index as int) < self.entries@.len()
        }
    }

    /// Replaces the listing with the admissible part of `listing`, sorted
    /// by name, and resets the cursor to the top.
    pub fn set_entries(&mut self, listing: Vec<DirEntry>)
        ensures
            final(self).current_path == old(self).current_path,
            final(self).selected_index == 0,
            final(self).entries@ == sort_by_name(kept_entries(listing@)),
            final(self).wf(),
    {
        let ghost orig = listing@;
        let mut remaining = listing;
        let mut acc: Vec<DirEntry> = Vec::new();
        let ghost k: int = 0;
        proof {
            assert(orig.take(0) =~= Seq::<DirEntry>::empty());
        }
        while remaining.len() > 0
            invariant
                0 <= k <= orig.len(),
                remaining@ == orig.skip(k),
                acc@ == sort_by_name(kept_entries(orig.take(k))),
            decreases remaining@.len(),
        {
            let e = remaining.remove(0);
            proof {
                assert(e == orig[k]);
                assert(remaining@ =~= orig.skip(k + 1));
            }
            let name_len = e.name.as_str().unicode_len();
            let hidden = name_len > 0 && e.name.as_str().get_char(0) == '.';
            let ghost prev = orig.take(k);
            proof {
                assert(orig.take(k + 1).drop_last() =~= prev);
                assert(orig.take(k + 1).last() == orig[k]);
            }
            if e.is_dir && !hidden {
                proof {
                    assert(keep_entry(orig[k]));
                    assert(kept_entries(orig.take(k + 1)) == kept_entries(prev).push(orig[k]));
                    assert(kept_entries(prev).push(orig[k]).drop_last() =~= kept_entries(prev));
                    assert(sort_by_name(kept_entries(orig.take(k + 1))) == insert_by_name(
                        orig[k],
                        sort_by_name(kept_entries(prev)),
                    ));
                }
                sorted_insert(&mut acc, e);
            } else {
                proof {
                    assert(!keep_entry(orig[k]));
                    assert(kept_entries(orig.take(k + 1)) == kept_entries(prev));
                }
            }
            proof {
                k = k + 1;
            }
        }
        proof {
            assert(orig.take(orig.len() as int) =~= orig);
        }
        self.entries = acc;
        self.selected_index = 0;
    }

    /// Moves the cursor up one entry; at the top it stays put.
    pub fn move_up(&mut self)
        ensures
            final(self).current_path == old(self).current_path,
            final(self).entries == old(self).entries,
            cursor_up(old(self).selected_index, final(self).selected_index),
            old(self).wf() ==> final(self).wf(),
    {
        if self.selected_index > 0 {
            self.selected_index = self.selected_index - 1;
        }
    }

    /// Moves the cursor down one entry; at the bottom (or on an empty
    /// listing) it stays put.
    pub fn move_down(&mut self)
        ensures
            final(self).current_path == old(self).current_path,
            final(self).entries == old(self).entries,
            cursor_down(
                old(self).selected_index,
                final(self).selected_index,
                old(self).entries@.len() as int,
            ),
            old(self).wf() ==> final(self).wf(),
    {
        let len = self.entries.len();
        if len > 0 && self.selected_index < len - 1 {
            self.selected_index = self.selected_index + 1;
        }
    }

    /// Reloads the listing from the filesystem: the plain-named
    /// sub-directories of `current_path`, sorted by name, with the cursor
    /// at the top. An unreadable path leaves an empty listing.
    pub fn load_entries(&mut self)
        ensures
            final(self).current_path == old(self).current_path,
            final(self).selected_index == 0,
            entries_ok(final(self).entries@),
            final(self).wf(),
    {
        let listing = crate::scanner::list_children(self.current_path.as_str());
        proof {
            lemma_reload_entries_ok(listing@);
        }
        self.set_entries(listing);
    }

    /// Whether the cursor rests on an entry that can be descended into.
    pub open spec fn can_descend(&self) -> bool {
        self.selected_index < self.entries@.len() && self.entries@[self.selected_index as int].is_dir
    }

    /// Descends into the selected entry, if there is one and it is a
    /// directory, and reloads the listing there; otherwise nothing changes.
    pub fn enter_selected(&mut self)
        ensures
            descend_step(*old(self), *final(self)),
    {
        if self.selected_index < self.entries.len() {
            if self.entries[self.selected_index].is_dir {
                let p = self.entries[self.selected_index].path.clone();
                self.current_path = p;
                self.load_entries();
            }
        }
    }

    /// Ascends to the current path's lexical parent, if it has one, and
    /// reloads the listing there; at the root nothing changes.
    pub fn go_up(&mut self)
        ensures
            ascend_step(*old(self), *final(self)),
    {
        match crate::paths::parent_of(self.current_path.as_str()) {
            Some(p) => {
                self.current_path = p;
                self.load_entries();
            },
            None => {},
        }
    }

    /// Where a fresh browser starts: the given home directory, or the
    /// filesystem root when none is known.
    pub open spec fn start_path(home: Option<String>) -> Seq<char> {
        match home {
            Some(h) => h@,
            None => "/"@,
        }
    }

    /// Creates a browser at `home` (at the root when `home` is absent)
    /// with a freshly loaded listing.
    pub fn new(home: Option<String>) -> (r: FileBrowser)
        ensures
            r.current_path@ == FileBrowser::start_path(home),
            r.selected_index == 0,
            entries_ok(r.entries@),
            r.wf(),
    {
        let path = match home {
            Some(h) => h,
            None => "/".to_owned(),
        };
        let mut browser = FileBrowser {
            current_path: path,
            entries: Vec::new(),
            selected_index: 0,
        };
        browser.load_entries();
        browser
    }
}

/// What descending does to a browser: when the cursor rests on a
/// directory, the browser moves there and reloads; otherwise nothing
/// changes.
pub open spec fn descend_step(pre: FileBrowser, post: FileBrowser) -> bool {
    &&& pre.can_descend() ==> post.current_path == pre.entries@[pre.selected_index as int].path
        && post.selected_index == 0 && entries_ok(post.entries@) && post.wf()
    &&& !pre.can_descend() ==> post == pre
}

/// What ascending does to a browser: when the current path has a lexical
/// parent, the browser moves there and reloads; at the root nothing
/// changes.
pub open spec fn ascend_step(pre: FileBrowser, post: FileBrowser) -> bool {
    &&& parent_view(pre.current_path@) is Some ==> post.current_path@ == parent_view(
        pre.current_path@,
    ).unwrap() && post.selected_index == 0 && entries_ok(post.entries@) && post.wf()
    &&& parent_view(pre.current_path@) is None ==> post == pre
}

/// The two interaction modes. Exactly one is active at any time.
#[derive(PartialEq, Eq, Structural, Clone, Copy, Debug)]
pub enum UiMode {
    /// The catalogue view is active.
    Normal,
    /// The add-folder popup (the directory browser) is active.
    AddingFolder,
}

/// An effect the state machine asks its caller to perform. The router
/// never touches the filesystem or spawns anything itself; every outward
/// effect funnels through one of these.
#[derive(PartialEq, Eq, Debug)]
pub enum AppAction {
    /// Scan this folder for books and fold the result back in through
    /// `TuiState::apply_scan_result`.
    AddFolder(String),
    /// Open this book file with the platform's default viewer.
    OpenBook(String),
}

/// The whole application state: the catalogue, its selection cursor, the
/// active mode, and the embedded directory browser.
pub struct TuiState {
    /// All books currently in the catalogue.
    pub books: Vec<Book>,
    /// The cursor into `books`.
    pub selected_index: usize,
    /// Whether the user asked to quit. Monotonic: nothing resets it.
    pub should_quit: bool,
    /// The paths whose scans produced the catalogue.
    pub scan_paths: Vec<String>,
    /// The active interaction mode.
    pub mode: UiMode,
    /// The directory browser behind the add-folder popup.
    pub browser: FileBrowser,
}

/// The header line of the catalogue view: the application name, the book
/// count, and where the books came from (no folder, the one folder's path,
/// or the number of folders).
pub open spec fn header_text_view(book_count: nat, scan_paths: Seq<String>) -> Seq<char> {
    "FunkHunt | Books: "@ + dec_digits(book_count) + " | "@ + (if scan_paths.len() == 0 {
        "No folders added"@
    } else if scan_paths.len() == 1 {
        scan_paths[0]@
    } else {
        dec_digits(scan_paths.len() as nat) + " folders"@
    })
}

impl TuiState {
    /// The catalogue cursor invariant, and the browser's own.
    pub open spec fn wf(&self) -> bool {
        &&& if self.books@.len() == 0 {
            self.selected_index == 0
        } else {
            (self.selected_index as int) < self.books@.len()
        }
        &&& self.browser.wf()
    }

    /// Creates the startup state: the given catalogue and scan paths, the
    /// first book selected, the catalogue view active, and a browser
    /// seeded at `home`.
    pub fn new(books: Vec<Book>, scan_paths: Vec<String>, home: Option<String>) -> (r: TuiState)
        ensures
            r.books == books,
            r.selected_index == 0,
            !r.should_quit,
            r.scan_paths == scan_paths,
            r.mode == UiMode::Normal,
            r.browser.current_path@ == FileBrowser::start_path(home),
            r.browser.selected_index == 0,
            entries_ok(r.browser.entries@),
            r.wf(),
    {
        TuiState {
            books,
            selected_index: 0,
            should_quit: false,
            scan_paths,
            mode: UiMode::Normal,
            browser: FileBrowser::new(home),
        }
    }

    /// The currently selected book, or nothing when the catalogue is empty
    /// (or the cursor is somehow out of range).
    pub fn selected_book(&self) -> (r: Option<&Book>)
        ensures
            match r {
                Some(b) => self.selected_index < self.books@.len() && *b == self.books@[self.selected_index as int],
                None => self.selected_index >= self.books@.len(),
            },
    {
        if self.selected_index < self.books.len() {
            Some(&self.books[self.selected_index])
        } else {
            None
        }
    }

    /// Moves the catalogue cursor up one book; at the top it stays put.
    pub fn move_selection_up(&mut self)
        ensures
            final(self).books == old(self).books,
            final(self).should_quit == old(self).should_quit,
            final(self).scan_paths == old(self).scan_paths,
            final(self).mode == old(self).mode,
            final(self).browser == old(self).browser,
            cursor_up(old(self).selected_index, final(self).selected_index),
            old(self).wf() ==> final(self).wf(),
    {
        if self.selected_index > 0 {
            self.selected_index = self.selected_index - 1;
        }
    }

    /// Moves the catalogue cursor down one book; at the bottom (or on an
    /// empty catalogue) it stays put.
    pub fn move_selection_down(&mut self)
        ensures
            final(self).books == old(self).books,
            final(self).should_quit == old(self).should_quit,
            final(self).scan_paths == old(self).scan_paths,
            final(self).mode == old(self).mode,
            final(self).browser == old(self).browser,
            cursor_down(
                old(self).selected_index,
                final(self).selected_index,
                old(self).books@.len() as int,
            ),
            old(self).wf() ==> final(self).wf(),
    {
        let len = self.books.len();
        if len > 0 && self.selected_index < len - 1 {
            self.selected_index = self.selected_index + 1;
        }
    }

    /// Folds a finished scan back into the state. The policy is replace:
    /// a scan that found books replaces the whole catalogue and records
    /// `location` as the single scanned path, with the first book
    /// selected; a scan that found nothing changes nothing.
    pub fn apply_scan_result(&mut self, location: String, new_books: Vec<Book>)
        ensures
            new_books@.len() == 0 ==> *final(self) == *old(self),
            new_books@.len() > 0 ==> final(self).books == new_books && final(self).scan_paths@
                =~= seq![location] && final(self).selected_index == 0 && final(self).should_quit
                == old(self).should_quit && final(self).mode == old(self).mode
                && final(self).browser == old(self).browser,
            old(self).wf() ==> final(self).wf(),
    {
        if new_books.len() > 0 {
            self.books = new_books;
            let mut paths: Vec<String> = Vec::new();
            paths.push(location);
            self.scan_paths = paths;
            self.selected_index = 0;
        }
    }

    /// Formats the catalogue view's header line, as `header_text_view`
    /// describes.
    pub fn header_text(&self) -> (r: String)
        ensures
            r@ == header_text_view(self.books@.len() as nat, self.scan_paths@),
    {
        let mut s = "FunkHunt | Books: ".to_owned();
        let count = u64_to_string(self.books.len() as u64);
        s.append(count.as_str());
        s.append(" | ");
        if self.scan_paths.len() == 0 {
            s.append("No folders added");
        } else if self.scan_paths.len() == 1 {
            s.append(self.scan_paths[0].as_str());
        } else {
            let n = u64_to_string(self.scan_paths.len() as u64);
            s.append(n.as_str());
            s.append(" folders");
        }
        proof {
            assert(s@ =~= header_text_view(self.books@.len() as nat, self.scan_paths@));
        }
        s
    }
}

} // verus!
