//! The snapshot of one directory: its entries, directories first, each group
//! in ascending byte order of the names.

use crate::bytes::{bytes_lt, lemma_lex_le_order, lex_le};
use crate::entry::{entry_of, DirEntryInfo, Entry};
use vstd::prelude::*;
use vstd::seq_lib::lemma_seq_union_to_multiset_commutative;
use vstd::seq_lib::to_multiset_build;
use vstd::seq_lib::to_multiset_insert;

verus! {

/// Why a directory or a file could not be read. The browser looks at nothing
/// but the message.
#[derive(Debug, PartialEq, Eq)]
pub struct IoError {
    pub message: String,
}

/// One directory: its path and its entries in listing order.
#[derive(Debug, PartialEq, Eq)]
pub struct DirContent {
    pub path: String,
    pub children: Vec<Entry>,
}

/// Whether `a` may stand before `b` in a listing: a directory never follows
/// an entry that is none, and of two entries of the same group the one with
/// the smaller name, byte by byte, never follows the other.
pub open spec fn entry_le(a: Entry, b: Entry) -> bool {
    &&& b.is_directory() ==> a.is_directory()
    &&& a.is_directory() == b.is_directory() ==> lex_le(a.name_bytes(), b.name_bytes())
}

/// Whether `entries` is in listing order: every entry may stand before
/// every later one.
pub open spec fn in_listing_order(entries: Seq<Entry>) -> bool {
    forall|i: int, j: int| 0 <= i < j < entries.len() ==> entry_le(entries[i], entries[j])
}

/// Whether the listing order cannot tell `a` and `b` apart: both are
/// directories or neither is, and their names are equal.
pub open spec fn same_rank(a: Entry, b: Entry) -> bool {
    a.is_directory() == b.is_directory() && a.name_bytes() == b.name_bytes()
}

/// The test that picks the entries of the rank of `e`.
pub open spec fn of_rank(e: Entry) -> spec_fn(Entry) -> bool {
    |x: Entry| same_rank(x, e)
}

/// Whether `sorted` keeps entries of equal rank in the order that they have in
/// `given`.
pub open spec fn keeps_order_of(sorted: Seq<Entry>, given: Seq<Entry>) -> bool {
    forall|e: Entry| #[trigger] sorted.filter(of_rank(e)) == given.filter(of_rank(e))
}

/// The classified entries of a scan, in the order of the scan.
pub open spec fn entries_of(found: Seq<DirEntryInfo>) -> Seq<Entry> {
    found.map_values(|info: DirEntryInfo| entry_of(info))
}

/// Whether `children` is the listing of what a scan found: the classified
/// children of the scan, every one once, in listing order, those of equal
/// rank in the order of the scan.
pub open spec fn is_listing_of(children: Seq<Entry>, found: Seq<DirEntryInfo>) -> bool {
    &&& in_listing_order(children)
    &&& children.len() == found.len()
    &&& children.to_multiset() == entries_of(found).to_multiset()
    &&& keeps_order_of(children, entries_of(found))
}

/// The test that picks the entries shown: all of them, or those that are not
/// hidden.
pub open spec fn shown(show_hidden: bool) -> spec_fn(Entry) -> bool {
    |e: Entry| show_hidden || !e.hidden()
}

/// The entries that are shown, in their stored order.
pub open spec fn visible_entries(entries: Seq<Entry>, show_hidden: bool) -> Seq<Entry> {
    entries.filter(shown(show_hidden))
}

/// The entries that a sequence of references points to.
pub open spec fn referents(refs: Seq<&Entry>) -> Seq<Entry> {
    refs.map_values(|e: &Entry| *e)
}

/// Any two entries are comparable, entries that may stand either way round are
/// of the same rank, and `entry_le` is transitive.
pub proof fn lemma_entry_le_order(a: Entry, b: Entry, c: Entry)
    ensures
        entry_le(a, b) || entry_le(b, a),
        entry_le(a, b) && entry_le(b, a) <==> same_rank(a, b),
        entry_le(a, b) && entry_le(b, c) ==> entry_le(a, c),
{
    lemma_lex_le_order(a.name_bytes(), b.name_bytes(), c.name_bytes());
    lemma_lex_le_order(b.name_bytes(), a.name_bytes(), a.name_bytes());
    lemma_lex_le_order(a.name_bytes(), a.name_bytes(), a.name_bytes());
}

/// Whether `a` must stand before `b`.
fn comes_before(a: &Entry, b: &Entry) -> (r: bool)
    ensures
        r == !entry_le(*b, *a),
{
    proof {
        lemma_lex_le_order(b.name_bytes(), a.name_bytes(), a.name_bytes());
    }
    if a.is_dir() == b.is_dir() {
        bytes_lt(a.file_name.as_str().as_bytes(), b.file_name.as_str().as_bytes())
    } else {
        a.is_dir()
    }
}

/// Where `entry` goes into `sorted` so that it stands before every entry of
/// its own rank: the first place whose entry need not stand before `entry`.
fn insertion_point(sorted: &Vec<Entry>, entry: &Entry) -> (at: usize)
    ensures
        at <= sorted@.len(),
        forall|k: int| 0 <= k < at ==> !entry_le(*entry, #[trigger] sorted@[k]),
        at < sorted@.len() ==> entry_le(*entry, sorted@[at as int]),
{
    let mut at: usize = 0;
    while at < sorted.len() && comes_before(&sorted[at], entry)
        invariant
            at <= sorted@.len(),
            forall|k: int| 0 <= k < at ==> !entry_le(*entry, #[trigger] sorted@[k]),
        decreases sorted@.len() - at,
    {
        at += 1;
    }
    at
}

/// Putting `entry` at its insertion point keeps a listing in order and keeps
/// `entry` before the entries of its rank.
proof fn lemma_insert_keeps_order(sorted: Seq<Entry>, entry: Entry, at: int)
    requires
        in_listing_order(sorted),
        0 <= at <= sorted.len(),
        forall|k: int| 0 <= k < at ==> !entry_le(entry, #[trigger] sorted[k]),
        at < sorted.len() ==> entry_le(entry, sorted[at]),
    ensures
        in_listing_order(sorted.insert(at, entry)),
        forall|e: Entry| #[trigger]
            sorted.insert(at, entry).filter(of_rank(e)) == (seq![entry] + sorted).filter(
                of_rank(e),
            ),
{
    let grown = sorted.insert(at, entry);
    assert forall|i: int, j: int| 0 <= i < j < grown.len() implies entry_le(
        grown[i],
        grown[j],
    ) by {
        if i < at && j == at {
            lemma_entry_le_order(entry, sorted[i], entry);
        } else if i == at && j - 1 > at {
            lemma_entry_le_order(entry, sorted[at], sorted[j - 1]);
        }
    }
    let front = sorted.take(at);
    let back = sorted.skip(at);
    assert(grown =~= front + (seq![entry] + back));
    assert(sorted =~= front + back);
    assert forall|e: Entry| #[trigger]
        grown.filter(of_rank(e)) == (seq![entry] + sorted).filter(of_rank(e)) by {
        let p = of_rank(e);
        Seq::filter_distributes_over_add(front, seq![entry] + back, p);
        Seq::filter_distributes_over_add(front, back, p);
        back.lemma_filter_prepend(entry, p);
        sorted.lemma_filter_prepend(entry, p);
        if p(entry) {
            assert(front.all(|x: Entry| !p(x))) by {
                assert forall|k: int| 0 <= k < front.len() implies !p(front[k]) by {
                    lemma_entry_le_order(entry, sorted[k], entry);
                }
            }
            front.lemma_all_neg_filter_empty(p);
        }
    }
}

/// Two listings in listing order that hold, rank for rank, the same entries
/// in the same order are the same listing.
proof fn lemma_order_determines(a: Seq<Entry>, b: Seq<Entry>)
    requires
        in_listing_order(a),
        in_listing_order(b),
        a.len() == b.len(),
        forall|e: Entry| #[trigger] a.filter(of_rank(e)) == b.filter(of_rank(e)),
    ensures
        a == b,
    decreases a.len(),
{
    if a.len() > 0 {
        let x = a[0];
        let y = b[0];
        let a_rest = a.skip(1);
        let b_rest = b.skip(1);
        assert(a =~= seq![x] + a_rest);
        assert(b =~= seq![y] + b_rest);
        a_rest.lemma_filter_prepend(x, of_rank(x));
        b_rest.lemma_filter_prepend(y, of_rank(y));
        assert(entry_le(y, x)) by {
            b.lemma_filter_contains_rev(of_rank(x), x);
            lemma_entry_le_order(x, x, x);
        }
        assert(entry_le(x, y)) by {
            a.lemma_filter_contains_rev(of_rank(y), y);
            lemma_entry_le_order(y, y, y);
        }
        lemma_entry_le_order(x, y, x);
        b_rest.lemma_filter_prepend(y, of_rank(x));
        assert(b.filter(of_rank(x))[0] == y);
        assert forall|e: Entry| #[trigger] a_rest.filter(of_rank(e)) == b_rest.filter(of_rank(e)) by {
            a_rest.lemma_filter_prepend(x, of_rank(e));
            b_rest.lemma_filter_prepend(y, of_rank(e));
            let head = if of_rank(e)(x) {
                seq![x]
            } else {
                Seq::<Entry>::empty()
            };
            let whole = a.filter(of_rank(e));
            assert(b_rest.filter(of_rank(e)) =~= whole.skip(head.len() as int));
        }
        assert(in_listing_order(a_rest) && in_listing_order(b_rest));
        lemma_order_determines(a_rest, b_rest);
    }
}

/// A scan has one listing only: listing order, with the order of the scan
/// among children of equal rank, leaves no choice.
pub proof fn lemma_listing_is_unique(a: Seq<Entry>, b: Seq<Entry>, found: Seq<DirEntryInfo>)
    requires
        is_listing_of(a, found),
        is_listing_of(b, found),
    ensures
        a == b,
{
    lemma_order_determines(a, b);
}

/// Classifies the children that a scan found and puts them in listing order:
/// directories first, each group by name. Children of equal rank stay in the
/// order of the scan.
pub fn sort_entries(found: Vec<DirEntryInfo>) -> (children: Vec<Entry>)
    ensures
        is_listing_of(children@, found@),
{
    let ghost given = entries_of(found@);
    let mut rest = found;
    let mut children: Vec<Entry> = Vec::new();
    proof {
        assert(children@ =~= given.skip(rest@.len() as int));
    }
    while rest.len() > 0
        invariant
            rest@.len() <= given.len(),
            given.len() == found@.len(),
            children@.len() + rest@.len() == given.len(),
            entries_of(rest@) == given.take(rest@.len() as int),
            in_listing_order(children@),
            children@.to_multiset() == given.skip(rest@.len() as int).to_multiset(),
            keeps_order_of(children@, given.skip(rest@.len() as int)),
        decreases rest@.len(),
    {
        let ghost n = rest@.len() as int;
        let ghost before = children@;
        let info = rest.pop().unwrap();
        let entry = Entry::from(info);
        let at = insertion_point(&children, &entry);
        proof {
            assert(entries_of(rest@) =~= given.take(n - 1)) by {
                assert forall|k: int| 0 <= k < n - 1 implies entries_of(rest@)[k] == given[k] by {
                    assert(given.take(n)[k] == given[k]);
                }
            }
            assert(entry == given[n - 1]) by {
                assert(given.take(n)[n - 1] == given[n - 1]);
            }
            assert(given.skip(n - 1) =~= seq![entry] + given.skip(n));
            lemma_insert_keeps_order(before, entry, at as int);
            to_multiset_insert(before, at as int, entry);
            lemma_seq_union_to_multiset_commutative(seq![entry], given.skip(n));
            assert(given.skip(n) + seq![entry] =~= given.skip(n).push(entry));
            to_multiset_build(given.skip(n), entry);
            assert forall|e: Entry| #[trigger]
                before.insert(at as int, entry).filter(of_rank(e)) == given.skip(n - 1).filter(
                    of_rank(e),
                ) by {
                before.lemma_filter_prepend(entry, of_rank(e));
                given.skip(n).lemma_filter_prepend(entry, of_rank(e));
            }
        }
        children.insert(at, entry);
    }
    proof {
        assert(given.skip(0) =~= given);
    }
    children
}

impl DirContent {
    /// Whether the entries are in listing order.
    pub open spec fn wf(&self) -> bool {
        in_listing_order(self.children@)
    }

    /// Builds the model of the directory `path` from what a scan of it gave.
    ///
    /// A scan that failed gives its error back. A scan that succeeded gives the
    /// model: the classified children in listing order, children of equal rank
    /// in the order of the scan.
    pub fn new(path: String, listing: Result<Vec<DirEntryInfo>, IoError>) -> (r: Result<
        DirContent,
        IoError,
    >)
        ensures
            match listing {
                Ok(found) => r matches Ok(dir) && dir.path == path && is_listing_of(
                    dir.children@,
                    found@,
                ),
                Err(e) => r == Err::<DirContent, IoError>(e),
            },
    {
        match listing {
            Ok(found) => Ok(DirContent { path, children: sort_entries(found) }),
            Err(e) => Err(e),
        }
    }

    /// The entries that are shown, in stored order: all of them when
    /// `show_hidden` is set, else those whose name does not start with a dot.
    pub fn visible(&self, show_hidden: bool) -> (shown: Vec<&Entry>)
        ensures
            referents(shown@) == visible_entries(self.children@, show_hidden),
    {
        let mut out: Vec<&Entry> = Vec::new();
        let mut i: usize = 0;
        proof {
            reveal(Seq::filter);
        }
        while i < self.children.len()
            invariant
                i <= self.children@.len(),
                referents(out@) == visible_entries(self.children@.take(i as int), show_hidden),
            decreases self.children@.len() - i,
        {
            let entry = &self.children[i];
            proof {
                assert(self.children@.take(i + 1) =~= self.children@.take(i as int).push(*entry));
                self.children@.take(i as int).lemma_filter_push(*entry, shown(show_hidden));
            }
            if show_hidden || !entry.is_hidden() {
                out.push(entry);
            }
            i += 1;
        }
        proof {
            assert(self.children@.take(i as int) =~= self.children@);
        }
        out
    }
}

} // verus!
