//! The listing of a directory: its visible children, ordered by path.
//!
//! Reading the directory is left to the caller. What is decided here is which
//! of the children are shown, in what order, and what stands for a directory
//! that shows none.

use crate::entry::{
    entry_views, lemma_placeholder_has_no_name, placeholder, DirectoryEntry, EntryView,
};
use crate::path::{
    lemma_lex_le_antisymmetric, lemma_lex_le_total, lemma_lex_le_transitive, lex_le, path_le,
};
use vstd::prelude::*;

verus! {

/// The entries that the hidden-file policy lets through, in their order.
pub open spec fn visible(entries: Seq<EntryView>, show_hidden: bool) -> Seq<EntryView> {
    entries.filter(|e: EntryView| show_hidden || !e.hidden())
}

/// Each entry's path comes before, or equals, the path of every later entry.
pub open spec fn sorted_by_path(entries: Seq<EntryView>) -> bool {
    forall|i: int, j: int|
        0 <= i < j < entries.len() ==> lex_le(#[trigger] entries[i].path, #[trigger] entries[j].path)
}

/// How many entries at the front of `entries` have a path that comes before
/// `path` or equals it.
pub open spec fn insertion_point(entries: Seq<EntryView>, path: Seq<char>) -> nat
    decreases entries.len(),
{
    if entries.len() == 0 || !lex_le(entries[0].path, path) {
        0
    } else {
        1 + insertion_point(entries.drop_first(), path)
    }
}

/// `entries` with `entry` put in behind the entries that come before it or
/// share its path.
pub open spec fn insert_by_path(entries: Seq<EntryView>, entry: EntryView) -> Seq<EntryView> {
    entries.insert(insertion_point(entries, entry.path) as int, entry)
}

/// The entries ordered by path. Entries that share a path keep their order.
pub open spec fn sort_by_path(entries: Seq<EntryView>) -> Seq<EntryView>
    decreases entries.len(),
{
    if entries.len() == 0 {
        entries
    } else {
        insert_by_path(sort_by_path(entries.drop_last()), entries.last())
    }
}

/// What the browser lists for a directory with the children `entries`: the
/// visible ones ordered by path, or the placeholder alone where none is
/// visible.
pub open spec fn listing_of(entries: Seq<EntryView>, show_hidden: bool) -> Seq<EntryView> {
    let shown = sort_by_path(visible(entries, show_hidden));
    if shown.len() == 0 {
        seq![placeholder()]
    } else {
        shown
    }
}

/// A sequence that can be listed and pointed into: it is ordered by path and
/// holds at least one row.
pub open spec fn is_listing(entries: Seq<EntryView>) -> bool {
    entries.len() >= 1 && sorted_by_path(entries)
}

/// The listing keeps to the hidden-file policy: unless hidden files are
/// shown, it holds no hidden entry.
pub open spec fn obeys_policy(listing: Seq<EntryView>, show_hidden: bool) -> bool {
    show_hidden || forall|i: int| 0 <= i < listing.len() ==> !(#[trigger] listing[i]).hidden()
}

/// No two different entries of `entries` share a path, as it is among the
/// children of one directory.
pub open spec fn one_entry_per_path(entries: Seq<EntryView>) -> bool {
    forall|a: EntryView, b: EntryView|
        entries.contains(a) && entries.contains(b) && a.path == b.path ==> a == b
}

/// Where `insertion_point` points: everything in front comes before `path` or
/// equals it, and the entry at the point, if there is one, does not.
pub proof fn lemma_insertion_point(entries: Seq<EntryView>, path: Seq<char>)
    ensures
        insertion_point(entries, path) <= entries.len(),
        forall|i: int|
            0 <= i < insertion_point(entries, path) ==> lex_le(#[trigger] entries[i].path, path),
        insertion_point(entries, path) < entries.len() ==> !lex_le(
            entries[insertion_point(entries, path) as int].path,
            path,
        ),
    decreases entries.len(),
{
    if entries.len() > 0 && lex_le(entries[0].path, path) {
        let rest = entries.drop_first();
        lemma_insertion_point(rest, path);
        assert forall|i: int| 0 <= i < insertion_point(entries, path) implies lex_le(
            #[trigger] entries[i].path,
            path,
        ) by {
            if i > 0 {
                assert(entries[i] == rest[i - 1]);
            }
        }
    }
}

/// Putting an entry into an ordered sequence leaves it ordered, and adds
/// that entry and nothing else.
pub proof fn lemma_insert_by_path(entries: Seq<EntryView>, entry: EntryView)
    requires
        sorted_by_path(entries),
    ensures
        sorted_by_path(insert_by_path(entries, entry)),
        insert_by_path(entries, entry).len() == entries.len() + 1,
        insert_by_path(entries, entry).to_multiset() == entries.to_multiset().insert(entry),
{
    let k = insertion_point(entries, entry.path) as int;
    let out = insert_by_path(entries, entry);
    lemma_insertion_point(entries, entry.path);
    assert forall|i: int, j: int| 0 <= i < j < out.len() implies lex_le(
        #[trigger] out[i].path,
        #[trigger] out[j].path,
    ) by {
        if j < k {
            assert(out[i] == entries[i] && out[j] == entries[j]);
        } else if j == k {
            assert(out[i] == entries[i]);
        } else if i == k {
            assert(out[j] == entries[j - 1]);
            lemma_lex_le_total(entries[k].path, entry.path);
            if j - 1 > k {
                lemma_lex_le_transitive(entry.path, entries[k].path, entries[j - 1].path);
            }
        } else if i < k {
            assert(out[i] == entries[i] && out[j] == entries[j - 1]);
        } else {
            assert(out[i] == entries[i - 1] && out[j] == entries[j - 1]);
        }
    }
    vstd::seq_lib::to_multiset_insert(entries, k, entry);
}

/// Ordering by path gives an ordered sequence of the same entries.
pub proof fn lemma_sort_by_path(entries: Seq<EntryView>)
    ensures
        sorted_by_path(sort_by_path(entries)),
        sort_by_path(entries).len() == entries.len(),
        sort_by_path(entries).to_multiset() == entries.to_multiset(),
    decreases entries.len(),
{
    if entries.len() > 0 {
        let front = entries.drop_last();
        lemma_sort_by_path(front);
        lemma_insert_by_path(sort_by_path(front), entries.last());
        vstd::seq_lib::to_multiset_build(front, entries.last());
        assert(front.push(entries.last()) =~= entries);
    }
}

/// Leaving entries out and counting the rest comes to the same as counting
/// all and leaving the counts of those entries out.
pub proof fn lemma_filter_to_multiset(entries: Seq<EntryView>, keep: spec_fn(EntryView) -> bool)
    ensures
        entries.filter(keep).to_multiset() == entries.to_multiset().filter(keep),
    decreases entries.len(),
{
    reveal(Seq::filter);
    if entries.len() == 0 {
        assert forall|e: EntryView| entries.to_multiset().count(e) == 0 by {
            vstd::seq_lib::to_multiset_contains(entries, e);
        }
        assert(entries.filter(keep).to_multiset() =~= entries.to_multiset().filter(keep));
    } else {
        let front = entries.drop_last();
        let last = entries.last();
        lemma_filter_to_multiset(front, keep);
        assert(front.push(last) =~= entries);
        vstd::seq_lib::to_multiset_build(front, last);
        if keep(last) {
            vstd::seq_lib::to_multiset_build(front.filter(keep), last);
        }
        let kept = entries.filter(keep).to_multiset();
        let all = entries.to_multiset();
        assert(all == front.to_multiset().insert(last));
        assert forall|e: EntryView| kept.count(e) == all.filter(keep).count(e) by {
            assert(front.to_multiset().filter(keep).count(e) == if keep(e) {
                front.to_multiset().count(e)
            } else {
                0
            });
        }
        assert(kept =~= all.filter(keep));
    }
}

/// A listing always is one: ordered by path, with at least one row. It keeps
/// to the policy, and it holds the visible children and nothing else, or the
/// placeholder alone where no child is visible.
pub proof fn lemma_listing_of(entries: Seq<EntryView>, show_hidden: bool)
    ensures
        is_listing(listing_of(entries, show_hidden)),
        obeys_policy(listing_of(entries, show_hidden), show_hidden),
        visible(entries, show_hidden).len() == 0 ==> listing_of(entries, show_hidden) == seq![
            placeholder(),
        ],
        visible(entries, show_hidden).len() > 0 ==> listing_of(
            entries,
            show_hidden,
        ).to_multiset() == visible(entries, show_hidden).to_multiset(),
{
    let keep = |e: EntryView| show_hidden || !e.hidden();
    let shown = visible(entries, show_hidden);
    let listing = listing_of(entries, show_hidden);
    lemma_sort_by_path(shown);
    lemma_placeholder_has_no_name();
    if shown.len() > 0 && !show_hidden {
        lemma_filter_to_multiset(entries, keep);
        assert forall|i: int| 0 <= i < listing.len() implies !(#[trigger] listing[i]).hidden() by {
            vstd::seq_lib::to_multiset_contains(listing, listing[i]);
            assert(listing.contains(listing[i]));
            assert(entries.to_multiset().filter(keep).count(listing[i]) > 0);
        }
    }
}

/// Two sequences ordered by path that hold the same entries, no two of them
/// sharing a path, are the same sequence.
pub proof fn lemma_sorted_by_path_unique(x: Seq<EntryView>, y: Seq<EntryView>)
    requires
        sorted_by_path(x),
        sorted_by_path(y),
        x.to_multiset() == y.to_multiset(),
        one_entry_per_path(x),
    ensures
        x == y,
    decreases x.len(),
{
    vstd::seq_lib::to_multiset_len(x);
    vstd::seq_lib::to_multiset_len(y);
    if x.len() == 0 {
        assert(x =~= y);
    } else {
        vstd::seq_lib::to_multiset_contains(x, x[0]);
        vstd::seq_lib::to_multiset_contains(y, x[0]);
        vstd::seq_lib::to_multiset_contains(x, y[0]);
        vstd::seq_lib::to_multiset_contains(y, y[0]);
        assert(x.contains(x[0]));
        assert(y.contains(y[0]));
        let i = choose|i: int| 0 <= i < y.len() && y[i] == x[0];
        let j = choose|j: int| 0 <= j < x.len() && x[j] == y[0];
        assert(lex_le(y[0].path, x[0].path)) by {
            if i > 0 {
                assert(lex_le(y[0].path, y[i].path));
            } else {
                lemma_lex_le_total(y[0].path, y[0].path);
            }
        }
        assert(lex_le(x[0].path, y[0].path)) by {
            if j > 0 {
                assert(lex_le(x[0].path, x[j].path));
            } else {
                lemma_lex_le_total(x[0].path, x[0].path);
            }
        }
        lemma_lex_le_antisymmetric(x[0].path, y[0].path);
        assert(x[0] == y[0]);
        let xs = x.drop_first();
        let ys = y.drop_first();
        vstd::seq_lib::to_multiset_remove(x, 0);
        vstd::seq_lib::to_multiset_remove(y, 0);
        assert(x.remove(0) =~= xs);
        assert(y.remove(0) =~= ys);
        assert forall|a: EntryView, b: EntryView|
            xs.contains(a) && xs.contains(b) && a.path == b.path implies a == b by {
            let m = choose|m: int| 0 <= m < xs.len() && xs[m] == a;
            let n = choose|n: int| 0 <= n < xs.len() && xs[n] == b;
            assert(x[m + 1] == a && x[n + 1] == b);
            assert(x.contains(a) && x.contains(b));
        }
        assert forall|m: int, n: int| 0 <= m < n < xs.len() implies lex_le(
            #[trigger] xs[m].path,
            #[trigger] xs[n].path,
        ) by {
            assert(xs[m] == x[m + 1] && xs[n] == x[n + 1]);
        }
        assert forall|m: int, n: int| 0 <= m < n < ys.len() implies lex_le(
            #[trigger] ys[m].path,
            #[trigger] ys[n].path,
        ) by {
            assert(ys[m] == y[m + 1] && ys[n] == y[n + 1]);
        }
        lemma_sorted_by_path_unique(xs, ys);
        assert(x =~= seq![x[0]] + xs);
        assert(y =~= seq![y[0]] + ys);
    }
}

/// The listing of a directory does not depend on the order in which its
/// children were read: two readings that hold the same children, no two of
/// them sharing a path, are listed alike under one policy.
pub proof fn lemma_listing_ignores_reading_order(
    first: Seq<EntryView>,
    second: Seq<EntryView>,
    show_hidden: bool,
)
    requires
        first.to_multiset() == second.to_multiset(),
        one_entry_per_path(first),
    ensures
        listing_of(first, show_hidden) == listing_of(second, show_hidden),
{
    let keep = |e: EntryView| show_hidden || !e.hidden();
    let x = sort_by_path(visible(first, show_hidden));
    let y = sort_by_path(visible(second, show_hidden));
    lemma_filter_to_multiset(first, keep);
    lemma_filter_to_multiset(second, keep);
    lemma_sort_by_path(visible(first, show_hidden));
    lemma_sort_by_path(visible(second, show_hidden));
    assert forall|a: EntryView, b: EntryView|
        x.contains(a) && x.contains(b) && a.path == b.path implies a == b by {
        vstd::seq_lib::to_multiset_contains(x, a);
        vstd::seq_lib::to_multiset_contains(x, b);
        vstd::seq_lib::to_multiset_contains(first, a);
        vstd::seq_lib::to_multiset_contains(first, b);
        assert(first.to_multiset().filter(keep).count(a) > 0);
        assert(first.to_multiset().filter(keep).count(b) > 0);
    }
    lemma_sorted_by_path_unique(x, y);
}

/// An empty directory is listed as the placeholder alone.
pub proof fn lemma_empty_directory(show_hidden: bool)
    ensures
        listing_of(Seq::<EntryView>::empty(), show_hidden) == seq![placeholder()],
{
    reveal(Seq::filter);
    assert(visible(Seq::<EntryView>::empty(), show_hidden).len() == 0);
}

/// Puts `entry` into the ordered vector `sorted`, behind the entries that
/// come before it or share its path.
fn insert_entry(sorted: &mut Vec<DirectoryEntry>, entry: DirectoryEntry)
    ensures
        entry_views(final(sorted)@) == insert_by_path(entry_views(old(sorted)@), entry@),
{
    let ghost before = entry_views(sorted@);
    let mut k: usize = 0;
    assert(before.skip(0) =~= before);
    while k < sorted.len() && path_le(sorted[k].path.as_str(), entry.path.as_str())
        invariant
            k <= sorted.len(),
            entry_views(sorted@) == before,
            insertion_point(before, entry@.path) == k + insertion_point(
                before.skip(k as int),
                entry@.path,
            ),
        decreases sorted.len() - k,
    {
        assert(before.skip(k as int).drop_first() =~= before.skip(k + 1));
        k = k + 1;
    }
    sorted.insert(k, entry);
    assert(entry_views(sorted@) =~= before.insert(k as int, entry@));
}

/// The listing of a directory whose children are `entries`, in any order:
/// the hidden ones left out unless `show_hidden` is set, the others ordered
/// by path, and the placeholder alone where nothing is left.
pub fn get_dir_content(entries: Vec<DirectoryEntry>, show_hidden: bool) -> (listing: Vec<
    DirectoryEntry,
>)
    ensures
        entry_views(listing@) == listing_of(entry_views(entries@), show_hidden),
        is_listing(entry_views(listing@)),
        obeys_policy(entry_views(listing@), show_hidden),
{
    let ghost all = entry_views(entries@);
    let ghost keep = |e: EntryView| show_hidden || !e.hidden();
    let mut listing: Vec<DirectoryEntry> = Vec::new();
    assert(entry_views(listing@) =~= sort_by_path(all.take(0).filter(keep))) by {
        reveal(Seq::filter);
    }
    for entry in it: entries
        invariant
            it.seq() == entries@,
            all == entry_views(entries@),
            keep == |e: EntryView| show_hidden || !e.hidden(),
            entry_views(listing@) == sort_by_path(all.take(it.index() as int).filter(keep)),
    {
        proof {
            let i = it.index() as int;
            let seen = all.take(i).filter(keep);
            assert(all.take(i + 1).drop_last() =~= all.take(i));
            assert(all.take(i + 1).last() == entry@);
            assert(all.take(i + 1).filter(keep) == if keep(entry@) {
                seen.push(entry@)
            } else {
                seen
            }) by {
                reveal(Seq::filter);
            }
            assert(seen.push(entry@).drop_last() =~= seen);
        }
        if show_hidden || !entry.is_hidden() {
            insert_entry(&mut listing, entry);
        }
    }
    proof {
        assert(all.take(all.len() as int) =~= all);
        lemma_listing_of(all, show_hidden);
    }
    if listing.len() == 0 {
        listing.push(DirectoryEntry::placeholder());
        assert(entry_views(listing@) =~= seq![placeholder()]);
    }
    listing
}

} // verus!
