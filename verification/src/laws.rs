//! Proved laws relating the listing, insertion and removal operations.
//!
//! Each law is stated over the spec functions that the operations' own
//! contracts use (`listing`, `swept`, `inserted_entry`), so a caller of
//! `list_login_items`, `add_login_item` and `rm_login_item` can chain their
//! contracts with these lemmas.

use crate::decode::percent_decoded;
use crate::login_items::{
    blocked, hits_upto, line_text, listed, listing, listing_upto, name_selected, no_block_upto,
    path_selected, scan_hit, swept,
};
use crate::sys::{cleared, inserted_entry, EntryView};
use vstd::prelude::*;

verus! {

/// A listing reads only the first `n` entries: two lists that agree on them
/// have the same listing of them.
pub proof fn lemma_listing_upto_prefix(a: Seq<EntryView>, b: Seq<EntryView>, n: int)
    requires
        n <= a.len(),
        n <= b.len(),
        forall|k: int| 0 <= k < n ==> a[k] == b[k],
    ensures
        listing_upto(a, n) == listing_upto(b, n),
    decreases n,
{
    if n > 0 {
        lemma_listing_upto_prefix(a, b, n - 1);
    }
}

/// Listing entries one list after another lists the first list, then the
/// second.
pub proof fn lemma_listing_concat(a: Seq<EntryView>, b: Seq<EntryView>)
    ensures
        listing(a + b) == listing(a) + listing(b),
    decreases b.len(),
{
    if b.len() == 0 {
        assert(a + b =~= a);
        assert(listing(a) + listing(b) =~= listing(a));
    } else {
        let front = a + b.drop_last();
        lemma_listing_concat(a, b.drop_last());
        lemma_listing_upto_prefix(front, a + b, front.len() as int);
        assert((a + b)[a.len() + b.len() - 1] == b[b.len() - 1]);
        lemma_listing_upto_prefix(b.drop_last(), b, b.len() - 1);
        assert(listing(a + b) =~= listing(a) + listing(b));
    }
}

/// Listing after an accepted insertion: the new listing is the old listing
/// followed by exactly one `name: path` line for the inserted entry —
/// present in the listing taken after the addition, whatever the listing
/// taken before held.  The line shows the path as handed in whenever that
/// path decodes to itself, which holds of any path without a `%`.
pub proof fn lemma_add_then_list(items: Seq<EntryView>, name: Seq<char>, path: Seq<char>)
    ensures
        percent_decoded(path) == Some(path) ==> listing(items.push(inserted_entry(name, path)))
            == listing(items) + line_text(name, path),
{
    if percent_decoded(path) == Some(path) {
        let e = inserted_entry(name, path);
        let grown = items.push(e);
        assert(listed(e));
        lemma_listing_upto_prefix(items, grown, items.len() as int);
        assert(grown[grown.len() - 1] == e);
    }
}

/// Round trip: adding an entry and then removing with the same name brings
/// the listing back to its pre-add content, provided no entry already in the
/// list matches the target name or path — one that does is removed by the
/// same pass, and the round trip does not hold of such a list.
pub proof fn lemma_add_remove_round_trip(items: Seq<EntryView>, name: Seq<char>, path: Seq<char>)
    ensures
        (forall|k: int| 0 <= k < items.len() ==> !scan_hit(#[trigger] items[k], name, path))
            ==> no_block_upto(
            items.push(inserted_entry(name, path)),
            name,
            path,
            items.len() as int + 1,
        ),
        (forall|k: int| 0 <= k < items.len() ==> !scan_hit(#[trigger] items[k], name, path))
            ==> listing(
            swept(items.push(inserted_entry(name, path)), name, path, items.len() as int + 1),
        ) == listing(items),
{
    let e = inserted_entry(name, path);
    let grown = items.push(e);
    if forall|k: int| 0 <= k < items.len() ==> !scan_hit(#[trigger] items[k], name, path) {
        assert(name_selected(e.name, name));
        assert(scan_hit(e, name, path) && e.removable);
        assert forall|k: int| 0 <= k < grown.len() implies !blocked(
            #[trigger] grown[k],
            name,
            path,
        ) by {
            if k < items.len() {
                assert(grown[k] == items[k]);
            }
        }
        let after = swept(grown, name, path, items.len() as int + 1);
        assert(after[items.len() as int] == cleared(e));
        assert(!listed(cleared(e)));
        assert forall|k: int| 0 <= k < items.len() implies after[k] == items[k] by {
            assert(grown[k] == items[k]);
        }
        lemma_listing_upto_prefix(after, items, items.len() as int);
        assert(listing(after) =~= listing_upto(after, items.len() as int));
    }
}

/// A removal pass matches exactly: an entry whose display name is not equal
/// to the target name and whose decoded path is not equal to the target path
/// is untouched, wherever the pass stopped; an entry the pass hit before its
/// stopping point is cleared and nothing else about it changes.
pub proof fn lemma_remove_exact_match(
    items: Seq<EntryView>,
    name: Seq<char>,
    path: Seq<char>,
    n: int,
    k: int,
)
    requires
        0 <= k < items.len(),
        0 <= n <= items.len(),
    ensures
        !name_selected(items[k].name, name) && !path_selected(items[k].encoded_path, path)
            ==> swept(items, name, path, n)[k] == items[k],
        !scan_hit(items[k], name, path) ==> swept(items, name, path, n)[k] == items[k],
        k < n && scan_hit(items[k], name, path) ==> swept(items, name, path, n)[k] == cleared(
            items[k],
        ),
{
}

/// An entry that fails to resolve never appears in the listing and never
/// blocks the entries after it: the listing with it standing anywhere equals
/// the listing without it.
pub proof fn lemma_unresolvable_skipped(a: Seq<EntryView>, u: EntryView, b: Seq<EntryView>)
    requires
        !u.resolvable,
    ensures
        listing(a + seq![u] + b) == listing(a + b),
{
    lemma_listing_concat(a + seq![u], b);
    lemma_listing_concat(a, seq![u]);
    lemma_listing_concat(a, b);
    assert(!listed(u));
    assert(listing(seq![u]) =~= Seq::<char>::empty()) by {
        assert(seq![u][0] == u);
        assert(listing_upto(seq![u], 0) == Seq::<char>::empty());
    }
    assert(listing(a) + listing(seq![u]) =~= listing(a));
}

/// A removal pass over a list with no entries completes: nothing blocks it,
/// it hits nothing, and it leaves the list as it was.
pub proof fn lemma_remove_empty(items: Seq<EntryView>, name: Seq<char>, path: Seq<char>)
    requires
        items.len() == 0,
    ensures
        no_block_upto(items, name, path, items.len() as int),
        hits_upto(items, name, path, items.len() as int) == 0,
        swept(items, name, path, items.len() as int) == items,
{
    assert(swept(items, name, path, 0) =~= items);
}

} // verus!
