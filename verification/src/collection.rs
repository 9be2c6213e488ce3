//! The entry collection as mathematics: entries in the order of their ids,
//! the mapping from id to entry that they form, and what adding, removing
//! and listing do to it.

use crate::entry::lemma_summary_hides_secret;
use crate::entry::EntryView;
use crate::entry::SummaryView;
use crate::ident::id_less;
use crate::ident::lemma_id_less_strict_total;
use crate::timestamp::Timestamp;
use vstd::prelude::*;

verus! {

/// The entries are in strictly ascending order of their ids; in
/// particular no two have the same id.
pub open spec fn sorted_by_id(entries: Seq<EntryView>) -> bool {
    forall|i: int, j: int|
        0 <= i < j < entries.len() ==> id_less(#[trigger] entries[i].id, #[trigger] entries[j].id)
}

/// Some entry has this id.
pub open spec fn has_id(entries: Seq<EntryView>, id: Seq<char>) -> bool {
    exists|i: int| 0 <= i < entries.len() && #[trigger] entries[i].id == id
}

/// The position of an entry that has this id.
pub open spec fn index_of(entries: Seq<EntryView>, id: Seq<char>) -> int {
    choose|i: int| 0 <= i < entries.len() && #[trigger] entries[i].id == id
}

/// The entries as a mapping from id to entry.
pub open spec fn entry_map(entries: Seq<EntryView>) -> Map<Seq<char>, EntryView> {
    Map::new(|id: Seq<char>| has_id(entries, id), |id: Seq<char>| entries[index_of(entries, id)])
}

/// The mapping after `fresh` was added at time `now`: `fresh` as it is
/// where no entry had its id, and otherwise `fresh` with the creation time
/// of the entry it replaces and `now` as its update time.
pub open spec fn upserted(
    entries: Map<Seq<char>, EntryView>,
    fresh: EntryView,
    now: Timestamp,
) -> Map<Seq<char>, EntryView> {
    if entries.contains_key(fresh.id) {
        entries.insert(fresh.id, fresh.superseding(entries[fresh.id], now))
    } else {
        entries.insert(fresh.id, fresh)
    }
}

/// The mapping after each of `entries` was stored in turn, as it is, a
/// later entry replacing an earlier one that has its id.
pub open spec fn stored_all(
    start: Map<Seq<char>, EntryView>,
    entries: Seq<EntryView>,
) -> Map<Seq<char>, EntryView>
    decreases entries.len(),
{
    if entries.len() == 0 {
        start
    } else {
        stored_all(start, entries.drop_last()).insert(entries.last().id, entries.last())
    }
}

/// The lines of a listing: one per entry, in the entries' order.
pub open spec fn listing(entries: Seq<EntryView>, verbose: bool) -> Seq<SummaryView> {
    entries.map_values(|e: EntryView| e.summarized(verbose))
}

/// In entries sorted by id, the entry at each position is the one the
/// mapping has for its id.
pub proof fn lemma_entry_map_at(entries: Seq<EntryView>, i: int)
    requires
        sorted_by_id(entries),
        0 <= i < entries.len(),
    ensures
        entry_map(entries).contains_key(entries[i].id),
        entry_map(entries)[entries[i].id] == entries[i],
        index_of(entries, entries[i].id) == i,
{
    let id = entries[i].id;
    let k = index_of(entries, id);
    if k < i {
        lemma_id_less_strict_total(entries[k].id, entries[i].id, id);
    } else if i < k {
        lemma_id_less_strict_total(entries[i].id, entries[k].id, id);
    }
}

/// Putting an entry between the smaller and the greater ids keeps the
/// order and adds the entry to the mapping.
pub(crate) proof fn lemma_insert_at(entries: Seq<EntryView>, at: int, fresh: EntryView)
    requires
        sorted_by_id(entries),
        0 <= at <= entries.len(),
        forall|k: int| 0 <= k < at ==> id_less(#[trigger] entries[k].id, fresh.id),
        forall|k: int| at <= k < entries.len() ==> id_less(fresh.id, #[trigger] entries[k].id),
    ensures
        sorted_by_id(entries.insert(at, fresh)),
        !entry_map(entries).contains_key(fresh.id),
        entry_map(entries.insert(at, fresh)) == entry_map(entries).insert(fresh.id, fresh),
{
    let after = entries.insert(at, fresh);
    assert forall|i: int, j: int| 0 <= i < j < after.len() implies id_less(
        #[trigger] after[i].id,
        #[trigger] after[j].id,
    ) by {
        if i < at && j > at {
            lemma_id_less_strict_total(after[i].id, fresh.id, after[j].id);
        }
    }
    if has_id(entries, fresh.id) {
        lemma_id_less_strict_total(fresh.id, fresh.id, fresh.id);
    }
    assert forall|id: Seq<char>| #[trigger]
        entry_map(after).contains_key(id) == entry_map(entries).insert(
            fresh.id,
            fresh,
        ).contains_key(id) by {
        if has_id(entries, id) {
            let k = index_of(entries, id);
            assert(after[if k < at { k } else { k + 1 }].id == id);
        }
        if id == fresh.id {
            assert(after[at].id == id);
        }
    }
    assert forall|id: Seq<char>| #[trigger] entry_map(after).contains_key(id) implies entry_map(
        after,
    )[id] == entry_map(entries).insert(fresh.id, fresh)[id] by {
        let k = index_of(after, id);
        lemma_entry_map_at(after, k);
        if k != at {
            lemma_entry_map_at(entries, if k < at { k } else { k - 1 });
        }
    }
}

/// Putting an entry in the place of the one that has its id keeps the
/// order and replaces that entry in the mapping.
pub(crate) proof fn lemma_replace_at(entries: Seq<EntryView>, at: int, fresh: EntryView)
    requires
        sorted_by_id(entries),
        0 <= at < entries.len(),
        entries[at].id == fresh.id,
    ensures
        sorted_by_id(entries.update(at, fresh)),
        entry_map(entries.update(at, fresh)) == entry_map(entries).insert(fresh.id, fresh),
{
    let after = entries.update(at, fresh);
    assert(sorted_by_id(after));
    assert forall|id: Seq<char>| #[trigger]
        entry_map(after).contains_key(id) == entry_map(entries).insert(
            fresh.id,
            fresh,
        ).contains_key(id) by {
        if has_id(entries, id) {
            assert(after[index_of(entries, id)].id == id);
        }
        if id == fresh.id {
            assert(after[at].id == id);
        }
        if has_id(after, id) {
            assert(entries[index_of(after, id)].id == id);
        }
    }
    assert forall|id: Seq<char>| #[trigger] entry_map(after).contains_key(id) implies entry_map(
        after,
    )[id] == entry_map(entries).insert(fresh.id, fresh)[id] by {
        let k = index_of(after, id);
        lemma_entry_map_at(after, k);
        lemma_entry_map_at(entries, k);
        if k != at {
            lemma_id_less_strict_total(id, id, id);
        }
    }
}

/// Taking an entry out keeps the order and removes its id, and nothing
/// else, from the mapping.
pub(crate) proof fn lemma_remove_at(entries: Seq<EntryView>, at: int)
    requires
        sorted_by_id(entries),
        0 <= at < entries.len(),
    ensures
        sorted_by_id(entries.remove(at)),
        entry_map(entries.remove(at)) == entry_map(entries).remove(entries[at].id),
{
    let after = entries.remove(at);
    let gone = entries[at].id;
    assert forall|i: int, j: int| 0 <= i < j < after.len() implies id_less(
        #[trigger] after[i].id,
        #[trigger] after[j].id,
    ) by {
        assert(id_less(
            entries[if i < at { i } else { i + 1 }].id,
            entries[if j < at { j } else { j + 1 }].id,
        ));
    }
    assert forall|id: Seq<char>| #[trigger]
        entry_map(after).contains_key(id) == entry_map(entries).remove(gone).contains_key(
            id,
        ) by {
        if has_id(entries, id) && id != gone {
            let k = index_of(entries, id);
            assert(after[if k < at { k } else { k - 1 }].id == id);
        }
        if has_id(after, id) {
            let k = index_of(after, id);
            let from = if k < at { k } else { k + 1 };
            if from < at {
                lemma_id_less_strict_total(entries[from].id, gone, id);
            } else {
                lemma_id_less_strict_total(gone, entries[from].id, id);
            }
        }
    }
    assert forall|id: Seq<char>| #[trigger] entry_map(after).contains_key(id) implies entry_map(
        after,
    )[id] == entry_map(entries).remove(gone)[id] by {
        let k = index_of(after, id);
        lemma_entry_map_at(after, k);
        lemma_entry_map_at(entries, if k < at { k } else { k + 1 });
    }
}

/// No two entries of a sorted collection have the same id.
pub proof fn lemma_one_entry_per_id(entries: Seq<EntryView>, i: int, j: int)
    requires
        sorted_by_id(entries),
        0 <= i < entries.len(),
        0 <= j < entries.len(),
        entries[i].id == entries[j].id,
    ensures
        i == j,
{
    lemma_entry_map_at(entries, i);
    lemma_entry_map_at(entries, j);
}

/// Sorted entries are as many as their mapping has ids.
pub proof fn lemma_entry_count(entries: Seq<EntryView>)
    requires
        sorted_by_id(entries),
    ensures
        entry_map(entries).dom().finite(),
        entry_map(entries).dom().len() == entries.len(),
    decreases entries.len(),
{
    if entries.len() == 0 {
        assert(entry_map(entries).dom() =~= Set::empty());
    } else {
        let top = entries.len() - 1;
        let rest = entries.drop_last();
        lemma_entry_map_at(entries, top);
        lemma_remove_at(entries, top);
        lemma_entry_count(rest);
    }
}

/// Sorted entries are determined by their mapping: two vaults that map the
/// same ids to the same entries list them in the same order.
pub proof fn lemma_entries_determined(a: Seq<EntryView>, b: Seq<EntryView>)
    requires
        sorted_by_id(a),
        sorted_by_id(b),
        entry_map(a) == entry_map(b),
    ensures
        a == b,
    decreases a.len(),
{
    if a.len() == 0 {
        if b.len() > 0 {
            lemma_entry_map_at(b, 0);
        }
    } else {
        // The greatest id of `a` is the greatest id of `b`: the two last
        // entries are one entry, and the rest is settled by induction.
        let top = a.len() - 1;
        lemma_entry_map_at(a, top);
        let j = index_of(b, a[top].id);
        let last = b.len() - 1;
        lemma_entry_map_at(b, last);
        let i = index_of(a, b[last].id);
        if j < last {
            if i < top {
                lemma_id_less_strict_total(b[j].id, b[last].id, a[top].id);
            }
            lemma_id_less_strict_total(a[top].id, a[top].id, a[top].id);
        }
        lemma_entry_map_at(b, j);
        lemma_remove_at(a, top);
        lemma_remove_at(b, last);
        lemma_entries_determined(a.drop_last(), b.drop_last());
        assert(b =~= b.drop_last().push(b[last]));
    }
}

/// Adding an id that the vault does not have, with an entry created at
/// `t1`, and adding it again at time `t2`, leaves exactly one entry with
/// that id: it holds what the second add gave, was created at `t1` and
/// updated at `t2`. Every other entry is as it was. (The time given with
/// the first add, `at_first`, plays no part: nothing was replaced.)
pub proof fn lemma_add_twice(
    start: Map<Seq<char>, EntryView>,
    first: EntryView,
    second: EntryView,
    t1: Timestamp,
    at_first: Timestamp,
    t2: Timestamp,
    after: Seq<EntryView>,
)
    requires
        !start.contains_key(first.id),
        second.id == first.id,
        first.created_at == t1,
        sorted_by_id(after),
        entry_map(after) == upserted(upserted(start, first, at_first), second, t2),
    ensures
        entry_map(after)[first.id] == second.superseding(first, t2),
        entry_map(after)[first.id].created_at == t1,
        entry_map(after)[first.id].updated_at == Some(t2),
        entry_map(after).remove(first.id) == start,
        exists|i: int|
            0 <= i < after.len() && #[trigger] after[i].id == first.id && forall|j: int|
                0 <= j < after.len() && #[trigger] after[j].id == first.id ==> j == i,
{
    assert(entry_map(after).remove(first.id) =~= start);
    let i = index_of(after, first.id);
    assert forall|j: int| 0 <= j < after.len() && #[trigger] after[j].id == first.id implies j
        == i by {
        lemma_one_entry_per_id(after, i, j);
    }
}

/// Listings tell nothing of secrets: two collections that differ in
/// nothing but the secrets of their entries have the same listing, verbose
/// or not.
pub proof fn lemma_listing_hides_secrets(a: Seq<EntryView>, b: Seq<EntryView>, verbose: bool)
    requires
        a.len() == b.len(),
        forall|i: int| 0 <= i < a.len() ==> #[trigger] b[i] == a[i].with_secret(b[i].secret),
    ensures
        listing(a, verbose) == listing(b, verbose),
{
    assert forall|i: int| 0 <= i < a.len() implies #[trigger] listing(a, verbose)[i] == listing(
        b,
        verbose,
    )[i] by {
        lemma_summary_hides_secret(a[i], b[i].secret, verbose);
    }
}

} // verus!
