//! Laws of the store and of the filter engine: what follows when the
//! operations are taken together.

use crate::bookmark::{
    BookmarkView, FiltersView, NoteView, SortBy, SortDirection, first_note_with_id,
    lemma_first_note_with_id, no_filters,
};
use crate::document::{Cell, cell_at, document_root, elements, entries, is_list, is_map, snapshot_nodes};
use crate::filter::{
    direction_of, has_tag, in_order, is_stable_sort, kept, passes, selects, sorts_prefix,
};
use crate::repository::{
    Nodes, bookmark_at, created, decoded, deleted, first_note_cell, is_listing, is_note_with_id,
    holds_key, keyed, lemma_deleted_keyed, lemma_field_names, lemma_first_note_cell, lemma_keyed_ids,
    lemma_note_decodes, lemma_notes_in_frame, lists_all, note_added, note_cells, note_entries,
    note_removed, notes_in, opened, reads_back, stored_note, stored_notes, stored_tags, tags_only,
    text_field,
};
use crate::sync::ENVELOPE_MARKER;
use crate::text::lowercase_of;
use crate::timestamp::rfc3339_value;
use vstd::prelude::*;
use vstd::set_lib::{lemma_int_range, lemma_len_subset, lemma_subset_equality, set_int_range};

verus! {

/// A bookmark that was created is found under its id as it was given,
/// where its dates read back from their text.
pub proof fn law_create_then_find(before: Nodes, after: Nodes, map: automerge::ObjId, b: BookmarkView)
    requires
        created(before, after, map, b),
        reads_back(b),
    ensures
        bookmark_at(after, map, b.id) == Some(b),
{
}

/// A store opened on the snapshot of an anchored store holds the same
/// objects under the same bookmarks map, so it lists and finds the same.
/// Here `before` and `map` are the objects and the bookmarks map of the
/// store whose snapshot `bytes` is, and `after` and `reopened_map` those of
/// the store opened on it.
pub proof fn law_reopen_is_same(
    before: Nodes,
    map: automerge::ObjId,
    bytes: Seq<u8>,
    after: Nodes,
    reopened_map: automerge::ObjId,
)
    requires
        snapshot_nodes(bytes) == Some(before),
        cell_at(before, document_root(before), "bookmarks"@) == Some(Cell::Dict(map)),
        opened(bytes, after, reopened_map),
    ensures
        after == before,
        reopened_map == map,
        forall|listing: Seq<BookmarkView>|
            lists_all(before, map, listing) <==> lists_all(after, reopened_map, listing),
        forall|id: Seq<char>| bookmark_at(before, map, id) == bookmark_at(after, reopened_map, id),
{
}

/// After an entry was deleted there is none under its id: nothing is found
/// there and nothing is left to delete, also in a store opened on a later
/// snapshot.
pub proof fn law_delete_is_terminal(before: Nodes, after: Nodes, map: automerge::ObjId, id: Seq<char>)
    requires
        is_map(before, map),
        deleted(before, after, map, id),
    ensures
        is_map(after, map),
        cell_at(after, map, id) is None,
        bookmark_at(after, map, id) is None,
        forall|other: Seq<char>| other != id ==> cell_at(after, map, other) == cell_at(before, map, other),
{
}

/// Every bookmark that decodes under the given keys is the bookmark under
/// one of them.
pub proof fn lemma_decoded_from_keys(nodes: Nodes, map: automerge::ObjId, keys: Seq<Seq<char>>)
    ensures
        forall|i: int|
            0 <= i < decoded(nodes, map, keys).len() ==> exists|j: int|
                0 <= j < keys.len() && bookmark_at(nodes, map, keys[j]) == Some(
                    #[trigger] decoded(nodes, map, keys)[i],
                ),
    decreases keys.len(),
{
    if keys.len() > 0 {
        let rest = decoded(nodes, map, keys.drop_last());
        lemma_decoded_from_keys(nodes, map, keys.drop_last());
        assert forall|i: int| 0 <= i < decoded(nodes, map, keys).len() implies exists|j: int|
            0 <= j < keys.len() && bookmark_at(nodes, map, keys[j]) == Some(
                #[trigger] decoded(nodes, map, keys)[i],
            ) by {
            if i < rest.len() {
                assert(decoded(nodes, map, keys)[i] == rest[i]);
                let j = choose|j: int|
                    0 <= j < keys.drop_last().len() && bookmark_at(
                        nodes,
                        map,
                        keys.drop_last()[j],
                    ) == Some(rest[i]);
                assert(keys[j] == keys.drop_last()[j]);
            } else {
                assert(bookmark_at(nodes, map, keys[keys.len() - 1]) == Some(
                    decoded(nodes, map, keys)[i],
                ));
            }
        }
    }
}

/// The keys among the given ones under which a bookmark decodes, in order.
pub open spec fn decoding_keys(nodes: Nodes, map: automerge::ObjId, keys: Seq<Seq<char>>) -> Seq<
    Seq<char>,
>
    decreases keys.len(),
{
    if keys.len() == 0 {
        Seq::empty()
    } else if bookmark_at(nodes, map, keys.last()) is Some {
        decoding_keys(nodes, map, keys.drop_last()).push(keys.last())
    } else {
        decoding_keys(nodes, map, keys.drop_last())
    }
}

/// The bookmarks that decode under the given keys are those under the
/// keys that decode, one for one.
pub proof fn lemma_decoding_keys(nodes: Nodes, map: automerge::ObjId, keys: Seq<Seq<char>>)
    ensures
        decoding_keys(nodes, map, keys).len() == decoded(nodes, map, keys).len(),
        forall|i: int|
            0 <= i < decoded(nodes, map, keys).len() ==> bookmark_at(
                nodes,
                map,
                decoding_keys(nodes, map, keys)[i],
            ) == Some(#[trigger] decoded(nodes, map, keys)[i]),
        forall|k: Seq<char>| #[trigger]
            decoding_keys(nodes, map, keys).contains(k) <==> keys.contains(k) && bookmark_at(
                nodes,
                map,
                k,
            ) is Some,
        keys.no_duplicates() ==> decoding_keys(nodes, map, keys).no_duplicates(),
    decreases keys.len(),
{
    let dk = decoding_keys(nodes, map, keys);
    if keys.len() > 0 {
        let rest = keys.drop_last();
        let last = keys.last();
        let dr = decoding_keys(nodes, map, rest);
        lemma_decoding_keys(nodes, map, rest);
        assert forall|i: int| 0 <= i < decoded(nodes, map, keys).len() implies bookmark_at(
            nodes,
            map,
            dk[i],
        ) == Some(#[trigger] decoded(nodes, map, keys)[i]) by {
            if i < dr.len() {
                assert(dk[i] == dr[i]);
                assert(decoded(nodes, map, keys)[i] == decoded(nodes, map, rest)[i]);
            }
        }
        assert forall|k: Seq<char>| #[trigger] dk.contains(k) <==> keys.contains(k) && bookmark_at(
            nodes,
            map,
            k,
        ) is Some by {
            if dk.contains(k) {
                let i = choose|i: int| 0 <= i < dk.len() && dk[i] == k;
                if i < dr.len() {
                    assert(dr[i] == k);
                    assert(dr.contains(k));
                    let j = choose|j: int| 0 <= j < rest.len() && rest[j] == k;
                    assert(keys[j] == k);
                } else {
                    assert(keys[keys.len() - 1] == k);
                }
            }
            if keys.contains(k) && bookmark_at(nodes, map, k) is Some {
                let j = choose|j: int| 0 <= j < keys.len() && keys[j] == k;
                if j < rest.len() {
                    assert(rest[j] == k);
                    assert(rest.contains(k));
                    assert(dr.contains(k));
                    let i = choose|i: int| 0 <= i < dr.len() && dr[i] == k;
                    assert(dk[i] == dr[i]);
                } else {
                    assert(dk[dk.len() - 1] == k);
                }
            }
        }
        if keys.no_duplicates() {
            assert(rest.no_duplicates());
            assert forall|i: int, j: int|
                0 <= i < dk.len() && 0 <= j < dk.len() && i != j implies dk[i] != dk[j] by {
                if i < dr.len() && j < dr.len() {
                    assert(dr[i] != dr[j]);
                } else {
                    let inner = if i < j {
                        i
                    } else {
                        j
                    };
                    assert(dr[inner] == dk[inner]);
                    assert(dr.contains(dk[inner]));
                    let p = choose|p: int| 0 <= p < rest.len() && rest[p] == dk[inner];
                    assert(keys[p] != keys[keys.len() - 1]);
                }
            }
        }
    }
}

/// Two listings of one map hold the same bookmarks: they have the same
/// length, and what is in one is in the other.
pub proof fn law_listings_agree(
    nodes: Nodes,
    map: automerge::ObjId,
    first: Seq<BookmarkView>,
    second: Seq<BookmarkView>,
)
    requires
        lists_all(nodes, map, first),
        lists_all(nodes, map, second),
    ensures
        first.len() == second.len(),
        forall|b: BookmarkView| first.contains(b) <==> second.contains(b),
{
    let k1 = choose|keys: Seq<Seq<char>>| #[trigger]
        is_listing(nodes, map, keys) && first == decoded(nodes, map, keys);
    let k2 = choose|keys: Seq<Seq<char>>| #[trigger]
        is_listing(nodes, map, keys) && second == decoded(nodes, map, keys);
    let d1 = decoding_keys(nodes, map, k1);
    let d2 = decoding_keys(nodes, map, k2);
    lemma_decoding_keys(nodes, map, k1);
    lemma_decoding_keys(nodes, map, k2);
    assert forall|k: Seq<char>| d1.contains(k) <==> d2.contains(k) by {
        assert(k1.contains(k) <==> entries(nodes, map).contains_key(k));
        assert(k2.contains(k) <==> entries(nodes, map).contains_key(k));
    }
    d1.unique_seq_to_set();
    d2.unique_seq_to_set();
    assert(d1.to_set() =~= d2.to_set());
    assert forall|b: BookmarkView| first.contains(b) <==> second.contains(b) by {
        if first.contains(b) {
            let i = choose|i: int| 0 <= i < first.len() && first[i] == b;
            assert(d1.contains(d1[i]));
            let j = choose|j: int| 0 <= j < d2.len() && d2[j] == d1[i];
            assert(second[j] == b);
        }
        if second.contains(b) {
            let i = choose|i: int| 0 <= i < second.len() && second[i] == b;
            assert(d2.contains(d2[i]));
            let j = choose|j: int| 0 <= j < d1.len() && d1[j] == d2[i];
            assert(first[j] == b);
        }
    }
}

/// In a store whose entries are keyed by id, every listed bookmark stands
/// under its own id: the store has an entry under the id of each.
pub proof fn law_listed_are_held(nodes: Nodes, map: automerge::ObjId, listing: Seq<BookmarkView>)
    requires
        keyed(nodes, map),
        lists_all(nodes, map, listing),
    ensures
        forall|i: int|
            0 <= i < listing.len() ==> bookmark_at(nodes, map, (#[trigger] listing[i]).id) == Some(
                listing[i],
            ),
{
    let keys = choose|keys: Seq<Seq<char>>| #[trigger]
        is_listing(nodes, map, keys) && listing == decoded(nodes, map, keys);
    lemma_decoded_from_keys(nodes, map, keys);
    assert forall|i: int| 0 <= i < listing.len() implies bookmark_at(
        nodes,
        map,
        (#[trigger] listing[i]).id,
    ) == Some(listing[i]) by {
        let j = choose|j: int|
            0 <= j < keys.len() && bookmark_at(nodes, map, keys[j]) == Some(listing[i]);
        lemma_keyed_ids(nodes, map, keys[j]);
    }
}

/// A deleted bookmark does not reappear: in a store whose entries are
/// keyed by id, no bookmark listed after the deletion carries the deleted
/// id, and the store stays keyed.
pub proof fn law_deleted_is_not_listed(
    before: Nodes,
    after: Nodes,
    map: automerge::ObjId,
    id: Seq<char>,
    listing: Seq<BookmarkView>,
)
    requires
        is_map(before, map),
        keyed(before, map),
        deleted(before, after, map, id),
        lists_all(after, map, listing),
    ensures
        keyed(after, map),
        forall|i: int| 0 <= i < listing.len() ==> (#[trigger] listing[i]).id != id,
{
    lemma_deleted_keyed(before, after, map, id);
    law_listed_are_held(after, map, listing);
    assert forall|i: int| 0 <= i < listing.len() implies (#[trigger] listing[i]).id != id by {
        assert(bookmark_at(after, map, listing[i].id) == Some(listing[i]));
    }
}

/// Deleting an entry leaves what the other entries decode to, where the
/// bookmarks map is not itself a note of a bookmark.
pub proof fn lemma_deleted_leaves_others(
    before: Nodes,
    after: Nodes,
    map: automerge::ObjId,
    id: Seq<char>,
    k: Seq<char>,
)
    requires
        is_map(before, map),
        keyed(before, map),
        stored_note(before, map) is None,
        deleted(before, after, map, id),
        k != id,
    ensures
        bookmark_at(after, map, k) == bookmark_at(before, map, k),
{
    assert(cell_at(after, map, k) == cell_at(before, map, k));
    assert(holds_key(before, map, k));
    if cell_at(before, map, k) is Some && cell_at(before, map, k)->Some_0 is Dict {
        let o = cell_at(before, map, k)->Some_0->Dict_0;
        assert(o != map);
        assert(after[o] == before[o]);
        assert(stored_note(after, map) is None) by {
            assert forall|key: Seq<char>| text_field(after, map, key) is Some implies text_field(
                after,
                map,
                key,
            ) == text_field(before, map, key) by {}
        }
        assert(stored_notes(after, o) == stored_notes(before, o)) by {
            let cells = note_cells(before, o);
            assert(note_cells(after, o) == cells);
            assert forall|j: int| 0 <= j < cells.len() implies (#[trigger] cells[j] matches Cell::Dict(
                n,
            ) ==> stored_note(after, n) == stored_note(before, n)) by {
                if cells[j] is Dict {
                    let n = cells[j]->Dict_0;
                    if n != map {
                        if before.contains_key(n) {
                            assert(after[n] == before[n]);
                        } else {
                            assert(!after.contains_key(n));
                        }
                    }
                }
            }
            lemma_notes_in_frame(after, before, cells);
        }
        assert(stored_tags(after, o) == stored_tags(
            before,
            o,
        ));
    }
}

/// Deleting a bookmark shortens the listing by that bookmark: in a store
/// whose entries are keyed by id and whose bookmarks map is not itself a
/// note, a listing afterwards holds the bookmarks of a listing before but
/// the one under the id, and is shorter by one where that one decoded.
pub proof fn law_delete_shortens_the_listing(
    before: Nodes,
    after: Nodes,
    map: automerge::ObjId,
    id: Seq<char>,
    first: Seq<BookmarkView>,
    second: Seq<BookmarkView>,
)
    requires
        is_map(before, map),
        keyed(before, map),
        stored_note(before, map) is None,
        deleted(before, after, map, id),
        lists_all(before, map, first),
        lists_all(after, map, second),
    ensures
        second.len() == first.len() - (if bookmark_at(before, map, id) is Some {
            1int
        } else {
            0int
        }),
        forall|b: BookmarkView| second.contains(b) <==> first.contains(b) && b.id != id,
{
    let k1 = choose|keys: Seq<Seq<char>>| #[trigger]
        is_listing(before, map, keys) && first == decoded(before, map, keys);
    let k2 = choose|keys: Seq<Seq<char>>| #[trigger]
        is_listing(after, map, keys) && second == decoded(after, map, keys);
    let d1 = decoding_keys(before, map, k1);
    let d2 = decoding_keys(after, map, k2);
    lemma_decoding_keys(before, map, k1);
    lemma_decoding_keys(after, map, k2);
    assert forall|k: Seq<char>| d2.contains(k) <==> d1.contains(k) && k != id by {
        assert(k1.contains(k) <==> entries(before, map).contains_key(k));
        assert(k2.contains(k) <==> entries(after, map).contains_key(k));
        if k != id {
            lemma_deleted_leaves_others(before, after, map, id, k);
        }
    }
    d1.unique_seq_to_set();
    d2.unique_seq_to_set();
    assert(d2.to_set() =~= d1.to_set().remove(id));
    assert(d1.contains(id) <==> bookmark_at(before, map, id) is Some) by {
        assert(k1.contains(id) <==> entries(before, map).contains_key(id));
    }
    assert(d1.to_set().finite());
    assert forall|b: BookmarkView| second.contains(b) <==> first.contains(b) && b.id != id by {
        if second.contains(b) {
            let i = choose|i: int| 0 <= i < second.len() && second[i] == b;
            let k = d2[i];
            assert(d2.contains(k));
            lemma_deleted_leaves_others(before, after, map, id, k);
            lemma_keyed_ids(before, map, k);
            let j = choose|j: int| 0 <= j < d1.len() && d1[j] == k;
            assert(first[j] == b);
        }
        if first.contains(b) && b.id != id {
            let i = choose|i: int| 0 <= i < first.len() && first[i] == b;
            let k = d1[i];
            assert(d1.contains(k));
            lemma_keyed_ids(before, map, k);
            lemma_deleted_leaves_others(before, after, map, id, k);
            let j = choose|j: int| 0 <= j < d2.len() && d2[j] == k;
            assert(second[j] == b);
        }
    }
}

/// The tags of a query are conjunctive: a bookmark passes exactly when it
/// has every tag asked for.
pub proof fn law_tags_conjunctive(b: BookmarkView, tags: Seq<Seq<char>>)
    ensures
        passes(b, tags_only(tags)) <==> (forall|i: int|
            0 <= i < tags.len() ==> has_tag(b, #[trigger] tags[i])),
{
}

/// Tags are matched without regard to case: a bookmark has a tag exactly
/// when one of its tags has the same lowercase form, so two tags with the
/// same lowercase form are had by the same bookmarks.
pub proof fn law_tags_ignore_case(b: BookmarkView, tag: Seq<char>, other: Seq<char>)
    requires
        lowercase_of(tag) == lowercase_of(other),
    ensures
        has_tag(b, tag) == has_tag(b, other),
        has_tag(b, tag) <==> exists|j: int|
            0 <= j < b.tags.len() && lowercase_of(#[trigger] b.tags[j]) == lowercase_of(tag),
{
}

/// Every bookmark that the filters keep passes them.
pub proof fn lemma_kept_pass(s: Seq<BookmarkView>, f: FiltersView)
    ensures
        forall|i: int| 0 <= i < kept(s, f).len() ==> passes(#[trigger] kept(s, f)[i], f),
    decreases s.len(),
{
    if s.len() > 0 {
        lemma_kept_pass(s.drop_last(), f);
        let rest = kept(s.drop_last(), f);
        assert forall|i: int| 0 <= i < kept(s, f).len() implies passes(#[trigger] kept(s, f)[i], f) by {
            if i < rest.len() {
                assert(kept(s, f)[i] == rest[i]);
            }
        }
    }
}

/// Every bookmark that a query selects passes its filters.
pub proof fn lemma_selected_pass(input: Seq<BookmarkView>, f: FiltersView, out: Seq<BookmarkView>)
    requires
        selects(input, f, out),
    ensures
        forall|i: int| 0 <= i < out.len() ==> passes(#[trigger] out[i], f),
{
    lemma_kept_pass(input, f);
    match f.sort_by {
        Some(by) => {
            let k = kept(input, f);
            let dir = crate::filter::direction_of(f);
            let from = choose|from: Seq<int>| #[trigger]
                sorts_prefix(k, out, from, k.len() as int, by, dir);
            assert forall|i: int| 0 <= i < out.len() implies passes(#[trigger] out[i], f) by {
                assert(out[i] == k[from[i]]);
            }
        },
        None => {},
    }
}

/// An arrangement of the positions below `n` reaches each of them.
pub proof fn lemma_arrangement_onto(from: Seq<int>, n: int, y: int)
    requires
        from.len() == n,
        forall|i: int| 0 <= i < n ==> 0 <= #[trigger] from[i] < n,
        forall|i: int, j: int| 0 <= i < j < n ==> #[trigger] from[i] != #[trigger] from[j],
        0 <= y < n,
    ensures
        exists|q: int| 0 <= q < n && #[trigger] from[q] == y,
{
    assert(from.no_duplicates()) by {
        assert forall|i: int, j: int|
            0 <= i < from.len() && 0 <= j < from.len() && i != j implies from[i] != from[j] by {
            if i < j {
                assert(from[i] != from[j]);
            } else {
                assert(from[j] != from[i]);
            }
        }
    }
    from.unique_seq_to_set();
    lemma_int_range(0, n);
    let reached = from.to_set();
    let all = set_int_range(0, n);
    assert(reached.subset_of(all)) by {
        assert forall|x: int| reached.contains(x) implies all.contains(x) by {
            assert(from.contains(x));
            let i = choose|i: int| 0 <= i < from.len() && from[i] == x;
            assert(0 <= from[i] < n);
        }
    }
    lemma_len_subset(reached, all);
    lemma_subset_equality(reached, all);
    assert(all.contains(y));
    assert(reached.contains(y));
    assert(from.contains(y));
    let q = choose|q: int| 0 <= q < from.len() && from[q] == y;
    assert(from[q] == y);
}

/// Two arrangements that both sort the input stably agree up to each
/// position.
proof fn lemma_arrangements_agree(
    input: Seq<BookmarkView>,
    a: Seq<BookmarkView>,
    b: Seq<BookmarkView>,
    f: Seq<int>,
    g: Seq<int>,
    by: SortBy,
    dir: SortDirection,
    i: int,
)
    requires
        sorts_prefix(input, a, f, input.len() as int, by, dir),
        sorts_prefix(input, b, g, input.len() as int, by, dir),
        0 <= i < input.len(),
    ensures
        forall|p: int| 0 <= p <= i ==> f[p] == g[p],
    decreases i,
{
    let n = input.len() as int;
    if i > 0 {
        lemma_arrangements_agree(input, a, b, f, g, by, dir, i - 1);
    }
    let x = f[i];
    lemma_arrangement_onto(g, n, x);
    let q = choose|q: int| 0 <= q < n && g[q] == x;
    if q < i {
        assert(f[q] == g[q]);
        assert(f[q] != f[i]);
    } else if q > i {
        let y = g[i];
        lemma_arrangement_onto(f, n, y);
        let r = choose|r: int| 0 <= r < n && f[r] == y;
        if r < i {
            assert(f[r] == g[r]);
            assert(g[r] != g[i]);
        } else if r == i {
            assert(g[i] != g[q]);
        } else {
            // `x` stands before `y` in one arrangement and behind it in the other
            assert(a[i] == input[x] && a[r] == input[y]);
            assert(b[i] == input[y] && b[q] == input[x]);
            assert(in_order(a[i], a[r], by, dir));
            assert(in_order(b[i], b[q], by, dir));
            assert(f[i] < f[r]);
            assert(g[i] < g[q]);
        }
    }
}

/// A stable sort is one: two listings that both sort the input stably are
/// the same.
pub proof fn law_stable_sort_is_unique(
    input: Seq<BookmarkView>,
    a: Seq<BookmarkView>,
    b: Seq<BookmarkView>,
    by: SortBy,
    dir: SortDirection,
)
    requires
        is_stable_sort(input, a, by, dir),
        is_stable_sort(input, b, by, dir),
    ensures
        a == b,
{
    let n = input.len() as int;
    let f = choose|f: Seq<int>| #[trigger] sorts_prefix(input, a, f, n, by, dir);
    let g = choose|g: Seq<int>| #[trigger] sorts_prefix(input, b, g, n, by, dir);
    if n > 0 {
        lemma_arrangements_agree(input, a, b, f, g, by, dir, n - 1);
    }
    assert(a =~= b) by {
        assert forall|i: int| 0 <= i < n implies a[i] == b[i] by {
            assert(a[i] == input[f[i]]);
            assert(b[i] == input[g[i]]);
        }
    }
}

/// What the filters select is one listing: two queries with the same
/// filters on the same bookmarks give the same.
pub proof fn law_selection_is_unique(
    input: Seq<BookmarkView>,
    f: FiltersView,
    a: Seq<BookmarkView>,
    b: Seq<BookmarkView>,
)
    requires
        selects(input, f, a),
        selects(input, f, b),
    ensures
        a == b,
{
    match f.sort_by {
        Some(by) => law_stable_sort_is_unique(kept(input, f), a, b, by, direction_of(f)),
        None => {},
    }
}

/// Without conditions every bookmark is kept.
pub proof fn lemma_no_filters_keep_all(input: Seq<BookmarkView>)
    ensures
        kept(input, no_filters()) == input,
    decreases input.len(),
{
    if input.len() > 0 {
        lemma_no_filters_keep_all(input.drop_last());
        assert(passes(input.last(), no_filters()));
        assert(input.drop_last().push(input.last()) =~= input);
    } else {
        assert(kept(input, no_filters()) =~= input);
    }
}

/// A query without conditions and without an order gives the bookmarks as
/// they are listed.
pub proof fn law_no_filters_select_all(input: Seq<BookmarkView>, out: Seq<BookmarkView>)
    requires
        selects(input, no_filters(), out),
    ensures
        out == input,
{
    lemma_no_filters_keep_all(input);
}

/// A priority range excludes unrated bookmarks: a query with a priority
/// range, whatever the range, selects only bookmarks that have a rating
/// within it.
pub proof fn law_priority_range_excludes_unrated(
    input: Seq<BookmarkView>,
    f: FiltersView,
    out: Seq<BookmarkView>,
)
    requires
        f.priority_range is Some,
        selects(input, f, out),
    ensures
        forall|i: int|
            0 <= i < out.len() ==> ((#[trigger] out[i]).priority_rating matches Some(p)
                && f.priority_range->Some_0.0 <= p && p <= f.priority_range->Some_0.1),
        forall|b: BookmarkView| b.priority_rating is None ==> !passes(b, f),
{
    lemma_selected_pass(input, f, out);
    assert forall|i: int| 0 <= i < out.len() implies ((#[trigger] out[i]).priority_rating matches Some(
        p,
    ) && f.priority_range->Some_0.0 <= p && p <= f.priority_range->Some_0.1) by {
        assert(passes(out[i], f));
    }
}

/// Two notes added to a bookmark without notes, then the first one
/// removed by its id: the removal finds the first note at the front, and
/// what is left is exactly the second note.
pub proof fn law_note_sequence(
    s0: Nodes,
    s1: Nodes,
    s2: Nodes,
    s3: Nodes,
    o: automerge::ObjId,
    first: NoteView,
    first_date: Seq<char>,
    second: NoteView,
    second_date: Seq<char>,
)
    requires
        is_map(s0, o),
        note_cells(s0, o).len() == 0,
        note_added(s0, s1, o, first, first_date),
        note_added(s1, s2, o, second, second_date),
        rfc3339_value(second_date) == Some(second.created_at),
        note_removed(s2, s3, o, 0),
    ensures
        first_note_cell(s2, note_cells(s2, o), first.id) == Some(0int),
        stored_notes(s3, o) == seq![second],
{
    lemma_field_names();
    let c1 = note_cells(s1, o);
    let c2 = note_cells(s2, o);
    let l1 = cell_at(s1, o, "notes"@)->Some_0->List_0;
    let l2 = cell_at(s2, o, "notes"@)->Some_0->List_0;
    assert(c1.len() == 1);
    assert(c2.len() == 2);
    let n1 = c1.last()->Dict_0;
    let n2 = c2.last()->Dict_0;
    assert(c2.drop_last() == c1);
    assert(c2[0] == c2.drop_last()[0]);
    assert(c2[0] == Cell::Dict(n1));
    assert(c2[1] == Cell::Dict(n2));
    // the first note is untouched by the second addition
    assert(is_map(s1, n1));
    assert(is_map(s0, o) && !s0.contains_key(n1));
    assert(n1 != o);
    assert(is_map(s2, n1) && is_list(s2, l2));
    assert(n1 != l2);
    assert(s1.contains_key(n1));
    assert(s2[n1] == s1[n1]);
    assert(entries(s2, n1) == note_entries(first, first_date));
    assert(text_field(s2, n1, "id"@) == Some(first.id));
    assert(is_note_with_id(s2, c2[0], first.id));
    lemma_first_note_cell(s2, c2, first.id);
    // what is left after the removal
    assert(is_map(s2, o));
    assert(o != l2);
    assert(s3[o] == s2[o]);
    assert(is_map(s2, n2));
    assert(n2 != l2);
    assert(s3[n2] == s2[n2]);
    assert(is_list(s3, l2));
    let c3 = elements(s3, l2);
    assert(c3 =~= seq![Cell::Dict(n2)]);
    assert(note_cells(s3, o) == c3);
    lemma_note_decodes(s3, n2, second, second_date);
    assert(c3.drop_last() =~= Seq::<Cell>::empty());
    assert(notes_in(s3, c3.drop_last()) =~= Seq::<NoteView>::empty());
    assert(notes_in(s3, c3) =~= seq![second]);
}

/// Every cell that names an object names one that the document has.
pub open spec fn cells_name_objects(nodes: Nodes, cells: Seq<Cell>) -> bool {
    forall|j: int|
        0 <= j < cells.len() ==> ((#[trigger] cells[j]) matches Cell::Dict(n) ==> nodes.contains_key(
            n,
        ))
}

/// Adding a note appends it to the notes of the bookmark: where the note
/// cells of the bookmark name objects of the document and the date of the
/// note reads back from its text, the notes afterwards are the notes
/// before, followed by the note.
pub proof fn law_note_added_appends(
    before: Nodes,
    after: Nodes,
    o: automerge::ObjId,
    v: NoteView,
    date: Seq<char>,
)
    requires
        is_map(before, o),
        cells_name_objects(before, note_cells(before, o)),
        note_added(before, after, o, v, date),
        rfc3339_value(date) == Some(v.created_at),
    ensures
        stored_notes(after, o) == stored_notes(before, o).push(v),
{
    lemma_field_names();
    let old_cells = note_cells(before, o);
    let new_cells = note_cells(after, o);
    let l = cell_at(after, o, "notes"@)->Some_0->List_0;
    let made = new_cells.last()->Dict_0;
    assert(new_cells.drop_last() == old_cells);
    lemma_note_decodes(after, made, v, date);
    assert(stored_notes(after, o) == notes_in(after, new_cells));
    assert(stored_notes(before, o) == notes_in(before, old_cells));
    assert(notes_in(after, old_cells) == notes_in(before, old_cells)) by {
        assert forall|j: int| 0 <= j < old_cells.len() implies (
        #[trigger] old_cells[j] matches Cell::Dict(n) ==> stored_note(after, n) == stored_note(
            before,
            n,
        )) by {
            if old_cells[j] is Dict {
                let n = old_cells[j]->Dict_0;
                assert(before.contains_key(n));
                if n == o {
                    assert(cell_at(after, o, "id"@) == cell_at(before, o, "id"@));
                    assert(cell_at(after, o, "content"@) == cell_at(before, o, "content"@));
                    assert(cell_at(after, o, "created_at"@) == cell_at(before, o, "created_at"@));
                } else if n == l {
                    assert(is_list(after, l));
                    if is_map(before, n) {
                        assert(is_map(after, n));
                    }
                } else {
                    assert(after[n] == before[n]);
                }
            }
        }
        lemma_notes_in_frame(after, before, old_cells);
    }
}

/// Every cell names a note object that decodes.
pub open spec fn all_notes_decode(nodes: Nodes, cells: Seq<Cell>) -> bool {
    forall|j: int|
        0 <= j < cells.len() ==> (#[trigger] cells[j]) is Dict && stored_note(
            nodes,
            cells[j]->Dict_0,
        ) is Some
}

/// Where every cell decodes, the notes are those of the cells, one for one.
pub proof fn lemma_notes_of_cells(nodes: Nodes, cells: Seq<Cell>)
    requires
        all_notes_decode(nodes, cells),
    ensures
        notes_in(nodes, cells).len() == cells.len(),
        forall|j: int|
            0 <= j < cells.len() ==> stored_note(nodes, (#[trigger] cells[j])->Dict_0) == Some(
                notes_in(nodes, cells)[j],
            ),
    decreases cells.len(),
{
    if cells.len() > 0 {
        let rest = cells.drop_last();
        assert(all_notes_decode(nodes, rest)) by {
            assert forall|j: int| 0 <= j < rest.len() implies (#[trigger] rest[j]) is Dict
                && stored_note(nodes, rest[j]->Dict_0) is Some by {
                assert(rest[j] == cells[j]);
            }
        }
        lemma_notes_of_cells(nodes, rest);
        assert(cells.last() == cells[cells.len() - 1]);
        assert forall|j: int| 0 <= j < cells.len() implies stored_note(
            nodes,
            (#[trigger] cells[j])->Dict_0,
        ) == Some(notes_in(nodes, cells)[j]) by {
            if j < rest.len() {
                assert(rest[j] == cells[j]);
                assert(notes_in(nodes, cells)[j] == notes_in(nodes, rest)[j]);
            }
        }
    }
}

/// Where every note of a bookmark decodes, the note that a removal by id
/// takes out is the first of the bookmark's notes with that id.
pub proof fn law_note_found_by_id(nodes: Nodes, o: automerge::ObjId, id: Seq<char>)
    requires
        all_notes_decode(nodes, note_cells(nodes, o)),
    ensures
        first_note_cell(nodes, note_cells(nodes, o), id) == first_note_with_id(
            stored_notes(nodes, o),
            id,
        ),
{
    let cells = note_cells(nodes, o);
    let notes = stored_notes(nodes, o);
    assert(notes == notes_in(nodes, cells));
    lemma_notes_of_cells(nodes, cells);
    lemma_first_note_cell(nodes, cells, id);
    lemma_first_note_with_id(notes, id);
    assert forall|j: int| 0 <= j < cells.len() implies (is_note_with_id(nodes, cells[j], id)
        <==> notes[j].id == id) by {
        assert(stored_note(nodes, cells[j]->Dict_0) == Some(notes[j]));
    }
    match first_note_cell(nodes, cells, id) {
        Some(i) => {
            assert(notes[i].id == id);
            match first_note_with_id(notes, id) {
                Some(k) => {
                    if k < i {
                        assert(is_note_with_id(nodes, cells[k], id));
                    } else if i < k {
                        assert(notes[i].id != id);
                    }
                },
                None => {
                    assert(notes[i].id != id);
                },
            }
        },
        None => {
            match first_note_with_id(notes, id) {
                Some(k) => {
                    assert(is_note_with_id(nodes, cells[k], id));
                },
                None => {},
            }
        },
    }
}

/// Removing a note leaves the other notes as they were, in their order:
/// where every note of the bookmark decodes, the notes afterwards are the
/// notes before without the one at the position removed.
pub proof fn law_note_removed_leaves_the_rest(
    before: Nodes,
    after: Nodes,
    o: automerge::ObjId,
    i: int,
)
    requires
        is_map(before, o),
        0 <= i < note_cells(before, o).len(),
        all_notes_decode(before, note_cells(before, o)),
        note_removed(before, after, o, i),
    ensures
        stored_notes(before, o).len() == note_cells(before, o).len(),
        stored_notes(after, o) == stored_notes(before, o).remove(i),
{
    let cells = note_cells(before, o);
    let l = cell_at(before, o, "notes"@)->Some_0->List_0;
    assert(is_list(before, l));
    assert(after[o] == before[o]);
    let left = cells.remove(i);
    assert(elements(after, l) == left);
    assert(all_notes_decode(before, left)) by {
        assert forall|j: int| 0 <= j < left.len() implies (#[trigger] left[j]) is Dict
            && stored_note(before, left[j]->Dict_0) is Some by {
            if j < i {
                assert(left[j] == cells[j]);
            } else {
                assert(left[j] == cells[j + 1]);
            }
        }
    }
    assert(notes_in(after, left) == notes_in(before, left)) by {
        assert forall|j: int| 0 <= j < left.len() implies (#[trigger] left[j] matches Cell::Dict(
            n,
        ) ==> stored_note(after, n) == stored_note(before, n)) by {
            let n = left[j]->Dict_0;
            assert(stored_note(before, n) is Some);
            assert(is_map(before, n));
            assert(after[n] == before[n]);
        }
        lemma_notes_in_frame(after, before, left);
    }
    lemma_notes_of_cells(before, cells);
    lemma_notes_of_cells(before, left);
    assert(notes_in(before, left) =~= notes_in(before, cells).remove(i)) by {
        assert forall|j: int| 0 <= j < left.len() implies notes_in(before, left)[j] == notes_in(
            before,
            cells,
        ).remove(i)[j] by {
            if j < i {
                assert(left[j] == cells[j]);
            } else {
                assert(left[j] == cells[j + 1]);
            }
        }
    }
}

/// Taking the payload of a framed message gives the message back.
pub proof fn law_frame_round_trip(payload: Seq<u8>)
    ensures
        (seq![ENVELOPE_MARKER] + payload).len() > 0,
        (seq![ENVELOPE_MARKER] + payload).subrange(1, 1 + payload.len() as int) == payload,
{
    assert((seq![ENVELOPE_MARKER] + payload).subrange(1, 1 + payload.len() as int) =~= payload);
}

} // verus!
