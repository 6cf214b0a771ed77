//! The filter and sort engine: which bookmarks a query lets through, and in
//! what order they are listed.
//!
//! The conditions of a query are conjunctive. Text is matched without
//! regard to case. A listing is ordered by a stable sort; a bookmark that
//! lacks the optional field it is ordered by counts as smaller than every
//! bookmark that has it, so it comes first in ascending and last in
//! descending order. Where a field to order by is given without a
//! direction, the direction is descending.

use crate::bookmark::{
    Bookmark, BookmarkFilters, BookmarkView, FiltersView, SortBy, SortDirection, bookmark_views,
};
use crate::text::{
    contains_text, is_infix, lemma_text_le_transitive, lemma_text_lt_asymmetric, lowercase,
    lowercase_of, same_text, text_before, text_lt, texts,
};
use crate::timestamp::Timestamp;
use vstd::prelude::*;

verus! {

/// The query occurs, without regard to case, in the title, the URL, the
/// author or the content of a note.
pub open spec fn text_matches(b: BookmarkView, query: Seq<char>) -> bool {
    let q: Seq<char> = lowercase_of(query);
    is_infix(q, lowercase_of(b.title)) || is_infix(q, lowercase_of(b.url)) || (match b.author {
        Some(a) => is_infix(q, lowercase_of(a)),
        None => false,
    }) || exists|i: int|
        0 <= i < b.notes.len() && is_infix(q, lowercase_of((#[trigger] b.notes[i]).content))
}

/// The bookmark has the tag, without regard to case.
pub open spec fn has_tag(b: BookmarkView, tag: Seq<char>) -> bool {
    exists|i: int| 0 <= i < b.tags.len() && lowercase_of(#[trigger] b.tags[i]) == lowercase_of(tag)
}

/// The bookmark has every one of the tags.
pub open spec fn has_all_tags(b: BookmarkView, tags: Seq<Seq<char>>) -> bool {
    forall|i: int| 0 <= i < tags.len() ==> has_tag(b, #[trigger] tags[i])
}

/// The date is no earlier than `since` and no later than `until`, where
/// those bounds are given.
pub open spec fn date_within(d: Timestamp, since: Option<Timestamp>, until: Option<Timestamp>) -> bool {
    (match since {
        Some(s) => s.not_after(d),
        None => true,
    }) && (match until {
        Some(u) => d.not_after(u),
        None => true,
    })
}

/// An optional date meets the bounds: with no bound given it always does;
/// with a bound given it must be present and within.
pub open spec fn optional_date_within(
    d: Option<Timestamp>,
    since: Option<Timestamp>,
    until: Option<Timestamp>,
) -> bool {
    (since is None && until is None) || (match d {
        Some(t) => date_within(t, since, until),
        None => false,
    })
}

/// The bookmark meets every condition of the filters.
pub open spec fn passes(b: BookmarkView, f: FiltersView) -> bool {
    &&& f.text_query matches Some(q) ==> text_matches(b, q)
    &&& f.tags matches Some(t) ==> has_all_tags(b, t)
    &&& f.reading_status matches Some(s) ==> b.reading_status == s
    &&& f.priority_range matches Some(range) ==> (match b.priority_rating {
        Some(p) => range.0 <= p && p <= range.1,
        None => false,
    })
    &&& date_within(b.bookmarked_date, f.bookmarked_since, f.bookmarked_until)
    &&& optional_date_within(b.publish_date, f.published_since, f.published_until)
}

/// The bookmarks that meet the filters, in their order.
pub open spec fn kept(s: Seq<BookmarkView>, f: FiltersView) -> Seq<BookmarkView>
    decreases s.len(),
{
    if s.len() == 0 {
        Seq::empty()
    } else if passes(s.last(), f) {
        kept(s.drop_last(), f).push(s.last())
    } else {
        kept(s.drop_last(), f)
    }
}

/// An absent value is smaller than a present one; present dates compare as dates.
pub open spec fn date_less(a: Option<Timestamp>, b: Option<Timestamp>) -> bool {
    match (a, b) {
        (None, Some(_)) => true,
        (Some(x), Some(y)) => x.before(y),
        _ => false,
    }
}

/// An absent value is smaller than a present one; present ratings compare as numbers.
pub open spec fn rating_less(a: Option<u8>, b: Option<u8>) -> bool {
    match (a, b) {
        (None, Some(_)) => true,
        (Some(x), Some(y)) => x < y,
        _ => false,
    }
}

/// `a` is strictly smaller than `b` in the field ordered by.
pub open spec fn smaller(a: BookmarkView, b: BookmarkView, by: SortBy) -> bool {
    match by {
        SortBy::BookmarkedDate => a.bookmarked_date.before(b.bookmarked_date),
        SortBy::PublishDate => date_less(a.publish_date, b.publish_date),
        SortBy::Title => text_lt(a.title, b.title),
        SortBy::Priority => rating_less(a.priority_rating, b.priority_rating),
    }
}

/// `a` may stand before `b` in a listing ordered by `by` in direction `dir`.
pub open spec fn in_order(a: BookmarkView, b: BookmarkView, by: SortBy, dir: SortDirection) -> bool {
    match dir {
        SortDirection::Ascending => !smaller(b, a, by),
        SortDirection::Descending => !smaller(a, b, by),
    }
}

/// Of two bookmarks, one may stand before the other.
pub proof fn lemma_in_order_total(a: BookmarkView, b: BookmarkView, by: SortBy, dir: SortDirection)
    ensures
        in_order(a, b, by, dir) || in_order(b, a, by, dir),
{
    lemma_text_lt_asymmetric(a.title, b.title);
}

/// "May stand before" is transitive.
pub proof fn lemma_in_order_transitive(
    a: BookmarkView,
    b: BookmarkView,
    c: BookmarkView,
    by: SortBy,
    dir: SortDirection,
)
    requires
        in_order(a, b, by, dir),
        in_order(b, c, by, dir),
    ensures
        in_order(a, c, by, dir),
{
    if by == SortBy::Title {
        match dir {
            SortDirection::Ascending => lemma_text_le_transitive(a.title, b.title, c.title),
            SortDirection::Descending => lemma_text_le_transitive(c.title, b.title, a.title),
        }
    }
}

/// `out` is `input` rearranged as `from` says, position `i` of `out`
/// holding what position `from[i]` of `input` held, such that `out` is in
/// order and bookmarks that may stand either way keep their order of
/// `input`. Only the first `n` bookmarks of `input` take part.
pub open spec fn sorts_prefix(
    input: Seq<BookmarkView>,
    out: Seq<BookmarkView>,
    from: Seq<int>,
    n: int,
    by: SortBy,
    dir: SortDirection,
) -> bool {
    &&& 0 <= n <= input.len()
    &&& out.len() == n
    &&& from.len() == n
    &&& forall|i: int| 0 <= i < n ==> 0 <= #[trigger] from[i] < n && out[i] == input[from[i]]
    &&& forall|i: int, j: int| 0 <= i < j < n ==> #[trigger] from[i] != #[trigger] from[j]
    &&& forall|i: int, j: int|
        0 <= i < j < n ==> in_order(#[trigger] out[i], #[trigger] out[j], by, dir) && (in_order(
            out[j],
            out[i],
            by,
            dir,
        ) ==> from[i] < from[j])
}

/// `out` is the stable sort of `input` by `by` in direction `dir`.
pub open spec fn is_stable_sort(
    input: Seq<BookmarkView>,
    out: Seq<BookmarkView>,
    by: SortBy,
    dir: SortDirection,
) -> bool {
    exists|from: Seq<int>| #[trigger] sorts_prefix(input, out, from, input.len() as int, by, dir)
}

/// The direction of a query: descending unless it says otherwise.
pub open spec fn direction_of(f: FiltersView) -> SortDirection {
    match f.sort_order {
        Some(d) => d,
        None => SortDirection::Descending,
    }
}

/// `out` is what the filters select from `input`: the bookmarks that meet
/// the conditions, in their order of `input` where no field to order by is
/// given, and stably sorted by it otherwise.
pub open spec fn selects(input: Seq<BookmarkView>, f: FiltersView, out: Seq<BookmarkView>) -> bool {
    match f.sort_by {
        Some(by) => is_stable_sort(kept(input, f), out, by, direction_of(f)),
        None => out == kept(input, f),
    }
}

fn contains_lowered(hay: &str, lowered_query: &str) -> (r: bool)
    ensures
        r == is_infix(lowered_query@, lowercase_of(hay@)),
{
    let low = lowercase(hay);
    contains_text(low.as_str(), lowered_query)
}

/// Whether the query occurs in the bookmark's title, URL, author or notes.
pub fn matches_text(b: &Bookmark, query: &str) -> (r: bool)
    ensures
        r == text_matches(b@, query@),
{
    let q = lowercase(query);
    if contains_lowered(b.title.as_str(), q.as_str()) {
        return true;
    }
    if contains_lowered(b.url.as_str(), q.as_str()) {
        return true;
    }
    match &b.author {
        Some(a) => {
            if contains_lowered(a.as_str(), q.as_str()) {
                return true;
            }
        },
        None => {},
    }
    let mut i: usize = 0;
    while i < b.notes.len()
        invariant
            i <= b.notes.len(),
            q@ == lowercase_of(query@),
            forall|j: int| 0 <= j < i ==> !is_infix(q@, lowercase_of(b.notes[j].content@)),
        decreases b.notes.len() - i,
    {
        if contains_lowered(b.notes[i].content.as_str(), q.as_str()) {
            assert(b@.notes[i as int] == b.notes[i as int]@);
            return true;
        }
        i = i + 1;
    }
    assert forall|j: int| 0 <= j < b@.notes.len() implies !is_infix(
        q@,
        lowercase_of((#[trigger] b@.notes[j]).content),
    ) by {
        assert(b@.notes[j] == b.notes[j]@);
    }
    false
}

/// Whether the bookmark has the tag, without regard to case.
pub fn matches_tag(b: &Bookmark, tag: &str) -> (r: bool)
    ensures
        r == has_tag(b@, tag@),
{
    let wanted = lowercase(tag);
    let mut i: usize = 0;
    while i < b.tags.len()
        invariant
            i <= b.tags.len(),
            wanted@ == lowercase_of(tag@),
            forall|j: int| 0 <= j < i ==> lowercase_of(b.tags[j]@) != lowercase_of(tag@),
        decreases b.tags.len() - i,
    {
        let have = lowercase(b.tags[i].as_str());
        if same_text(have.as_str(), wanted.as_str()) {
            assert(b@.tags[i as int] == b.tags[i as int]@);
            return true;
        }
        i = i + 1;
    }
    assert forall|j: int| 0 <= j < b@.tags.len() implies lowercase_of(#[trigger] b@.tags[j])
        != lowercase_of(tag@) by {
        assert(b@.tags[j] == b.tags[j]@);
    }
    false
}

/// Whether the bookmark has every one of the tags.
pub fn matches_all_tags(b: &Bookmark, tags: &Vec<String>) -> (r: bool)
    ensures
        r == has_all_tags(b@, texts(tags@)),
{
    let mut i: usize = 0;
    while i < tags.len()
        invariant
            i <= tags.len(),
            forall|j: int| 0 <= j < i ==> has_tag(b@, tags[j]@),
        decreases tags.len() - i,
    {
        if !matches_tag(b, tags[i].as_str()) {
            assert(texts(tags@)[i as int] == tags[i as int]@);
            return false;
        }
        i = i + 1;
    }
    assert forall|j: int| 0 <= j < texts(tags@).len() implies has_tag(b@, #[trigger] texts(tags@)[j]) by {
        assert(texts(tags@)[j] == tags[j]@);
    }
    true
}

fn within(d: &Timestamp, since: &Option<Timestamp>, until: &Option<Timestamp>) -> (r: bool)
    ensures
        r == date_within(*d, *since, *until),
{
    let after_start = match since {
        Some(s) => s.is_not_after(d),
        None => true,
    };
    let before_end = match until {
        Some(u) => d.is_not_after(u),
        None => true,
    };
    after_start && before_end
}

/// Whether the bookmark meets every condition of the filters.
pub fn matches_filters(b: &Bookmark, f: &BookmarkFilters) -> (r: bool)
    ensures
        r == passes(b@, f@),
{
    match &f.text_query {
        Some(q) => {
            if !matches_text(b, q.as_str()) {
                return false;
            }
        },
        None => {},
    }
    match &f.tags {
        Some(t) => {
            if !matches_all_tags(b, t) {
                return false;
            }
        },
        None => {},
    }
    match &f.reading_status {
        Some(s) => {
            if b.reading_status != *s {
                return false;
            }
        },
        None => {},
    }
    match &f.priority_range {
        Some(range) => {
            match b.priority_rating {
                Some(p) => {
                    if p < range.0 || p > range.1 {
                        return false;
                    }
                },
                None => {
                    return false;
                },
            }
        },
        None => {},
    }
    if !within(&b.bookmarked_date, &f.bookmarked_since, &f.bookmarked_until) {
        return false;
    }
    if f.published_since.is_some() || f.published_until.is_some() {
        match &b.publish_date {
            Some(d) => {
                if !within(d, &f.published_since, &f.published_until) {
                    return false;
                }
            },
            None => {
                return false;
            },
        }
    }
    true
}

/// The bookmarks that meet the conditions of the filters, in their order.
pub fn retain_matching(bookmarks: &Vec<Bookmark>, f: &BookmarkFilters) -> (r: Vec<Bookmark>)
    ensures
        bookmark_views(r@) == kept(bookmark_views(bookmarks@), f@),
{
    let mut out: Vec<Bookmark> = Vec::new();
    let ghost all = bookmark_views(bookmarks@);
    let mut i: usize = 0;
    assert(bookmark_views(out@) =~= kept(all.subrange(0, 0), f@));
    while i < bookmarks.len()
        invariant
            i <= bookmarks.len(),
            all == bookmark_views(bookmarks@),
            bookmark_views(out@) == kept(all.subrange(0, i as int), f@),
        decreases bookmarks.len() - i,
    {
        assert(all.subrange(0, i + 1).drop_last() =~= all.subrange(0, i as int));
        assert(all.subrange(0, i + 1).last() == bookmarks[i as int]@);
        let ghost before = out@;
        if matches_filters(&bookmarks[i], f) {
            let copy = bookmarks[i].clone();
            out.push(copy);
            assert(bookmark_views(out@) =~= bookmark_views(before).push(bookmarks[i as int]@));
        }
        i = i + 1;
    }
    assert(all.subrange(0, bookmarks.len() as int) =~= all);
    out
}

fn date_is_less(a: &Option<Timestamp>, b: &Option<Timestamp>) -> (r: bool)
    ensures
        r == date_less(*a, *b),
{
    match (a, b) {
        (None, Some(_)) => true,
        (Some(x), Some(y)) => x.is_before(y),
        _ => false,
    }
}

fn rating_is_less(a: &Option<u8>, b: &Option<u8>) -> (r: bool)
    ensures
        r == rating_less(*a, *b),
{
    match (a, b) {
        (None, Some(_)) => true,
        (Some(x), Some(y)) => *x < *y,
        _ => false,
    }
}

fn is_smaller(a: &Bookmark, b: &Bookmark, by: SortBy) -> (r: bool)
    ensures
        r == smaller(a@, b@, by),
{
    match by {
        SortBy::BookmarkedDate => a.bookmarked_date.is_before(&b.bookmarked_date),
        SortBy::PublishDate => date_is_less(&a.publish_date, &b.publish_date),
        SortBy::Title => text_before(a.title.as_str(), b.title.as_str()),
        SortBy::Priority => rating_is_less(&a.priority_rating, &b.priority_rating),
    }
}

/// Whether `a` may stand before `b` in a listing ordered by `by` in
/// direction `dir`.
pub fn may_precede(a: &Bookmark, b: &Bookmark, by: SortBy, dir: SortDirection) -> (r: bool)
    ensures
        r == in_order(a@, b@, by, dir),
{
    match dir {
        SortDirection::Ascending => !is_smaller(b, a, by),
        SortDirection::Descending => !is_smaller(a, b, by),
    }
}

/// The bookmarks stably sorted by `by` in direction `dir`.
pub fn sort_bookmarks(bookmarks: &Vec<Bookmark>, by: SortBy, dir: SortDirection) -> (r: Vec<Bookmark>)
    ensures
        is_stable_sort(bookmark_views(bookmarks@), bookmark_views(r@), by, dir),
{
    let mut out: Vec<Bookmark> = Vec::new();
    let ghost input = bookmark_views(bookmarks@);
    let ghost mut from: Seq<int> = Seq::empty();
    let mut k: usize = 0;
    while k < bookmarks.len()
        invariant
            k <= bookmarks.len(),
            input == bookmark_views(bookmarks@),
            sorts_prefix(input, bookmark_views(out@), from, k as int, by, dir),
        decreases bookmarks.len() - k,
    {
        let x = bookmarks[k].clone();
        let ghost xs = bookmark_views(out@);
        assert(x@ == input[k as int]);
        let mut pos: usize = out.len();
        while pos > 0 && !may_precede(&out[pos - 1], &x, by, dir)
            invariant
                pos <= out.len(),
                xs == bookmark_views(out@),
                forall|j: int| pos <= j < out.len() ==> !in_order(#[trigger] xs[j], x@, by, dir),
            decreases pos,
        {
            assert(xs[pos - 1] == out[pos - 1]@);
            pos = pos - 1;
        }
        proof {
            if pos > 0 {
                assert(xs[pos - 1] == out[pos - 1]@);
            }
        }
        out.insert(pos, x);
        proof {
            let ys = bookmark_views(out@);
            let v = input[k as int];
            let p = pos as int;
            let old_from = from;
            from = old_from.insert(p, k as int);
            assert(ys =~= xs.insert(p, v));
            assert forall|i: int| 0 <= i < k + 1 implies 0 <= #[trigger] from[i] < k + 1 && ys[i]
                == input[from[i]] by {
                if i < p {
                    assert(from[i] == old_from[i]);
                } else if i > p {
                    assert(from[i] == old_from[i - 1]);
                }
            }
            assert forall|i: int, j: int| 0 <= i < j < k + 1 implies #[trigger] from[i]
                != #[trigger] from[j] by {
                let oi = if i < p {
                    i
                } else {
                    i - 1
                };
                let oj = if j < p {
                    j
                } else {
                    j - 1
                };
                if i != p && j != p {
                    assert(from[i] == old_from[oi] && from[j] == old_from[oj]);
                } else if i == p {
                    assert(from[j] == old_from[oj]);
                } else {
                    assert(from[i] == old_from[oi]);
                }
            }
            assert forall|i: int, j: int| 0 <= i < j < k + 1 implies in_order(
                #[trigger] ys[i],
                #[trigger] ys[j],
                by,
                dir,
            ) && (in_order(ys[j], ys[i], by, dir) ==> from[i] < from[j]) by {
                let oi = if i < p {
                    i
                } else {
                    i - 1
                };
                let oj = if j < p {
                    j
                } else {
                    j - 1
                };
                if i != p && j != p {
                    assert(ys[i] == xs[oi] && ys[j] == xs[oj]);
                    assert(from[i] == old_from[oi] && from[j] == old_from[oj]);
                } else if j == p {
                    // an earlier bookmark and the new one
                    assert(ys[i] == xs[i] && from[i] == old_from[i]);
                    assert(in_order(xs[p - 1], v, by, dir));
                    if i < p - 1 {
                        lemma_in_order_transitive(xs[i], xs[p - 1], v, by, dir);
                    }
                } else {
                    // the new bookmark and a later one
                    assert(ys[j] == xs[j - 1] && from[j] == old_from[j - 1]);
                    assert(!in_order(xs[j - 1], v, by, dir));
                    lemma_in_order_total(xs[j - 1], v, by, dir);
                }
            }
        }
        k = k + 1;
    }
    out
}

/// What the filters select from the bookmarks: those that meet the
/// conditions, stably sorted where a field to order by is given.
pub fn apply_filters(bookmarks: Vec<Bookmark>, filters: &BookmarkFilters) -> (r: Vec<Bookmark>)
    ensures
        selects(bookmark_views(bookmarks@), filters@, bookmark_views(r@)),
{
    let matching = retain_matching(&bookmarks, filters);
    match filters.sort_by {
        Some(by) => {
            let dir = match filters.sort_order {
                Some(d) => d,
                None => SortDirection::Descending,
            };
            sort_bookmarks(&matching, by, dir)
        },
        None => matching,
    }
}

} // verus!
