//! The interface of a bookmark store, and a store that lives in memory.

use crate::bookmark::{
    Bookmark, BookmarkFilters, BookmarkView, FiltersView, Note, bookmark_views,
    first_note_with_id, };
use crate::errors::{BookmarkError, BookmarkResult};
use crate::filter::{apply_filters, selects};
use crate::document::{Node, is_sync_message, objects_kept};
use crate::repository::{
    AutomergeBookmarkRepository, created, finds, found, in_common_era, lists_all,
    note_missing_text, storable, tags_only, text_only,
};
use crate::text::{copy_text_slice, joined, same_text, texts};
use vstd::prelude::*;
use vstd::string::*;

verus! {

/// A store of bookmarks, each under its id.
///
/// The interface says under which ids a store has entries after each
/// operation, that an operation on an id without an entry answers
/// `NotFound` and leaves every listing as it was, and that a bookmark
/// whose dates lie in the common era is found again as it was created.
/// What else an operation does is for the store to say, and so is whether
/// its queries can fail.
pub trait BookmarkRepository {
    /// The store can be worked with.
    spec fn usable(&self) -> bool;

    /// The store answers every query: `find_all`, `search_by_text` and
    /// `find_by_tags` succeed on it.
    spec fn readable(&self) -> bool;

    /// The store takes the bookmark: `create` succeeds on it.
    spec fn accepts(&self, bookmark: BookmarkView) -> bool;

    /// There is an entry under the id.
    spec fn holds(&self, id: Seq<char>) -> bool;

    /// The bookmark that is found under the id, where there is one.
    spec fn kept(&self, id: Seq<char>) -> Option<BookmarkView>;

    /// `listing` is a listing of the bookmarks of the store, as a query
    /// without filters may give it.
    spec fn lists(&self, listing: Seq<BookmarkView>) -> bool;

    /// Stores a new bookmark and returns it.
    fn create(&mut self, bookmark: Bookmark) -> (r: BookmarkResult<Bookmark>)
        requires
            old(self).usable(),
        ensures
            final(self).usable(),
            old(self).accepts(bookmark@) ==> r is Ok,
            r matches Ok(b) ==> b@ == bookmark@ && final(self).holds(bookmark@.id) && (
            in_common_era(bookmark@) ==> final(self).kept(bookmark@.id) == Some(bookmark@)),
            forall|id: Seq<char>|
                id != bookmark@.id ==> final(self).holds(id) == old(self).holds(id),
    ;

    /// The bookmarks that the filters select from a listing of the store;
    /// the listing itself where none are given.
    fn find_all(&self, filters: Option<BookmarkFilters>) -> (r: BookmarkResult<Vec<Bookmark>>)
        requires
            self.usable(),
        ensures
            self.readable() ==> r is Ok,
            r matches Ok(out) ==> exists|listing: Seq<BookmarkView>| #[trigger]
                self.lists(listing) && (match filters {
                    Some(f) => selects(listing, f@, bookmark_views(out@)),
                    None => bookmark_views(out@) == listing,
                }),
    ;

    /// The bookmark with the id; `NotFound` with the id where there is no
    /// entry under it.
    fn find_by_id(&self, id: &str) -> (r: BookmarkResult<Bookmark>)
        requires
            self.usable(),
        ensures
            !self.holds(id@) ==> (r matches Err(BookmarkError::NotFound(m)) && m@ == id@),
            self.kept(id@) matches Some(v) ==> (r matches Ok(b) && b@ == v),
    ;

    /// Replaces the stored bookmark of the same id and returns the new one;
    /// `NotFound` with the id where there is no entry under it.
    fn update(&mut self, bookmark: Bookmark) -> (r: BookmarkResult<Bookmark>)
        requires
            old(self).usable(),
        ensures
            final(self).usable(),
            r matches Ok(b) ==> b@ == bookmark@,
            forall|id: Seq<char>| final(self).holds(id) == old(self).holds(id),
            !old(self).holds(bookmark@.id) ==> (r matches Err(BookmarkError::NotFound(m)) && m@
                == bookmark@.id) && (forall|listing: Seq<BookmarkView>| final(self).lists(listing) == old(self).lists(listing)),
    ;

    /// Removes the bookmark with the id; `NotFound` with the id where there
    /// is no entry under it.
    fn delete(&mut self, id: &str) -> (r: BookmarkResult<()>)
        requires
            old(self).usable(),
        ensures
            final(self).usable(),
            r is Ok ==> !final(self).holds(id@),
            r is Err ==> final(self).holds(id@) == old(self).holds(id@),
            forall|other: Seq<char>| other != id@ ==> final(self).holds(other) == old(self).holds(other),
            !old(self).holds(id@) ==> (r matches Err(BookmarkError::NotFound(m)) && m@ == id@)
                && (forall|listing: Seq<BookmarkView>| final(self).lists(listing) == old(self).lists(listing)),
    ;

    /// The bookmarks in which the text occurs.
    fn search_by_text(&self, query: &str) -> (r: BookmarkResult<Vec<Bookmark>>)
        requires
            self.usable(),
        ensures
            self.readable() ==> r is Ok,
            r matches Ok(out) ==> exists|listing: Seq<BookmarkView>| #[trigger]
                self.lists(listing) && selects(listing, text_only(query@), bookmark_views(out@)),
    ;

    /// The bookmarks that have every one of the tags.
    fn find_by_tags(&self, tags: &[String]) -> (r: BookmarkResult<Vec<Bookmark>>)
        requires
            self.usable(),
        ensures
            self.readable() ==> r is Ok,
            r matches Ok(out) ==> exists|listing: Seq<BookmarkView>| #[trigger]
                self.lists(listing) && selects(
                    listing,
                    tags_only(texts(tags@)),
                    bookmark_views(out@),
                ),
    ;

    /// Adds a note to a bookmark and returns the note's id; `NotFound`
    /// with the bookmark's id where there is no entry under it.
    fn add_note(&mut self, bookmark_id: &str, content: &str) -> (r: BookmarkResult<String>)
        requires
            old(self).usable(),
        ensures
            final(self).usable(),
            forall|id: Seq<char>| final(self).holds(id) == old(self).holds(id),
            !old(self).holds(bookmark_id@) ==> (r matches Err(BookmarkError::NotFound(m)) && m@
                == bookmark_id@) && (forall|listing: Seq<BookmarkView>| final(self).lists(listing) == old(self).lists(listing)),
    ;

    /// Removes a note from a bookmark; `NotFound` with the bookmark's id
    /// where there is no entry under it.
    fn remove_note(&mut self, bookmark_id: &str, note_id: &str) -> (r: BookmarkResult<()>)
        requires
            old(self).usable(),
        ensures
            final(self).usable(),
            forall|id: Seq<char>| final(self).holds(id) == old(self).holds(id),
            !old(self).holds(bookmark_id@) ==> (r matches Err(BookmarkError::NotFound(m)) && m@
                == bookmark_id@) && (forall|listing: Seq<BookmarkView>| final(self).lists(listing) == old(self).lists(listing)),
    ;

    /// What a store holds, as a mathematical value.
    type Content;

    /// What the store holds.
    spec fn content(&self) -> Self::Content;

    /// The store has exchanged sync messages with the peer, and remembers
    /// how far the exchange came.
    spec fn knows_peer(&self, peer: Seq<char>) -> bool;

    /// The next sync message that the store has for the peer, where it has
    /// one.
    spec fn message_for(&self, peer: Seq<char>) -> Option<Seq<u8>>;

    /// The store takes the bytes for a sync message.
    spec fn is_message(&self, bytes: Seq<u8>) -> bool;

    /// What the store holds once the bytes were merged as a sync message
    /// from the peer; nothing where they cannot be merged.
    spec fn merge(&self, peer: Seq<char>, bytes: Seq<u8>) -> Option<Self::Content>;

    /// The store is one that `before` can become by a merge.
    spec fn follows(&self, before: &Self) -> bool;

    /// The next sync message for the peer: the message that the store has
    /// for it, and no bytes where it has none. A store that has not met
    /// the peer has one for it, and a message is never without bytes. What
    /// the store holds stays; the store knows the peer from then on.
    fn generate_sync_message(&mut self, peer_id: &str) -> (r: BookmarkResult<Vec<u8>>)
        requires
            old(self).usable(),
        ensures
            final(self).usable(),
            (forall|listing: Seq<BookmarkView>| final(self).lists(listing) == old(self).lists(listing)),
            forall|id: Seq<char>| final(self).holds(id) == old(self).holds(id),
            final(self).content() == old(self).content(),
            old(self).readable() ==> r is Ok,
            r matches Ok(m) ==> m@ == (match old(self).message_for(peer_id@) {
                Some(bytes) => bytes,
                None => Seq::empty(),
            }),
            old(self).message_for(peer_id@) matches Some(bytes) ==> bytes.len() > 0 && old(
                self,
            ).is_message(bytes),
            !old(self).knows_peer(peer_id@) ==> old(self).message_for(peer_id@) is Some,
            final(self).knows_peer(peer_id@),
            forall|other: Seq<char>| old(self).knows_peer(other) ==> final(self).knows_peer(other),
    ;

    /// Merges a sync message from the peer and says whether anything
    /// changed. It succeeds exactly where the merge gives something, which
    /// the store then holds; a failure is a sync error. Bytes that the
    /// store does not take for a message fail and leave what it holds. The
    /// store knows the peer from then on.
    fn apply_sync_message(&mut self, peer_id: &str, message: Vec<u8>) -> (r: BookmarkResult<bool>)
        requires
            old(self).usable(),
        ensures
            final(self).usable(),
            final(self).follows(old(self)),
            r is Ok <==> old(self).merge(peer_id@, message@) is Some,
            r is Ok ==> final(self).content() == old(self).merge(peer_id@, message@)->Some_0,
            r matches Err(e) ==> e is SyncError,
            !old(self).is_message(message@) ==> r is Err && final(self).content() == old(
                self,
            ).content(),
            final(self).knows_peer(peer_id@),
            forall|other: Seq<char>| old(self).knows_peer(other) ==> final(self).knows_peer(other),
    ;
}

impl BookmarkRepository for AutomergeBookmarkRepository {
    open spec fn usable(&self) -> bool {
        self.wf()
    }

    /// The document is in memory: its queries never fail.
    open spec fn readable(&self) -> bool {
        true
    }

    /// The document takes a bookmark whose dates can be written as text.
    open spec fn accepts(&self, bookmark: BookmarkView) -> bool {
        storable(bookmark)
    }

    /// The objects of the document and the map that holds the bookmarks.
    type Content = (Map<automerge::ObjId, Node>, automerge::ObjId);

    open spec fn content(&self) -> (Map<automerge::ObjId, Node>, automerge::ObjId) {
        (self.nodes(), self.root_map())
    }

    open spec fn knows_peer(&self, peer: Seq<char>) -> bool {
        AutomergeBookmarkRepository::knows_peer(self, peer)
    }

    open spec fn message_for(&self, peer: Seq<char>) -> Option<Seq<u8>> {
        AutomergeBookmarkRepository::message_for(self, peer)
    }

    open spec fn is_message(&self, bytes: Seq<u8>) -> bool {
        is_sync_message(bytes)
    }

    open spec fn merge(&self, peer: Seq<char>, bytes: Seq<u8>) -> Option<
        (Map<automerge::ObjId, Node>, automerge::ObjId),
    > {
        match AutomergeBookmarkRepository::merge(self, peer, bytes) {
            Some(nodes) => Some((nodes, self.root_map())),
            None => None,
        }
    }

    /// The bookmarks map is the same, and every object of before is still
    /// an object of its kind.
    open spec fn follows(&self, before: &Self) -> bool {
        self.root_map() == before.root_map() && objects_kept(before.nodes(), self.nodes())
    }

    open spec fn holds(&self, id: Seq<char>) -> bool {
        self.has_entry(id)
    }

    open spec fn kept(&self, id: Seq<char>) -> Option<BookmarkView> {
        self.stored(id)
    }

    open spec fn lists(&self, listing: Seq<BookmarkView>) -> bool {
        lists_all(self.nodes(), self.root_map(), listing)
    }

    /// Writes the bookmark into the document under its id. It succeeds
    /// exactly where the dates of the bookmark can be written as text, and
    /// changes nothing where it fails.
    fn create(&mut self, bookmark: Bookmark) -> (r: BookmarkResult<Bookmark>)
        ensures
            final(self).root_map() == old(self).root_map(),
            r is Ok <==> storable(bookmark@),
            r is Ok ==> created(
                old(self).nodes(),
                final(self).nodes(),
                old(self).root_map(),
                bookmark@,
            ),
            r matches Err(e) ==> e is StorageError && final(self).nodes() == old(self).nodes(),
    {
        AutomergeBookmarkRepository::create(self, bookmark)
    }

    /// Every bookmark of the document that decodes, and of those what the
    /// filters select. It always succeeds.
    fn find_all(&self, filters: Option<BookmarkFilters>) -> (r: BookmarkResult<Vec<Bookmark>>)
        ensures
            r matches Ok(out) && found(
                self.listing(),
                match filters {
                    Some(f) => Some(f@),
                    None => None,
                },
                bookmark_views(out@),
            ),
            r matches Ok(out) && finds(
                self.nodes(),
                self.root_map(),
                match filters {
                    Some(f) => Some(f@),
                    None => None,
                },
                bookmark_views(out@),
            ),
    {
        let ghost wanted: Option<FiltersView> = if filters is Some {
            Some(filters->Some_0@)
        } else {
            None
        };
        let r = AutomergeBookmarkRepository::find_all(self, filters);
        proof {
            if r is Ok {
                let out = r->Ok_0;
                let listing = choose|listing: Seq<BookmarkView>| #[trigger]
                    lists_all(self.nodes(), self.root_map(), listing) && match wanted {
                        Some(f) => selects(listing, f, bookmark_views(out@)),
                        None => bookmark_views(out@) == listing,
                    };
                assert(self.lists(listing));
            }
        }
        r
    }

    fn find_by_id(&self, id: &str) -> (r: BookmarkResult<Bookmark>) {
        AutomergeBookmarkRepository::find_by_id(self, id)
    }

    fn update(&mut self, bookmark: Bookmark) -> (r: BookmarkResult<Bookmark>) {
        AutomergeBookmarkRepository::update(self, bookmark)
    }

    fn delete(&mut self, id: &str) -> (r: BookmarkResult<()>) {
        AutomergeBookmarkRepository::delete(self, id)
    }

    /// The bookmarks of the document in which the text occurs. It always
    /// succeeds.
    fn search_by_text(&self, query: &str) -> (r: BookmarkResult<Vec<Bookmark>>)
        ensures
            r matches Ok(out) && selects(self.listing(), text_only(query@), bookmark_views(out@)),
            r matches Ok(out) && finds(
                self.nodes(),
                self.root_map(),
                Some(text_only(query@)),
                bookmark_views(out@),
            ),
    {
        let r = AutomergeBookmarkRepository::search_by_text(self, query);
        proof {
            let out = r->Ok_0;
            let listing = choose|listing: Seq<BookmarkView>| #[trigger]
                lists_all(self.nodes(), self.root_map(), listing) && selects(
                    listing,
                    text_only(query@),
                    bookmark_views(out@),
                );
            assert(self.lists(listing));
        }
        r
    }

    /// The bookmarks of the document that have every one of the tags. It
    /// always succeeds.
    fn find_by_tags(&self, tags: &[String]) -> (r: BookmarkResult<Vec<Bookmark>>)
        ensures
            r matches Ok(out) && selects(
                self.listing(),
                tags_only(texts(tags@)),
                bookmark_views(out@),
            ),
            r matches Ok(out) && finds(
                self.nodes(),
                self.root_map(),
                Some(tags_only(texts(tags@))),
                bookmark_views(out@),
            ),
    {
        let r = AutomergeBookmarkRepository::find_by_tags(self, tags);
        proof {
            let out = r->Ok_0;
            let listing = choose|listing: Seq<BookmarkView>| #[trigger]
                lists_all(self.nodes(), self.root_map(), listing) && selects(
                    listing,
                    tags_only(texts(tags@)),
                    bookmark_views(out@),
                );
            assert(self.lists(listing));
        }
        r
    }

    fn add_note(&mut self, bookmark_id: &str, content: &str) -> (r: BookmarkResult<String>) {
        AutomergeBookmarkRepository::add_note(self, bookmark_id, content)
    }

    fn remove_note(&mut self, bookmark_id: &str, note_id: &str) -> (r: BookmarkResult<()>) {
        AutomergeBookmarkRepository::remove_note(self, bookmark_id, note_id)
    }

    /// The next sync message of the document for the peer. It always
    /// succeeds and leaves the document as it is; for a peer that the
    /// store has not met the message is not empty, and the store knows the
    /// peer from then on.
    fn generate_sync_message(&mut self, peer_id: &str) -> (r: BookmarkResult<Vec<u8>>)
        ensures
            r is Ok,
            final(self).root_map() == old(self).root_map(),
            final(self).nodes() == old(self).nodes(),
            final(self).heads() == old(self).heads(),
            old(self).message_for(peer_id@) matches Some(m) ==> is_sync_message(m),
            forall|other: Seq<char>|
                other != peer_id@ ==> final(self).knows_peer(other) == old(self).knows_peer(other),
    {
        AutomergeBookmarkRepository::generate_sync_message(self, peer_id)
    }

    /// Merges a sync message from the peer into the document and says
    /// whether its latest changes differ from those before. It succeeds
    /// exactly where the merge gives a document, which the store then
    /// holds. Bytes that are no sync message are a sync error and leave
    /// the document as it was.
    fn apply_sync_message(&mut self, peer_id: &str, message: Vec<u8>) -> (r: BookmarkResult<bool>)
        ensures
            final(self).root_map() == old(self).root_map(),
            objects_kept(old(self).nodes(), final(self).nodes()),
            r is Ok <==> old(self).merge(peer_id@, message@) is Some,
            r matches Ok(changed) ==> is_sync_message(message@) && final(self).nodes() == old(
                self,
            ).merge(peer_id@, message@)->Some_0 && changed == (final(self).heads() != old(
                self,
            ).heads()),
            r matches Err(e) ==> e is SyncError,
            !is_sync_message(message@) ==> r is Err && final(self).nodes() == old(self).nodes()
                && final(self).heads() == old(self).heads(),
            final(self).knows_peer(peer_id@),
    {
        AutomergeBookmarkRepository::apply_sync_message(self, peer_id, message)
    }
}

/// The position of the bookmark with the given id.
pub open spec fn position_of(all: Seq<BookmarkView>, id: Seq<char>) -> Option<int>
    decreases all.len(),
{
    if all.len() == 0 {
        None
    } else if all.last().id == id {
        Some(all.len() - 1)
    } else {
        position_of(all.drop_last(), id)
    }
}

/// No two bookmarks have the same id.
pub open spec fn distinct_ids(all: Seq<BookmarkView>) -> bool {
    forall|i: int, j: int| 0 <= i < j < all.len() ==> (#[trigger] all[i]).id != (#[trigger] all[j]).id
}

/// What `position_of` finds: a position with the id, the only one where
/// ids are distinct, or nothing where no bookmark has the id.
pub proof fn lemma_position_of(all: Seq<BookmarkView>, id: Seq<char>)
    ensures
        match position_of(all, id) {
            Some(i) => 0 <= i < all.len() && all[i].id == id,
            None => forall|j: int| 0 <= j < all.len() ==> (#[trigger] all[j]).id != id,
        },
    decreases all.len(),
{
    if all.len() > 0 && all.last().id != id {
        lemma_position_of(all.drop_last(), id);
        match position_of(all.drop_last(), id) {
            Some(i) => {
                assert(all.drop_last()[i] == all[i]);
            },
            None => {
                assert forall|j: int| 0 <= j < all.len() implies (#[trigger] all[j]).id != id by {
                    if j < all.len() - 1 {
                        assert(all.drop_last()[j] == all[j]);
                    }
                }
            },
        }
    }
}

/// Lists with the same ids at the same positions have each id at the same
/// position.
pub proof fn lemma_position_by_ids(a: Seq<BookmarkView>, b: Seq<BookmarkView>, id: Seq<char>)
    requires
        a.len() == b.len(),
        forall|j: int| 0 <= j < a.len() ==> (#[trigger] a[j]).id == b[j].id,
    ensures
        position_of(a, id) == position_of(b, id),
    decreases a.len(),
{
    if a.len() > 0 {
        assert(a[a.len() - 1].id == b[a.len() - 1].id);
        if a.last().id != id {
            assert forall|j: int| 0 <= j < a.drop_last().len() implies (#[trigger] a.drop_last()[j]).id
                == b.drop_last()[j].id by {
                assert(a[j].id == b[j].id);
            }
            lemma_position_by_ids(a.drop_last(), b.drop_last(), id);
        }
    }
}

/// Taking one bookmark out of a list changes nothing for the other ids:
/// each is in the list after exactly if it was before.
pub proof fn lemma_position_after_remove(all: Seq<BookmarkView>, i: int, id: Seq<char>)
    requires
        0 <= i < all.len(),
        all[i].id != id,
    ensures
        position_of(all.remove(i), id) is Some <==> position_of(all, id) is Some,
{
    let rest = all.remove(i);
    lemma_position_of(all, id);
    lemma_position_of(rest, id);
    if position_of(all, id) is Some {
        let j = position_of(all, id)->Some_0;
        let k = if j < i {
            j
        } else {
            j - 1
        };
        assert(rest[k] == all[j]);
    }
    if position_of(rest, id) is Some {
        let k = position_of(rest, id)->Some_0;
        let j = if k < i {
            k
        } else {
            k + 1
        };
        assert(all[j] == rest[k]);
    }
}

/// Where ids are distinct, the position that holds an id is the one that
/// a search by the id finds.
pub proof fn lemma_position_unique(all: Seq<BookmarkView>, i: int)
    requires
        distinct_ids(all),
        0 <= i < all.len(),
    ensures
        position_of(all, all[i].id) == Some(i),
{
    lemma_position_of(all, all[i].id);
    let k = position_of(all, all[i].id)->Some_0;
    if k < i {
        assert(all[k].id != all[i].id);
    } else if i < k {
        assert(all[i].id != all[k].id);
    }
}

/// A store that keeps its bookmarks in memory, in the order they came,
/// no two under the same id.
#[derive(Debug)]
pub struct MockBookmarkRepository {
    bookmarks: Vec<Bookmark>,
}

impl View for MockBookmarkRepository {
    type V = Seq<BookmarkView>;

    closed spec fn view(&self) -> Seq<BookmarkView> {
        bookmark_views(self.bookmarks@)
    }
}

impl MockBookmarkRepository {
    /// No two bookmarks of the store have the same id.
    pub open spec fn wf(&self) -> bool {
        distinct_ids(self@)
    }

    /// An empty store.
    pub fn new() -> (r: MockBookmarkRepository)
        ensures
            r@ == Seq::<BookmarkView>::empty(),
            r.wf(),
    {
        let r = MockBookmarkRepository { bookmarks: Vec::new() };
        assert(r@ =~= Seq::<BookmarkView>::empty());
        r
    }

    fn position(&self, id: &str) -> (r: Option<usize>)
        ensures
            match r {
                Some(i) => position_of(self@, id@) == Some(i as int) && i < self.bookmarks.len()
                    && self.bookmarks[i as int]@.id == id@,
                None => position_of(self@, id@) is None,
            },
    {
        let ghost all = self@;
        let mut i: usize = self.bookmarks.len();
        assert(all.subrange(0, i as int) =~= all);
        while i > 0
            invariant
                i <= self.bookmarks.len(),
                all == self@,
                position_of(all, id@) == position_of(all.subrange(0, i as int), id@),
            decreases i,
        {
            assert(all.subrange(0, i as int).last() == self.bookmarks[i - 1]@);
            assert(all.subrange(0, i as int).drop_last() =~= all.subrange(0, i - 1));
            if same_text(self.bookmarks[i - 1].id.as_str(), id) {
                return Some(i - 1);
            }
            i = i - 1;
        }
        None
    }

    /// Stores the bookmark under its id, in place of one that is there
    /// under the same id and at the end otherwise, and returns it.
    pub fn create(&mut self, bookmark: Bookmark) -> (r: BookmarkResult<Bookmark>)
        requires
            old(self).wf(),
        ensures
            final(self).wf(),
            r matches Ok(b) && b@ == bookmark@,
            final(self)@ == (match position_of(old(self)@, bookmark@.id) {
                Some(i) => old(self)@.update(i, bookmark@),
                None => old(self)@.push(bookmark@),
            }),
    {
        let copy = bookmark.clone();
        proof {
            lemma_position_of(self@, bookmark@.id);
        }
        match self.position(bookmark.id.as_str()) {
            Some(i) => {
                self.bookmarks.set(i, bookmark);
                assert(self@ =~= old(self)@.update(i as int, copy@));
                assert forall|a: int, b: int| 0 <= a < b < self@.len() implies (
                #[trigger] self@[a]).id != (#[trigger] self@[b]).id by {
                    assert(old(self)@[a].id != old(self)@[b].id);
                }
            },
            None => {
                self.bookmarks.push(bookmark);
                assert(self@ =~= old(self)@.push(copy@));
                assert forall|a: int, b: int| 0 <= a < b < self@.len() implies (
                #[trigger] self@[a]).id != (#[trigger] self@[b]).id by {
                    if b < old(self)@.len() {
                        assert(old(self)@[a].id != old(self)@[b].id);
                    } else {
                        assert(old(self)@[a].id != copy@.id);
                    }
                }
            },
        }
        Ok(copy)
    }

    fn all(&self) -> (r: Vec<Bookmark>)
        ensures
            bookmark_views(r@) == self@,
    {
        let mut out: Vec<Bookmark> = Vec::new();
        let mut i: usize = 0;
        while i < self.bookmarks.len()
            invariant
                i <= self.bookmarks.len(),
                out.len() == i,
                forall|j: int| 0 <= j < i ==> out[j]@ == self.bookmarks[j]@,
            decreases self.bookmarks.len() - i,
        {
            out.push(self.bookmarks[i].clone());
            i = i + 1;
        }
        assert(bookmark_views(out@) =~= self@);
        out
    }

    /// What the filters select from the bookmarks of the store; all of
    /// them, in the order they came, where no filters are given.
    pub fn find_all(&self, filters: Option<BookmarkFilters>) -> (r: BookmarkResult<Vec<Bookmark>>)
        ensures
            r matches Ok(out) && (match filters {
                Some(f) => selects(self@, f@, bookmark_views(out@)),
                None => bookmark_views(out@) == self@,
            }),
    {
        let all = self.all();
        match filters {
            Some(f) => Ok(apply_filters(all, &f)),
            None => Ok(all),
        }
    }

    /// The bookmark with the id; `NotFound` with the id where there is none.
    pub fn find_by_id(&self, id: &str) -> (r: BookmarkResult<Bookmark>)
        ensures
            match position_of(self@, id@) {
                Some(i) => r matches Ok(b) && b@ == self@[i],
                None => r matches Err(BookmarkError::NotFound(m)) && m@ == id@,
            },
    {
        proof {
            lemma_position_of(self@, id@);
        }
        match self.position(id) {
            Some(i) => {
                assert(self@[i as int] == self.bookmarks[i as int]@);
                Ok(self.bookmarks[i].clone())
            },
            None => Err(BookmarkError::NotFound(String::from_str(id))),
        }
    }

    /// Replaces the stored bookmark of the same id and returns the new
    /// one; `NotFound` with the id where there is none, and nothing changes.
    pub fn update(&mut self, bookmark: Bookmark) -> (r: BookmarkResult<Bookmark>)
        requires
            old(self).wf(),
        ensures
            final(self).wf(),
            match position_of(old(self)@, bookmark@.id) {
                Some(i) => (r matches Ok(b) && b@ == bookmark@) && final(self)@ == old(self)@.update(
                    i,
                    bookmark@,
                ),
                None => (r matches Err(BookmarkError::NotFound(m)) && m@ == bookmark@.id)
                    && final(self)@ == old(self)@,
            },
    {
        proof {
            lemma_position_of(self@, bookmark@.id);
        }
        match self.position(bookmark.id.as_str()) {
            Some(_) => self.create(bookmark),
            None => Err(BookmarkError::NotFound(bookmark.id.clone())),
        }
    }

    /// Removes the bookmark with the id; `NotFound` with the id where
    /// there is none.
    pub fn delete(&mut self, id: &str) -> (r: BookmarkResult<()>)
        requires
            old(self).wf(),
        ensures
            final(self).wf(),
            match position_of(old(self)@, id@) {
                Some(i) => r is Ok && final(self)@ == old(self)@.remove(i) && position_of(
                    final(self)@,
                    id@,
                ) is None,
                None => (r matches Err(BookmarkError::NotFound(m)) && m@ == id@) && final(self)@
                    == old(self)@,
            },
    {
        proof {
            lemma_position_of(self@, id@);
        }
        match self.position(id) {
            Some(i) => {
                self.bookmarks.remove(i);
                proof {
                    assert(self@ =~= old(self)@.remove(i as int));
                    assert forall|a: int, b: int| 0 <= a < b < self@.len() implies (
                    #[trigger] self@[a]).id != (#[trigger] self@[b]).id by {
                        let oa = if a < i {
                            a
                        } else {
                            a + 1
                        };
                        let ob = if b < i {
                            b
                        } else {
                            b + 1
                        };
                        assert(old(self)@[oa].id != old(self)@[ob].id);
                    }
                    lemma_position_of(self@, id@);
                    if let Some(k) = position_of(self@, id@) {
                        let ok = if k < i {
                            k
                        } else {
                            k + 1
                        };
                        assert(old(self)@[ok].id == id@);
                        if ok < i {
                            assert(old(self)@[ok].id != old(self)@[i as int].id);
                        } else {
                            assert(old(self)@[i as int].id != old(self)@[ok].id);
                        }
                    }
                }
                Ok(())
            },
            None => Err(BookmarkError::NotFound(String::from_str(id))),
        }
    }

    /// The bookmarks in whose title, URL, author or notes the query occurs.
    pub fn search_by_text(&self, query: &str) -> (r: BookmarkResult<Vec<Bookmark>>)
        ensures
            r matches Ok(out) && selects(self@, text_only(query@), bookmark_views(out@)),
    {
        let mut f = BookmarkFilters::default();
        f.text_query = Some(String::from_str(query));
        Ok(apply_filters(self.all(), &f))
    }

    /// The bookmarks that have every one of the tags.
    pub fn find_by_tags(&self, tags: &[String]) -> (r: BookmarkResult<Vec<Bookmark>>)
        ensures
            r matches Ok(out) && selects(self@, tags_only(texts(tags@)), bookmark_views(out@)),
    {
        let mut f = BookmarkFilters::default();
        f.tags = Some(copy_text_slice(tags));
        Ok(apply_filters(self.all(), &f))
    }

    /// Appends a new note with the content to the bookmark with the id and
    /// returns the note's id; `NotFound` with the bookmark's id where
    /// there is no such bookmark.
    pub fn add_note(&mut self, bookmark_id: &str, content: &str) -> (r: BookmarkResult<String>)
        requires
            old(self).wf(),
        ensures
            final(self).wf(),
            match position_of(old(self)@, bookmark_id@) {
                Some(i) => r matches Ok(id) && final(self)@.len() == old(self)@.len() && final(self)@[i].notes.len() == old(self)@[i].notes.len() + 1 && final(self)@[i].notes.last().id
                    == id@ && final(self)@[i].notes.last().content == content@ && final(self)@ == old(self)@.update(
                    i,
                    BookmarkView {
                        notes: old(self)@[i].notes.push(final(self)@[i].notes.last()),
                        ..old(self)@[i]
                    },
                ),
                None => (r matches Err(BookmarkError::NotFound(m)) && m@ == bookmark_id@) && final(self)@ == old(self)@,
            },
    {
        proof {
            lemma_position_of(self@, bookmark_id@);
        }
        match self.position(bookmark_id) {
            Some(i) => {
                let mut bookmark = self.bookmarks[i].clone();
                let id = bookmark.add_note(content);
                let ghost changed = bookmark@;
                self.bookmarks.set(i, bookmark);
                proof {
                    assert(self@ =~= old(self)@.update(i as int, changed));
                    assert forall|a: int, b: int| 0 <= a < b < self@.len() implies (
                    #[trigger] self@[a]).id != (#[trigger] self@[b]).id by {
                        assert(old(self)@[a].id != old(self)@[b].id);
                    }
                }
                Ok(id)
            },
            None => Err(BookmarkError::NotFound(String::from_str(bookmark_id))),
        }
    }

    /// Removes the first note with the id from the bookmark with the id;
    /// `NotFound` with the bookmark's id where there is no such bookmark,
    /// and `NotFound` naming the note where the bookmark has no such note.
    pub fn remove_note(&mut self, bookmark_id: &str, note_id: &str) -> (r: BookmarkResult<()>)
        requires
            old(self).wf(),
        ensures
            final(self).wf(),
            match position_of(old(self)@, bookmark_id@) {
                Some(i) => match first_note_with_id(old(self)@[i].notes, note_id@) {
                    Some(k) => r is Ok && final(self)@ == old(self)@.update(
                        i,
                        BookmarkView { notes: old(self)@[i].notes.remove(k), ..old(self)@[i] },
                    ),
                    None => (r matches Err(BookmarkError::NotFound(m)) && m@ == note_missing_text(
                        note_id@,
                    )) && final(self)@ == old(self)@,
                },
                None => (r matches Err(BookmarkError::NotFound(m)) && m@ == bookmark_id@) && final(self)@ == old(self)@,
            },
    {
        proof {
            lemma_position_of(self@, bookmark_id@);
        }
        match self.position(bookmark_id) {
            Some(i) => {
                let mut bookmark = self.bookmarks[i].clone();
                if bookmark.remove_note(note_id) {
                    let ghost changed = bookmark@;
                    self.bookmarks.set(i, bookmark);
                    proof {
                        assert(self@ =~= old(self)@.update(i as int, changed));
                        assert forall|a: int, b: int| 0 <= a < b < self@.len() implies (
                        #[trigger] self@[a]).id != (#[trigger] self@[b]).id by {
                            assert(old(self)@[a].id != old(self)@[b].id);
                        }
                    }
                    Ok(())
                } else {
                    let head = joined("Note ", note_id);
                    Err(BookmarkError::NotFound(joined(head.as_str(), " not found")))
                }
            },
            None => Err(BookmarkError::NotFound(String::from_str(bookmark_id))),
        }
    }

    /// This store has nothing to send: the message is empty.
    pub fn generate_sync_message(&mut self, _peer_id: &str) -> (r: BookmarkResult<Vec<u8>>)
        ensures
            *final(self) == *old(self),
            r matches Ok(m) && m@.len() == 0,
    {
        Ok(Vec::new())
    }

    /// This store merges nothing: nothing changes.
    pub fn apply_sync_message(&mut self, _peer_id: &str, _message: Vec<u8>) -> (r: BookmarkResult<
        bool,
    >)
        ensures
            *final(self) == *old(self),
            r == Ok::<bool, BookmarkError>(false),
    {
        Ok(false)
    }
}

impl BookmarkRepository for MockBookmarkRepository {
    open spec fn usable(&self) -> bool {
        self.wf()
    }

    /// The bookmarks are in memory: queries never fail.
    open spec fn readable(&self) -> bool {
        true
    }

    /// This store takes every bookmark.
    open spec fn accepts(&self, bookmark: BookmarkView) -> bool {
        true
    }

    /// The bookmarks of the store, in the order they came.
    type Content = Seq<BookmarkView>;

    open spec fn content(&self) -> Seq<BookmarkView> {
        self@
    }

    /// This store exchanges nothing, so it has nothing new for any peer.
    open spec fn knows_peer(&self, peer: Seq<char>) -> bool {
        true
    }

    open spec fn message_for(&self, peer: Seq<char>) -> Option<Seq<u8>> {
        None
    }

    open spec fn is_message(&self, bytes: Seq<u8>) -> bool {
        true
    }

    /// This store merges nothing: it holds what it held.
    open spec fn merge(&self, peer: Seq<char>, bytes: Seq<u8>) -> Option<Seq<BookmarkView>> {
        Some(self@)
    }

    open spec fn follows(&self, before: &Self) -> bool {
        true
    }

    open spec fn holds(&self, id: Seq<char>) -> bool {
        position_of(self@, id) is Some
    }

    open spec fn kept(&self, id: Seq<char>) -> Option<BookmarkView> {
        match position_of(self@, id) {
            Some(i) => Some(self@[i]),
            None => None,
        }
    }

    open spec fn lists(&self, listing: Seq<BookmarkView>) -> bool {
        listing == self@
    }

    /// Stores the bookmark under its id, in place of one that is there
    /// under the same id and at the end otherwise. It always succeeds.
    fn create(&mut self, bookmark: Bookmark) -> (r: BookmarkResult<Bookmark>)
        ensures
            r matches Ok(b) && b@ == bookmark@,
            final(self)@ == (match position_of(old(self)@, bookmark@.id) {
                Some(i) => old(self)@.update(i, bookmark@),
                None => old(self)@.push(bookmark@),
            }),
    {
        let ghost before = self@;
        let ghost b = bookmark@;
        let r = MockBookmarkRepository::create(self, bookmark);
        proof {
            lemma_position_of(before, b.id);
            match position_of(before, b.id) {
                Some(i) => {
                    assert(self@[i] == b);
                    lemma_position_unique(self@, i);
                    assert forall|id: Seq<char>| id != b.id implies self.holds(id) == old(
                        self,
                    ).holds(id) by {
                        lemma_position_by_ids(self@, before, id);
                    }
                },
                None => {
                    assert(self@.last() == b);
                    assert(self@.drop_last() =~= before);
                },
            }
        }
        r
    }

    /// What the filters select from the bookmarks of the store; all of
    /// them, in the order they came, where no filters are given. It always
    /// succeeds.
    fn find_all(&self, filters: Option<BookmarkFilters>) -> (r: BookmarkResult<Vec<Bookmark>>)
        ensures
            r matches Ok(out) && (match filters {
                Some(f) => selects(self@, f@, bookmark_views(out@)),
                None => bookmark_views(out@) == self@,
            }),
    {
        let r = MockBookmarkRepository::find_all(self, filters);
        assert(self.lists(self@));
        r
    }

    fn find_by_id(&self, id: &str) -> (r: BookmarkResult<Bookmark>) {
        MockBookmarkRepository::find_by_id(self, id)
    }

    fn update(&mut self, bookmark: Bookmark) -> (r: BookmarkResult<Bookmark>) {
        let ghost before = self@;
        let ghost b = bookmark@;
        let r = MockBookmarkRepository::update(self, bookmark);
        proof {
            lemma_position_of(before, b.id);
            assert forall|id: Seq<char>| self.holds(id) == old(self).holds(id) by {
                lemma_position_by_ids(self@, before, id);
            }
        }
        r
    }

    fn delete(&mut self, id: &str) -> (r: BookmarkResult<()>) {
        let ghost before = self@;
        let r = MockBookmarkRepository::delete(self, id);
        proof {
            lemma_position_of(before, id@);
            assert forall|other: Seq<char>| other != id@ implies self.holds(other) == old(
                self,
            ).holds(other) by {
                match position_of(before, id@) {
                    Some(i) => {
                        lemma_position_after_remove(before, i, other);
                    },
                    None => {},
                }
            }
        }
        r
    }

    /// The bookmarks of the store in which the text occurs. It always
    /// succeeds.
    fn search_by_text(&self, query: &str) -> (r: BookmarkResult<Vec<Bookmark>>)
        ensures
            r matches Ok(out) && selects(self@, text_only(query@), bookmark_views(out@)),
    {
        let r = MockBookmarkRepository::search_by_text(self, query);
        assert(self.lists(self@));
        r
    }

    /// The bookmarks of the store that have every one of the tags. It
    /// always succeeds.
    fn find_by_tags(&self, tags: &[String]) -> (r: BookmarkResult<Vec<Bookmark>>)
        ensures
            r matches Ok(out) && selects(self@, tags_only(texts(tags@)), bookmark_views(out@)),
    {
        let r = MockBookmarkRepository::find_by_tags(self, tags);
        assert(self.lists(self@));
        r
    }

    fn add_note(&mut self, bookmark_id: &str, content: &str) -> (r: BookmarkResult<String>) {
        let ghost before = self@;
        let r = MockBookmarkRepository::add_note(self, bookmark_id, content);
        proof {
            lemma_position_of(before, bookmark_id@);
            assert forall|id: Seq<char>| self.holds(id) == old(self).holds(id) by {
                lemma_position_by_ids(self@, before, id);
            }
        }
        r
    }

    fn remove_note(&mut self, bookmark_id: &str, note_id: &str) -> (r: BookmarkResult<()>) {
        let ghost before = self@;
        let r = MockBookmarkRepository::remove_note(self, bookmark_id, note_id);
        proof {
            lemma_position_of(before, bookmark_id@);
            assert forall|id: Seq<char>| self.holds(id) == old(self).holds(id) by {
                lemma_position_by_ids(self@, before, id);
            }
        }
        r
    }

    /// This store has nothing to send: the message is empty, and nothing
    /// changes.
    fn generate_sync_message(&mut self, peer_id: &str) -> (r: BookmarkResult<Vec<u8>>)
        ensures
            *final(self) == *old(self),
            r matches Ok(m) && m@.len() == 0,
    {
        MockBookmarkRepository::generate_sync_message(self, peer_id)
    }

    /// This store merges nothing: nothing changes, and it says so.
    fn apply_sync_message(&mut self, peer_id: &str, message: Vec<u8>) -> (r: BookmarkResult<bool>)
        ensures
            *final(self) == *old(self),
            r == Ok::<bool, BookmarkError>(false),
    {
        MockBookmarkRepository::apply_sync_message(self, peer_id, message)
    }
}

} // verus!
