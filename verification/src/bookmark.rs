//! Bookmarks, their notes, and the filters a query is made of.

use crate::errors::{BookmarkError, BookmarkResult};
use crate::text::{
    copy_opt_text, copy_texts, joined, lowercase, lowercase_of, opt_text, same_text,
    small_number_text, decimal_of, texts, trim_text, trimmed,
};
use crate::timestamp::Timestamp;
use vstd::prelude::*;

verus! {

/// How far the reader has come with a bookmark.
#[derive(Clone, Copy, Debug, PartialEq, Eq, Structural)]
pub enum ReadingStatus {
    Unread,
    Reading,
    Completed,
}

/// The field a listing is ordered by.
#[derive(Clone, Copy, Debug, PartialEq, Eq, Structural)]
pub enum SortBy {
    BookmarkedDate,
    PublishDate,
    Title,
    Priority,
}

/// The direction a listing is ordered in.
#[derive(Clone, Copy, Debug, PartialEq, Eq, Structural)]
pub enum SortDirection {
    Ascending,
    Descending,
}

/// A remark attached to a bookmark.
#[derive(Debug, PartialEq)]
pub struct Note {
    pub id: String,
    pub content: String,
    pub created_at: Timestamp,
}

/// A saved link with its reading metadata.
#[derive(Debug, PartialEq)]
pub struct Bookmark {
    pub id: String,
    pub url: String,
    pub title: String,
    pub bookmarked_date: Timestamp,
    pub author: Option<String>,
    pub tags: Vec<String>,
    pub publish_date: Option<Timestamp>,
    pub notes: Vec<Note>,
    pub reading_status: ReadingStatus,
    pub priority_rating: Option<u8>,
}

/// What a web page says of itself.
#[derive(Debug, PartialEq)]
pub struct ExtractedMetadata {
    pub title: Option<String>,
    pub author: Option<String>,
    pub publish_date: Option<Timestamp>,
}

/// The conditions and the order of a query. Every field is optional; the
/// conditions that are present must all hold.
#[derive(Debug)]
pub struct BookmarkFilters {
    pub text_query: Option<String>,
    pub tags: Option<Vec<String>>,
    pub reading_status: Option<ReadingStatus>,
    pub priority_range: Option<(u8, u8)>,
    pub bookmarked_since: Option<Timestamp>,
    pub bookmarked_until: Option<Timestamp>,
    pub published_since: Option<Timestamp>,
    pub published_until: Option<Timestamp>,
    pub sort_by: Option<SortBy>,
    pub sort_order: Option<SortDirection>,
}

/// A note as a mathematical value.
pub struct NoteView {
    pub id: Seq<char>,
    pub content: Seq<char>,
    pub created_at: Timestamp,
}

/// A bookmark as a mathematical value.
pub struct BookmarkView {
    pub id: Seq<char>,
    pub url: Seq<char>,
    pub title: Seq<char>,
    pub bookmarked_date: Timestamp,
    pub author: Option<Seq<char>>,
    pub tags: Seq<Seq<char>>,
    pub publish_date: Option<Timestamp>,
    pub notes: Seq<NoteView>,
    pub reading_status: ReadingStatus,
    pub priority_rating: Option<u8>,
}

/// A set of filters as a mathematical value.
pub struct FiltersView {
    pub text_query: Option<Seq<char>>,
    pub tags: Option<Seq<Seq<char>>>,
    pub reading_status: Option<ReadingStatus>,
    pub priority_range: Option<(u8, u8)>,
    pub bookmarked_since: Option<Timestamp>,
    pub bookmarked_until: Option<Timestamp>,
    pub published_since: Option<Timestamp>,
    pub published_until: Option<Timestamp>,
    pub sort_by: Option<SortBy>,
    pub sort_order: Option<SortDirection>,
}

impl View for Note {
    type V = NoteView;

    open spec fn view(&self) -> NoteView {
        NoteView { id: self.id@, content: self.content@, created_at: self.created_at }
    }
}

/// The values of a list of notes.
pub open spec fn note_views(v: Seq<Note>) -> Seq<NoteView> {
    v.map_values(|n: Note| n@)
}

impl View for Bookmark {
    type V = BookmarkView;

    open spec fn view(&self) -> BookmarkView {
        BookmarkView {
            id: self.id@,
            url: self.url@,
            title: self.title@,
            bookmarked_date: self.bookmarked_date,
            author: opt_text(self.author),
            tags: texts(self.tags@),
            publish_date: self.publish_date,
            notes: note_views(self.notes@),
            reading_status: self.reading_status,
            priority_rating: self.priority_rating,
        }
    }
}

/// The values of a list of bookmarks.
pub open spec fn bookmark_views(v: Seq<Bookmark>) -> Seq<BookmarkView> {
    v.map_values(|b: Bookmark| b@)
}

impl View for BookmarkFilters {
    type V = FiltersView;

    open spec fn view(&self) -> FiltersView {
        FiltersView {
            text_query: opt_text(self.text_query),
            tags: match self.tags {
                Some(t) => Some(texts(t@)),
                None => None,
            },
            reading_status: self.reading_status,
            priority_range: self.priority_range,
            bookmarked_since: self.bookmarked_since,
            bookmarked_until: self.bookmarked_until,
            published_since: self.published_since,
            published_until: self.published_until,
            sort_by: self.sort_by,
            sort_order: self.sort_order,
        }
    }
}

/// The filters that let every bookmark through, in stored order.
pub open spec fn no_filters() -> FiltersView {
    FiltersView {
        text_query: None,
        tags: None,
        reading_status: None,
        priority_range: None,
        bookmarked_since: None,
        bookmarked_until: None,
        published_since: None,
        published_until: None,
        sort_by: None,
        sort_order: None,
    }
}

impl Default for BookmarkFilters {
    fn default() -> (r: BookmarkFilters)
        ensures
            r@ == no_filters(),
    {
        BookmarkFilters {
            text_query: None,
            tags: None,
            reading_status: None,
            priority_range: None,
            bookmarked_since: None,
            bookmarked_until: None,
            published_since: None,
            published_until: None,
            sort_by: None,
            sort_order: None,
        }
    }
}

impl Clone for BookmarkFilters {
    fn clone(&self) -> (r: BookmarkFilters)
        ensures
            r@ == self@,
    {
        BookmarkFilters {
            text_query: copy_opt_text(&self.text_query),
            tags: match &self.tags {
                Some(t) => Some(copy_texts(t)),
                None => None,
            },
            reading_status: self.reading_status,
            priority_range: self.priority_range,
            bookmarked_since: self.bookmarked_since,
            bookmarked_until: self.bookmarked_until,
            published_since: self.published_since,
            published_until: self.published_until,
            sort_by: self.sort_by,
            sort_order: self.sort_order,
        }
    }
}

impl Clone for Note {
    fn clone(&self) -> (r: Note)
        ensures
            r@ == self@,
    {
        Note { id: self.id.clone(), content: self.content.clone(), created_at: self.created_at }
    }
}

/// A copy of a list of notes.
pub fn copy_notes(v: &Vec<Note>) -> (r: Vec<Note>)
    ensures
        note_views(r@) == note_views(v@),
{
    let mut out: Vec<Note> = Vec::new();
    let mut i: usize = 0;
    while i < v.len()
        invariant
            i <= v.len(),
            out.len() == i,
            forall|j: int| 0 <= j < i ==> out[j]@ == v[j]@,
        decreases v.len() - i,
    {
        out.push(v[i].clone());
        i = i + 1;
    }
    assert(note_views(out@) =~= note_views(v@));
    out
}

impl Clone for Bookmark {
    fn clone(&self) -> (r: Bookmark)
        ensures
            r@ == self@,
    {
        Bookmark {
            id: self.id.clone(),
            url: self.url.clone(),
            title: self.title.clone(),
            bookmarked_date: self.bookmarked_date,
            author: copy_opt_text(&self.author),
            tags: copy_texts(&self.tags),
            publish_date: self.publish_date,
            notes: copy_notes(&self.notes),
            reading_status: self.reading_status,
            priority_rating: self.priority_rating,
        }
    }
}

impl Clone for ExtractedMetadata {
    fn clone(&self) -> (r: ExtractedMetadata)
        ensures
            opt_text(r.title) == opt_text(self.title),
            opt_text(r.author) == opt_text(self.author),
            r.publish_date == self.publish_date,
    {
        ExtractedMetadata {
            title: copy_opt_text(&self.title),
            author: copy_opt_text(&self.author),
            publish_date: self.publish_date,
        }
    }
}

/// Whether a text is a URL that the `url` crate accepts.
pub uninterp spec fn is_valid_url(text: Seq<char>) -> bool;

/// `url::Url::parse`: whether the text parses as an absolute URL.
#[verifier::external_body]
fn url_parses(text: &str) -> (r: bool)
    ensures
        r == is_valid_url(text@),
{
    url::Url::parse(text).is_ok()
}

/// Whether the text is a URL.
pub fn url_is_valid(text: &str) -> (r: bool)
    ensures
        r == is_valid_url(text@),
{
    url_parses(text)
}

/// `uuid::Uuid::new_v4`, written in its hyphenated form of 36 characters.
/// The value is random; only its length is promised.
#[verifier::external_body]
pub(crate) fn fresh_id() -> (r: String)
    ensures
        r@.len() == 36,
{
    uuid::Uuid::new_v4().to_string()
}

/// The lowercase forms of a list of texts.
pub open spec fn lowercased(tags: Seq<Seq<char>>) -> Seq<Seq<char>> {
    tags.map_values(|t: Seq<char>| lowercase_of(t))
}

/// The position of the first note with the given id.
pub open spec fn first_note_with_id(notes: Seq<NoteView>, id: Seq<char>) -> Option<int>
    decreases notes.len(),
{
    if notes.len() == 0 {
        None
    } else if notes[0].id == id {
        Some(0)
    } else {
        match first_note_with_id(notes.drop_first(), id) {
            Some(i) => Some(i + 1),
            None => None,
        }
    }
}

/// What `first_note_with_id` finds: the first position whose note has the
/// id, or nothing when no note has it.
pub proof fn lemma_first_note_with_id(notes: Seq<NoteView>, id: Seq<char>)
    ensures
        match first_note_with_id(notes, id) {
            Some(i) => 0 <= i < notes.len() && notes[i].id == id && forall|j: int|
                0 <= j < i ==> notes[j].id != id,
            None => forall|j: int| 0 <= j < notes.len() ==> notes[j].id != id,
        },
    decreases notes.len(),
{
    if notes.len() > 0 && notes[0].id != id {
        lemma_first_note_with_id(notes.drop_first(), id);
        match first_note_with_id(notes.drop_first(), id) {
            Some(i) => {
                assert forall|j: int| 0 <= j < i + 1 implies notes[j].id != id by {
                    if j > 0 {
                        assert(notes.drop_first()[j - 1] == notes[j]);
                    }
                }
            },
            None => {
                assert forall|j: int| 0 <= j < notes.len() implies notes[j].id != id by {
                    if j > 0 {
                        assert(notes.drop_first()[j - 1] == notes[j]);
                    }
                }
            },
        }
    }
}

impl Note {
    /// A note with the given content, a new id and the current time, which
    /// can be written as text.
    pub fn new(content: &str) -> (r: Note)
        ensures
            r.content@ == content@,
            r.id@.len() == 36,
            r.created_at.writable(),
    {
        Note { id: fresh_id(), content: String::from_str(content), created_at: Timestamp::now() }
    }
}

impl Bookmark {
    /// A bookmark for `url` under `title`, unread and without tags, notes,
    /// author or rating, with a new id and the current time.
    ///
    /// The title is trimmed and must not be empty; the URL must parse.
    pub fn new(url: &str, title: &str) -> (r: BookmarkResult<Bookmark>)
        ensures
            trimmed(title@).len() == 0 ==> r matches Err(BookmarkError::EmptyTitle),
            trimmed(title@).len() > 0 && !is_valid_url(url@) ==> (r matches Err(
                BookmarkError::InvalidUrl(u),
            ) && u@ == url@),
            trimmed(title@).len() > 0 && is_valid_url(url@) ==> (r matches Ok(b) && b.id@.len()
                == 36 && b.bookmarked_date.writable() && b@ == BookmarkView {
                id: b.id@,
                url: url@,
                title: trimmed(title@),
                bookmarked_date: b.bookmarked_date,
                author: None,
                tags: Seq::empty(),
                publish_date: None,
                notes: Seq::empty(),
                reading_status: ReadingStatus::Unread,
                priority_rating: None,
            }),
    {
        let clean = trim_text(title);
        if clean.as_str().unicode_len() == 0 {
            return Err(BookmarkError::EmptyTitle);
        }
        if !url_parses(url) {
            return Err(BookmarkError::InvalidUrl(String::from_str(url)));
        }
        let b = Bookmark {
            id: fresh_id(),
            url: String::from_str(url),
            title: clean,
            bookmarked_date: Timestamp::now(),
            author: None,
            tags: Vec::new(),
            publish_date: None,
            notes: Vec::new(),
            reading_status: ReadingStatus::Unread,
            priority_rating: None,
        };
        assert(b@.tags =~= Seq::empty());
        assert(b@.notes =~= Seq::empty());
        Ok(b)
    }

    /// The bookmark with its tags replaced by the lowercase forms of `tags`.
    pub fn with_tags(self, tags: Vec<String>) -> (r: Bookmark)
        ensures
            r@ == (BookmarkView { tags: lowercased(texts(tags@)), ..self@ }),
    {
        let mut lowered: Vec<String> = Vec::new();
        let mut i: usize = 0;
        while i < tags.len()
            invariant
                i <= tags.len(),
                lowered.len() == i,
                forall|j: int| 0 <= j < i ==> lowered[j]@ == lowercase_of(tags[j]@),
            decreases tags.len() - i,
        {
            lowered.push(lowercase(tags[i].as_str()));
            i = i + 1;
        }
        assert(texts(lowered@) =~= lowercased(texts(tags@)));
        let mut out = self;
        out.tags = lowered;
        out
    }

    /// The bookmark with the given priority, which must lie between 1 and 5.
    pub fn with_priority(self, priority: u8) -> (r: BookmarkResult<Bookmark>)
        ensures
            1 <= priority <= 5 ==> (r matches Ok(b) && b@ == (BookmarkView {
                priority_rating: Some(priority),
                ..self@
            })),
            !(1 <= priority <= 5) ==> (r matches Err(BookmarkError::InvalidId(m)) && m@
                == "Priority must be between 1 and 5, got "@ + decimal_of(priority)),
    {
        if priority < 1 || priority > 5 {
            let shown = small_number_text(priority);
            return Err(
                BookmarkError::InvalidId(
                    joined("Priority must be between 1 and 5, got ", shown.as_str()),
                ),
            );
        }
        let mut out = self;
        out.priority_rating = Some(priority);
        Ok(out)
    }

    /// Appends a new note with the given content and returns its id.
    pub fn add_note(&mut self, content: &str) -> (id: String)
        ensures
            final(self)@.notes.len() == old(self)@.notes.len() + 1,
            final(self)@.notes.last().id == id@,
            final(self)@.notes.last().content == content@,
            final(self)@ == (BookmarkView {
                notes: old(self)@.notes.push(final(self)@.notes.last()),
                ..old(self)@
            }),
    {
        let note = Note::new(content);
        let id = note.id.clone();
        self.notes.push(note);
        assert(note_views(self.notes@) =~= note_views(old(self).notes@).push(
            self.notes@.last()@,
        ));
        id
    }

    /// Removes the first note with the given id; says whether there was one.
    pub fn remove_note(&mut self, note_id: &str) -> (removed: bool)
        ensures
            removed == (first_note_with_id(old(self)@.notes, note_id@) is Some),
            removed ==> final(self)@ == (BookmarkView {
                notes: old(self)@.notes.remove(
                    first_note_with_id(old(self)@.notes, note_id@)->Some_0,
                ),
                ..old(self)@
            }),
            !removed ==> final(self)@ == old(self)@,
    {
        let mut i: usize = 0;
        while i < self.notes.len()
            invariant
                i <= self.notes.len(),
                *self == *old(self),
                forall|j: int| 0 <= j < i ==> self.notes[j].id@ != note_id@,
            decreases self.notes.len() - i,
        {
            if same_text(self.notes[i].id.as_str(), note_id) {
                proof {
                    lemma_first_note_with_id(self@.notes, note_id@);
                    assert(self@.notes[i as int] == self.notes[i as int]@);
                    assert forall|j: int| 0 <= j < i implies self@.notes[j].id != note_id@ by {
                        assert(self@.notes[j] == self.notes[j]@);
                    }
                }
                self.notes.remove(i);
                assert(note_views(self.notes@) =~= note_views(old(self).notes@).remove(i as int));
                return true;
            }
            i = i + 1;
        }
        proof {
            lemma_first_note_with_id(self@.notes, note_id@);
            assert forall|j: int| 0 <= j < self@.notes.len() implies self@.notes[j].id
                != note_id@ by {
                assert(self@.notes[j] == self.notes[j]@);
            }
        }
        false
    }
}

} // verus!
