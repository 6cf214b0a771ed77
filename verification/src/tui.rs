//! The state of the terminal interface and what each key does to it.
//!
//! Drawing, reading keys and opening a browser are not done here.
//! [`key_request`] changes the state for a key alone and says what is to
//! be done with the store; [`handle_key_event`] does that too, and leaves
//! to the caller what only a terminal or a browser can do.

use crate::bookmark::{
    Bookmark, BookmarkFilters, BookmarkView, FiltersView, bookmark_views, is_valid_url,
};
use crate::errors::{BookmarkError, BookmarkResult};
use crate::filter::selects;
use crate::repository::text_only;
use crate::traits::BookmarkRepository;
use crate::text::{
    count_text, count_to_text, find_char, find_text, first_index, first_occurrence,
    insert_char, joined, lemma_first_index_from, lemma_first_occurrence_from, opt_text, remove_char,
    trim_text, trimmed,
};
use vstd::prelude::*;
use vstd::string::*;

verus! {

/// What the interface shows.
#[derive(Debug, Clone, Copy, PartialEq, Eq, Structural)]
pub enum ViewMode {
    /// The list of bookmarks.
    List,
    /// The selected bookmark in full.
    Detail,
    /// The search input.
    Search,
    /// The input for a new bookmark.
    Add,
    /// The question whether to delete.
    Delete,
}

/// A message to the user.
#[derive(Debug, PartialEq)]
pub enum TuiMessage {
    Success(String),
    Error(String),
    Info(String),
}

impl TuiMessage {
    /// The text of the message.
    pub open spec fn text(self) -> Seq<char> {
        match self {
            TuiMessage::Success(m) => m@,
            TuiMessage::Error(m) => m@,
            TuiMessage::Info(m) => m@,
        }
    }

    /// The text of the message.
    pub fn content(&self) -> (r: &str)
        ensures
            r@ == self.text(),
    {
        match self {
            TuiMessage::Success(m) => m.as_str(),
            TuiMessage::Error(m) => m.as_str(),
            TuiMessage::Info(m) => m.as_str(),
        }
    }
}

impl Clone for TuiMessage {
    fn clone(&self) -> (r: TuiMessage)
        ensures
            r.text() == self.text(),
            r is Success == self is Success,
            r is Error == self is Error,
    {
        match self {
            TuiMessage::Success(m) => TuiMessage::Success(m.clone()),
            TuiMessage::Error(m) => TuiMessage::Error(m.clone()),
            TuiMessage::Info(m) => TuiMessage::Info(m.clone()),
        }
    }
}

/// The keys that each mode understands, in words.
pub fn get_key_hints(mode: &ViewMode) -> (r: &'static str)
    ensures
        r@ == key_hints(*mode),
{
    match mode {
        ViewMode::List => "↑/↓ or j/k: navigate | Enter: details | /: search | a: add | d: delete | q: quit",
        ViewMode::Detail => "Esc: back to list | q: quit",
        ViewMode::Search => "Type to search | Enter: apply search | Esc: cancel",
        ViewMode::Add => "Type URL | Enter: add bookmark | Esc: cancel",
        ViewMode::Delete => "y: confirm delete | any other key: cancel",
    }
}

/// The keys that each mode understands, in words.
pub open spec fn key_hints(mode: ViewMode) -> Seq<char> {
    match mode {
        ViewMode::List => "↑/↓ or j/k: navigate | Enter: details | /: search | a: add | d: delete | q: quit"@,
        ViewMode::Detail => "Esc: back to list | q: quit"@,
        ViewMode::Search => "Type to search | Enter: apply search | Esc: cancel"@,
        ViewMode::Add => "Type URL | Enter: add bookmark | Esc: cancel"@,
        ViewMode::Delete => "y: confirm delete | any other key: cancel"@,
    }
}

/// The title over each mode.
pub fn header_title(mode: &ViewMode) -> (r: &'static str)
    ensures
        r@ == (match *mode {
            ViewMode::List => "Automark - Bookmark Manager"@,
            ViewMode::Detail => "Bookmark Details"@,
            ViewMode::Search => "Search Bookmarks"@,
            ViewMode::Add => "Add New Bookmark"@,
            ViewMode::Delete => "Delete Bookmark"@,
        }),
{
    match mode {
        ViewMode::List => "Automark - Bookmark Manager",
        ViewMode::Detail => "Bookmark Details",
        ViewMode::Search => "Search Bookmarks",
        ViewMode::Add => "Add New Bookmark",
        ViewMode::Delete => "Delete Bookmark",
    }
}

/// The text up to the first occurrence of `sep`, or all of it.
pub open spec fn before_text(s: Seq<char>, sep: Seq<char>) -> Seq<char> {
    match first_occurrence(s, sep) {
        Some(i) => s.subrange(0, i),
        None => s,
    }
}

/// The text up to the first occurrence of `c`, or all of it.
pub open spec fn before_char(s: Seq<char>, c: char) -> Seq<char> {
    match first_index(s, c) {
        Some(i) => s.subrange(0, i),
        None => s,
    }
}

/// The host part of a URL: what stands between the first `://` and the
/// next `://` or `/`. A text without `://` has none.
pub open spec fn domain_of(url: Seq<char>) -> Option<Seq<char>> {
    match first_occurrence(url, "://"@) {
        Some(i) => {
            let rest: Seq<char> = url.subrange(i + 3, url.len() as int);
            Some(before_char(before_text(rest, "://"@), '/'))
        },
        None => None,
    }
}

/// The host part of a URL.
pub fn extract_domain(url: &str) -> (r: Option<String>)
    ensures
        opt_text(r) == domain_of(url@),
{
    proof {
        reveal_strlit("://");
        lemma_first_occurrence_from(url@, "://"@, 0);
    }
    let start = match find_text(url, "://") {
        Some(i) => i,
        None => {
            return None;
        },
    };
    let n = url.unicode_len();
    let rest = url.substring_char(start + 3, n);
    proof {
        lemma_first_occurrence_from(rest@, "://"@, 0);
    }
    let piece = match find_text(rest, "://") {
        Some(p) => rest.substring_char(0, p),
        None => rest,
    };
    proof {
        lemma_first_index_from(piece@, '/', 0);
    }
    let host = match find_char(piece, '/') {
        Some(q) => piece.substring_char(0, q),
        None => piece,
    };
    Some(String::from_str(host))
}

/// The title that a bookmark added by URL alone gets.
pub open spec fn title_for_url(url: Seq<char>) -> Seq<char> {
    match domain_of(url) {
        Some(d) => "Bookmark from "@ + d,
        None => trimmed(url),
    }
}

/// A bookmark for a URL alone, titled after its host.
pub fn bookmark_for_url(url: &str) -> (r: BookmarkResult<Bookmark>)
    ensures
        trimmed(url@).len() == 0 ==> r matches Err(BookmarkError::EmptyTitle),
        trimmed(url@).len() > 0 && !is_valid_url(url@) ==> (r matches Err(
            BookmarkError::InvalidUrl(u),
        ) && u@ == url@),
        trimmed(url@).len() > 0 && is_valid_url(url@) ==> (r matches Ok(b) && b@.url == url@
            && b@.title == title_for_url(url@)),
{
    let mut bookmark = Bookmark::new(url, url)?;
    match extract_domain(url) {
        Some(domain) => {
            bookmark.title = joined("Bookmark from ", domain.as_str());
        },
        None => {},
    }
    Ok(bookmark)
}

/// A key.
#[derive(Debug, Clone, Copy, PartialEq, Eq, Structural)]
pub enum Key {
    Char(char),
    Enter,
    Esc,
    Up,
    Down,
    Left,
    Right,
    Backspace,
    Other,
}

/// A key that was pressed, with or without the control key.
#[derive(Debug, Clone, Copy, PartialEq, Eq, Structural)]
pub struct KeyPress {
    pub key: Key,
    pub control: bool,
}

/// What a key asks for beyond the change of the state.
#[derive(Debug)]
pub enum TuiRequest {
    /// Nothing.
    Nothing,
    /// Open the URL in a browser, then report with [`TuiApp::url_opened`].
    OpenUrl { url: String, title: String },
    /// Fetch the bookmarks under the current filters, then report with
    /// [`TuiApp::refreshed`].
    Refresh,
    /// Fetch the bookmarks under [`TuiApp::search_filters`], then report
    /// with [`TuiApp::search_applied`].
    ApplySearch,
    /// Fetch all bookmarks, then report with [`TuiApp::search_cleared`].
    ClearSearch,
    /// Store a bookmark for the URL, fetch the bookmarks, then report with
    /// [`TuiApp::bookmark_added`] or [`TuiApp::add_failed`].
    AddBookmark { url: String },
    /// Delete the bookmark, fetch the bookmarks, then report with
    /// [`TuiApp::bookmark_deleted`] or [`TuiApp::delete_failed`].
    DeleteBookmark { id: String, title: String },
}

/// What is left to the caller once a key was handled with the store.
#[derive(Debug)]
pub enum TuiOutcome {
    /// Nothing.
    Nothing,
    /// Open the URL in a browser, then report with [`TuiApp::url_opened`].
    OpenUrl { url: String, title: String },
    /// The store was written to.
    Stored,
}

/// The state of the interface.
#[derive(Debug)]
pub struct TuiApp {
    pub mode: ViewMode,
    pub bookmarks: Vec<Bookmark>,
    /// The position of the selected bookmark.
    pub selected_index: Option<usize>,
    pub search_query: String,
    pub filters: Option<BookmarkFilters>,
    pub message: Option<TuiMessage>,
    pub should_quit: bool,
    pub input_buffer: String,
    /// The position of the cursor in the input, counted in characters.
    pub cursor_position: usize,
}

/// The selection after the list of bookmarks was replaced: none in an
/// empty list, the first where there was none or it is past the end, and
/// the same otherwise.
pub open spec fn selection_after(selected: Option<usize>, count: nat) -> Option<usize> {
    if count == 0 {
        None
    } else {
        match selected {
            Some(i) => if i >= count {
                Some(0usize)
            } else {
                selected
            },
            None => Some(0usize),
        }
    }
}

/// The interface as it starts: the list, with the first bookmark selected
/// where there is one, no search, no message and an empty input.
pub open spec fn is_start(app: TuiApp) -> bool {
    &&& app.mode == ViewMode::List
    &&& app.selected_index == (if app.bookmarks.len() > 0 {
        Some(0usize)
    } else {
        None
    })
    &&& app.search_query@.len() == 0
    &&& app.filters is None
    &&& app.message is None
    &&& !app.should_quit
    &&& app.input_buffer@.len() == 0
    &&& app.cursor_position == 0
}

/// The values of the filters, where there are any.
pub open spec fn filters_view(filters: Option<BookmarkFilters>) -> Option<FiltersView> {
    match filters {
        Some(f) => Some(f@),
        None => None,
    }
}

/// The filters that a search input stands for: none where it is blank,
/// else the input as a text query.
pub open spec fn search_view(query: Seq<char>) -> Option<FiltersView> {
    if trimmed(query).len() == 0 {
        None
    } else {
        Some(text_only(query))
    }
}

/// `out` is what a query of the store under the filters may give.
pub open spec fn fetched<R: BookmarkRepository>(
    store: R,
    filters: Option<FiltersView>,
    out: Seq<BookmarkView>,
) -> bool {
    exists|listing: Seq<BookmarkView>| #[trigger]
        store.lists(listing) && (match filters {
            Some(f) => selects(listing, f, out),
            None => out == listing,
        })
}

/// The interface shows other bookmarks than before and is otherwise the
/// same but for the message: the selection stays where it still points at
/// a bookmark and goes to the first, or to none, where it does not.
pub open spec fn relisted(before: TuiApp, after: TuiApp) -> bool {
    after == (TuiApp {
        bookmarks: after.bookmarks,
        selected_index: selection_after(before.selected_index, after.bookmarks.len() as nat),
        message: after.message,
        ..before
    })
}

/// After a refresh: other bookmarks, and a word that says so.
pub open spec fn refresh_shown(before: TuiApp, after: TuiApp) -> bool {
    &&& relisted(before, after)
    &&& after.message matches Some(TuiMessage::Success(m)) && m@ == "Bookmarks refreshed"@
}

/// After a search: the list, with what was found and how many.
pub open spec fn search_shown(before: TuiApp, after: TuiApp) -> bool {
    &&& relisted(
        TuiApp { mode: ViewMode::List, filters: after.filters, ..before },
        after,
    )
    &&& after.message matches Some(TuiMessage::Info(m)) && m@ == "Found "@ + count_text(
        after.bookmarks.len(),
    ) + " bookmarks"@
}

/// After a search was cleared: all bookmarks, no filters, an empty query
/// and a word that says so.
pub open spec fn search_emptied(before: TuiApp, after: TuiApp) -> bool {
    &&& relisted(
        TuiApp { filters: None, search_query: after.search_query, ..before },
        after,
    )
    &&& after.search_query@.len() == 0
    &&& after.message matches Some(TuiMessage::Info(m)) && m@ == "Search cleared"@
}

/// After a bookmark was added: the list, an empty input and the title of
/// what was added.
pub open spec fn addition_shown(before: TuiApp, title: Seq<char>, after: TuiApp) -> bool {
    &&& relisted(
        TuiApp {
            mode: ViewMode::List,
            input_buffer: after.input_buffer,
            cursor_position: 0,
            ..before
        },
        after,
    )
    &&& after.input_buffer@.len() == 0
    &&& after.message matches Some(TuiMessage::Success(m)) && m@ == "Added bookmark: "@ + title
}

/// After a bookmark was deleted: the bookmarks left and the title of what
/// was deleted.
pub open spec fn deletion_shown(before: TuiApp, title: Seq<char>, after: TuiApp) -> bool {
    &&& relisted(before, after)
    &&& after.message matches Some(TuiMessage::Success(m)) && m@ == "Deleted bookmark: "@ + title
}

/// After something failed: the same state with the failure as its message.
pub open spec fn failure_shown(before: TuiApp, text: Seq<char>, after: TuiApp) -> bool {
    &&& after == (TuiApp { message: after.message, ..before })
    &&& after.message matches Some(TuiMessage::Error(m)) && m@ == text
}

impl TuiApp {
    /// The interface over the given bookmarks: the list, with the first
    /// bookmark selected.
    pub fn with_bookmarks(bookmarks: Vec<Bookmark>) -> (r: TuiApp)
        ensures
            r.bookmarks == bookmarks,
            is_start(r),
    {
        let selected_index = if bookmarks.len() > 0 {
            Some(0)
        } else {
            None
        };
        TuiApp {
            mode: ViewMode::List,
            bookmarks,
            selected_index,
            search_query: String::new(),
            filters: None,
            message: None,
            should_quit: false,
            input_buffer: String::new(),
            cursor_position: 0,
        }
    }

    /// The selected bookmark, if one is selected and there.
    pub fn selected_bookmark(&self) -> (r: Option<&Bookmark>)
        ensures
            match self.selected_index {
                Some(i) => if i < self.bookmarks.len() {
                    r == Some(&self.bookmarks[i as int])
                } else {
                    r is None
                },
                None => r is None,
            },
    {
        match self.selected_index {
            Some(i) => {
                if i < self.bookmarks.len() {
                    Some(&self.bookmarks[i])
                } else {
                    None
                }
            },
            None => None,
        }
    }

    /// Selects the bookmark above, going round from the first to the last.
    pub fn navigate_up(&mut self)
        ensures
            *final(self) == (TuiApp {
                selected_index: if old(self).bookmarks.len() == 0 {
                    old(self).selected_index
                } else {
                    match old(self).selected_index {
                        Some(i) => if i == 0 {
                            Some((old(self).bookmarks.len() - 1) as usize)
                        } else {
                            Some((i - 1) as usize)
                        },
                        None => Some((old(self).bookmarks.len() - 1) as usize),
                    }
                },
                ..*old(self)
            }),
    {
        if self.bookmarks.len() == 0 {
            return ;
        }
        let current = match self.selected_index {
            Some(i) => i,
            None => 0,
        };
        let new_index = if current == 0 {
            self.bookmarks.len() - 1
        } else {
            current - 1
        };
        self.selected_index = Some(new_index);
    }

    /// Selects the bookmark below, going round from the last to the first.
    pub fn navigate_down(&mut self)
        ensures
            *final(self) == (TuiApp {
                selected_index: if old(self).bookmarks.len() == 0 {
                    old(self).selected_index
                } else {
                    match old(self).selected_index {
                        Some(i) => if i >= old(self).bookmarks.len() - 1 {
                            Some(0usize)
                        } else {
                            Some((i + 1) as usize)
                        },
                        None => if old(self).bookmarks.len() == 1 {
                            Some(0usize)
                        } else {
                            Some(1usize)
                        },
                    }
                },
                ..*old(self)
            }),
    {
        if self.bookmarks.len() == 0 {
            return ;
        }
        let current = match self.selected_index {
            Some(i) => i,
            None => 0,
        };
        let new_index = if current >= self.bookmarks.len() - 1 {
            0
        } else {
            current + 1
        };
        self.selected_index = Some(new_index);
    }

    /// Shows the message.
    pub fn set_message(&mut self, message: TuiMessage)
        ensures
            *final(self) == (TuiApp { message: Some(message), ..*old(self) }),
    {
        self.message = Some(message);
    }

    /// Takes the message away once it was shown for more than three seconds.
    pub fn update_message(&mut self, shown_for_secs: u64)
        ensures
            *final(self) == (TuiApp {
                message: if shown_for_secs > 3 {
                    None
                } else {
                    old(self).message
                },
                ..*old(self)
            }),
    {
        if shown_for_secs > 3 {
            self.message = None;
        }
    }

    /// Replaces the bookmarks by those fetched and mends the selection.
    pub fn show_bookmarks(&mut self, bookmarks: Vec<Bookmark>)
        ensures
            *final(self) == (TuiApp {
                bookmarks: bookmarks,
                selected_index: selection_after(old(self).selected_index, bookmarks.len() as nat),
                ..*old(self)
            }),
    {
        self.bookmarks = bookmarks;
        if self.bookmarks.len() == 0 {
            self.selected_index = None;
        } else {
            let reset = match self.selected_index {
                Some(i) => i >= self.bookmarks.len(),
                None => true,
            };
            if reset {
                self.selected_index = Some(0);
            }
        }
    }

    /// The filters that the search input stands for: none where it is
    /// blank, else the input as a text query.
    pub fn search_filters(&self) -> (r: Option<BookmarkFilters>)
        ensures
            filters_view(r) == search_view(self.search_query@),
    {
        let clean = trim_text(self.search_query.as_str());
        if clean.as_str().unicode_len() == 0 {
            None
        } else {
            let mut f = BookmarkFilters::default();
            f.text_query = Some(self.search_query.clone());
            Some(f)
        }
    }

    /// Takes the filters of a search and the bookmarks fetched under them,
    /// says how many were found, and goes back to the list.
    pub fn search_applied(&mut self, filters: Option<BookmarkFilters>, bookmarks: Vec<Bookmark>)
        ensures
            final(self).bookmarks == bookmarks,
            final(self).filters == filters,
            search_shown(*old(self), *final(self)),
    {
        self.filters = filters;
        self.show_bookmarks(bookmarks);
        let n = count_to_text(self.bookmarks.len());
        let a = joined("Found ", n.as_str());
        self.message = Some(TuiMessage::Info(joined(a.as_str(), " bookmarks")));
        self.mode = ViewMode::List;
    }

    /// Empties the search, takes all bookmarks as fetched, and says so.
    pub fn search_cleared(&mut self, bookmarks: Vec<Bookmark>)
        ensures
            final(self).bookmarks == bookmarks,
            search_emptied(*old(self), *final(self)),
    {
        self.search_query = String::new();
        self.filters = None;
        self.show_bookmarks(bookmarks);
        self.message = Some(TuiMessage::Info(String::from_str("Search cleared")));
    }

    /// Takes the bookmarks fetched on request and says so.
    pub fn refreshed(&mut self, bookmarks: Vec<Bookmark>)
        ensures
            final(self).bookmarks == bookmarks,
            refresh_shown(*old(self), *final(self)),
    {
        self.show_bookmarks(bookmarks);
        self.message = Some(TuiMessage::Success(String::from_str("Bookmarks refreshed")));
    }

    /// Says how opening a URL went.
    pub fn url_opened(&mut self, title: &str, failure: Option<String>)
        ensures
            *final(self) == (TuiApp { message: final(self).message, ..*old(self) }),
            match failure {
                Some(e) => final(self).message matches Some(TuiMessage::Error(m)) && m@
                    == "Failed to open URL: "@ + e@,
                None => final(self).message matches Some(TuiMessage::Success(m)) && m@ == "Opened: "@
                    + title@,
            },
    {
        match failure {
            Some(e) => {
                self.message = Some(TuiMessage::Error(joined("Failed to open URL: ", e.as_str())));
            },
            None => {
                self.message = Some(TuiMessage::Success(joined("Opened: ", title)));
            },
        }
    }

    /// Takes the bookmarks fetched after one was added, says so, empties
    /// the input and goes back to the list.
    pub fn bookmark_added(&mut self, title: &str, bookmarks: Vec<Bookmark>)
        ensures
            final(self).bookmarks == bookmarks,
            addition_shown(*old(self), title@, *final(self)),
    {
        self.show_bookmarks(bookmarks);
        self.message = Some(TuiMessage::Success(joined("Added bookmark: ", title)));
        self.mode = ViewMode::List;
        self.clear_input();
    }

    /// Says that adding a bookmark failed.
    pub fn add_failed(&mut self, error: &str)
        ensures
            failure_shown(*old(self), "Failed to add bookmark: "@ + error@, *final(self)),
    {
        self.message = Some(TuiMessage::Error(joined("Failed to add bookmark: ", error)));
    }

    /// Takes the bookmarks fetched after one was deleted and says so.
    pub fn bookmark_deleted(&mut self, title: &str, bookmarks: Vec<Bookmark>)
        ensures
            final(self).bookmarks == bookmarks,
            deletion_shown(*old(self), title@, *final(self)),
    {
        self.show_bookmarks(bookmarks);
        self.message = Some(TuiMessage::Success(joined("Deleted bookmark: ", title)));
    }

    /// Says that deleting a bookmark failed.
    pub fn delete_failed(&mut self, error: &str)
        ensures
            failure_shown(*old(self), "Failed to delete bookmark: "@ + error@, *final(self)),
    {
        self.message = Some(TuiMessage::Error(joined("Failed to delete bookmark: ", error)));
    }

    /// The position of the cursor, which is never past the end of the input.
    pub open spec fn cursor(&self) -> int {
        if self.cursor_position <= self.input_buffer@.len() {
            self.cursor_position as int
        } else {
            self.input_buffer@.len() as int
        }
    }

    fn cursor_in_input(&self) -> (r: usize)
        ensures
            r == self.cursor(),
            r <= self.input_buffer@.len(),
    {
        let n = self.input_buffer.as_str().unicode_len();
        if self.cursor_position <= n {
            self.cursor_position
        } else {
            n
        }
    }

    /// Puts the character into the input at the cursor and moves the
    /// cursor behind it.
    pub fn add_char_to_input(&mut self, c: char)
        ensures
            final(self).input_buffer@ == old(self).input_buffer@.insert(old(self).cursor(), c),
            final(self).cursor_position == old(self).cursor() + 1,
            *final(self) == (TuiApp {
                input_buffer: final(self).input_buffer,
                cursor_position: final(self).cursor_position,
                ..*old(self)
            }),
    {
        let at = self.cursor_in_input();
        self.input_buffer = insert_char(self.input_buffer.as_str(), at, c);
        let grown = self.input_buffer.as_str().unicode_len();
        assert(at < grown);
        self.cursor_position = at + 1;
    }

    /// Takes the character before the cursor out of the input and moves
    /// the cursor back; does nothing at the start.
    pub fn remove_char_from_input(&mut self)
        ensures
            old(self).cursor() == 0 ==> *final(self) == *old(self),
            old(self).cursor() > 0 ==> final(self).input_buffer@ == old(self).input_buffer@.remove(
                old(self).cursor() - 1,
            ) && final(self).cursor_position == old(self).cursor() - 1 && *final(self) == (TuiApp {
                input_buffer: final(self).input_buffer,
                cursor_position: final(self).cursor_position,
                ..*old(self)
            }),
    {
        if self.cursor_position > 0 {
            let at = self.cursor_in_input();
            if at > 0 {
                self.input_buffer = remove_char(self.input_buffer.as_str(), at - 1);
                self.cursor_position = at - 1;
            }
        }
    }

    /// Moves the cursor one character back; does nothing at the start.
    pub fn move_cursor_left(&mut self)
        ensures
            *final(self) == (TuiApp {
                cursor_position: if old(self).cursor_position > 0 {
                    (old(self).cursor_position - 1) as usize
                } else {
                    0usize
                },
                ..*old(self)
            }),
    {
        if self.cursor_position > 0 {
            self.cursor_position = self.cursor_position - 1;
        }
    }

    /// Moves the cursor one character on; does nothing at the end.
    pub fn move_cursor_right(&mut self)
        ensures
            *final(self) == (TuiApp {
                cursor_position: if old(self).cursor_position < old(self).input_buffer@.len() {
                    (old(self).cursor_position + 1) as usize
                } else {
                    old(self).cursor_position
                },
                ..*old(self)
            }),
    {
        let n = self.input_buffer.as_str().unicode_len();
        if self.cursor_position < n {
            self.cursor_position = self.cursor_position + 1;
        }
    }

    /// Empties the input.
    pub fn clear_input(&mut self)
        ensures
            final(self).input_buffer@.len() == 0,
            final(self).cursor_position == 0,
            *final(self) == (TuiApp {
                input_buffer: final(self).input_buffer,
                cursor_position: 0,
                ..*old(self)
            }),
    {
        self.input_buffer = String::new();
        self.cursor_position = 0;
    }
}

/// Whether the key is the given letter, small or capital.
pub open spec fn is_letter(key: Key, small: char, capital: char) -> bool {
    key == Key::Char(small) || key == Key::Char(capital)
}

fn letter(key: Key, small: char, capital: char) -> (r: bool)
    ensures
        r == is_letter(key, small, capital),
{
    match key {
        Key::Char(c) => c == small || c == capital,
        _ => false,
    }
}

/// The key is control-c.
pub open spec fn is_interrupt(press: KeyPress) -> bool {
    press.key == Key::Char('c') && press.control
}

/// What a key does in the list.
fn handle_list_mode_keys(press: KeyPress, app: &mut TuiApp) -> (r: TuiRequest)
    requires
        old(app).mode == ViewMode::List,
    ensures
        list_key_effect(*old(app), press, *final(app), r),
{
    let key = press.key;
    if letter(key, 'q', 'Q') {
        app.should_quit = true;
        TuiRequest::Nothing
    } else if letter(key, 'j', 'j') || key == Key::Down {
        app.navigate_down();
        TuiRequest::Nothing
    } else if letter(key, 'k', 'k') || key == Key::Up {
        app.navigate_up();
        TuiRequest::Nothing
    } else if key == Key::Enter {
        match app.selected_bookmark() {
            Some(b) => TuiRequest::OpenUrl { url: b.url.clone(), title: b.title.clone() },
            None => TuiRequest::Nothing,
        }
    } else if letter(key, 'e', 'E') {
        if app.selected_bookmark().is_some() {
            app.mode = ViewMode::Detail;
        }
        TuiRequest::Nothing
    } else if key == Key::Char('/') {
        app.mode = ViewMode::Search;
        app.search_query = String::new();
        TuiRequest::Nothing
    } else if letter(key, 'a', 'A') {
        app.mode = ViewMode::Add;
        app.clear_input();
        TuiRequest::Nothing
    } else if letter(key, 'd', 'D') {
        if app.selected_bookmark().is_some() {
            app.mode = ViewMode::Delete;
        } else {
            app.message = Some(TuiMessage::Error(String::from_str("No bookmark selected")));
        }
        TuiRequest::Nothing
    } else if letter(key, 'r', 'R') {
        TuiRequest::Refresh
    } else if key == Key::Char('c') && press.control {
        app.should_quit = true;
        TuiRequest::Nothing
    } else if key == Key::Esc {
        if app.filters.is_some() {
            TuiRequest::ClearSearch
        } else {
            TuiRequest::Nothing
        }
    } else {
        TuiRequest::Nothing
    }
}

/// Whether a bookmark is selected and there.
pub open spec fn has_selection(app: TuiApp) -> bool {
    app.selected_index matches Some(i) && i < app.bookmarks.len()
}

/// The bookmark that is selected.
pub open spec fn selection(app: TuiApp) -> Bookmark {
    app.bookmarks[app.selected_index->Some_0 as int]
}

/// What a key does in the list: `q` quits; `j` and down, `k` and up move
/// the selection; enter asks to open the selected bookmark; `e` shows it
/// in full; `/` starts a search; `a` starts adding; `d` asks whether to
/// delete the selected bookmark; `r` asks to refresh; control-c quits;
/// escape asks to clear a search that is in force.
pub open spec fn list_key_effect(before: TuiApp, press: KeyPress, after: TuiApp, r: TuiRequest) -> bool {
    let key = press.key;
    if is_letter(key, 'q', 'Q') {
        after == (TuiApp { should_quit: true, ..before }) && r is Nothing
    } else if key == Key::Char('j') || key == Key::Down {
        r is Nothing && after.selected_index == (if before.bookmarks.len() == 0 {
            before.selected_index
        } else {
            match before.selected_index {
                Some(i) => if i >= before.bookmarks.len() - 1 {
                    Some(0usize)
                } else {
                    Some((i + 1) as usize)
                },
                None => if before.bookmarks.len() == 1 {
                    Some(0usize)
                } else {
                    Some(1usize)
                },
            }
        }) && after == (TuiApp { selected_index: after.selected_index, ..before })
    } else if key == Key::Char('k') || key == Key::Up {
        r is Nothing && after.selected_index == (if before.bookmarks.len() == 0 {
            before.selected_index
        } else {
            match before.selected_index {
                Some(i) => if i == 0 {
                    Some((before.bookmarks.len() - 1) as usize)
                } else {
                    Some((i - 1) as usize)
                },
                None => Some((before.bookmarks.len() - 1) as usize),
            }
        }) && after == (TuiApp { selected_index: after.selected_index, ..before })
    } else if key == Key::Enter {
        after == before && (if has_selection(before) {
            r matches TuiRequest::OpenUrl { url, title } && url@ == selection(before).url@ && title@
                == selection(before).title@
        } else {
            r is Nothing
        })
    } else if is_letter(key, 'e', 'E') {
        r is Nothing && after == (TuiApp {
            mode: if has_selection(before) {
                ViewMode::Detail
            } else {
                ViewMode::List
            },
            ..before
        })
    } else if key == Key::Char('/') {
        r is Nothing && after.search_query@.len() == 0 && after == (TuiApp {
            mode: ViewMode::Search,
            search_query: after.search_query,
            ..before
        })
    } else if is_letter(key, 'a', 'A') {
        r is Nothing && after.input_buffer@.len() == 0 && after == (TuiApp {
            mode: ViewMode::Add,
            input_buffer: after.input_buffer,
            cursor_position: 0,
            ..before
        })
    } else if is_letter(key, 'd', 'D') {
        r is Nothing && (if has_selection(before) {
            after == (TuiApp { mode: ViewMode::Delete, ..before })
        } else {
            after == (TuiApp { message: after.message, ..before }) && (
            after.message matches Some(TuiMessage::Error(m)) && m@ == "No bookmark selected"@)
        })
    } else if is_letter(key, 'r', 'R') {
        after == before && r is Refresh
    } else if is_interrupt(press) {
        after == (TuiApp { should_quit: true, ..before }) && r is Nothing
    } else if key == Key::Esc {
        after == before && (if before.filters is Some {
            r is ClearSearch
        } else {
            r is Nothing
        })
    } else {
        after == before && r is Nothing
    }
}

/// What a key does in the full view: `q` and control-c quit; escape and
/// `b` go back to the list.
pub open spec fn detail_key_effect(before: TuiApp, press: KeyPress, after: TuiApp) -> bool {
    let key = press.key;
    if is_letter(key, 'q', 'Q') {
        after == (TuiApp { should_quit: true, ..before })
    } else if key == Key::Esc || key == Key::Char('b') {
        after == (TuiApp { mode: ViewMode::List, ..before })
    } else if is_interrupt(press) {
        after == (TuiApp { should_quit: true, ..before })
    } else {
        after == before
    }
}

fn handle_detail_mode_keys(press: KeyPress, app: &mut TuiApp) -> (r: TuiRequest)
    ensures
        r is Nothing,
        detail_key_effect(*old(app), press, *final(app)),
{
    let key = press.key;
    if letter(key, 'q', 'Q') {
        app.should_quit = true;
    } else if key == Key::Esc || key == Key::Char('b') {
        app.mode = ViewMode::List;
    } else if key == Key::Char('c') && press.control {
        app.should_quit = true;
    }
    TuiRequest::Nothing
}

/// What a key does in the search input: enter asks to apply the search;
/// escape empties it and goes back to the list; control-c quits; any other
/// character is added to the query; backspace takes the last one away.
pub open spec fn search_key_effect(before: TuiApp, press: KeyPress, after: TuiApp, r: TuiRequest) -> bool {
    let key = press.key;
    if key == Key::Enter {
        after == before && r is ApplySearch
    } else if key == Key::Esc {
        r is Nothing && after.search_query@.len() == 0 && after == (TuiApp {
            mode: ViewMode::List,
            search_query: after.search_query,
            ..before
        })
    } else if is_interrupt(press) {
        r is Nothing && after == (TuiApp { should_quit: true, ..before })
    } else if key is Char {
        r is Nothing && after.search_query@ == before.search_query@.push(key->Char_0) && after == (
        TuiApp { search_query: after.search_query, ..before })
    } else if key == Key::Backspace {
        r is Nothing && after.search_query@ == (if before.search_query@.len() > 0 {
            before.search_query@.drop_last()
        } else {
            before.search_query@
        }) && after == (TuiApp { search_query: after.search_query, ..before })
    } else {
        after == before && r is Nothing
    }
}

fn handle_search_mode_keys(press: KeyPress, app: &mut TuiApp) -> (r: TuiRequest)
    ensures
        search_key_effect(*old(app), press, *final(app), r),
{
    let key = press.key;
    match key {
        Key::Enter => TuiRequest::ApplySearch,
        Key::Esc => {
            app.mode = ViewMode::List;
            app.search_query = String::new();
            TuiRequest::Nothing
        },
        Key::Char(c) => {
            if c == 'c' && press.control {
                app.should_quit = true;
            } else {
                let n = app.search_query.as_str().unicode_len();
                app.search_query = insert_char(app.search_query.as_str(), n, c);
                assert(app.search_query@ =~= old(app).search_query@.push(c));
            }
            TuiRequest::Nothing
        },
        Key::Backspace => {
            let n = app.search_query.as_str().unicode_len();
            if n > 0 {
                app.search_query = remove_char(app.search_query.as_str(), n - 1);
                assert(app.search_query@ =~= old(app).search_query@.drop_last());
            }
            TuiRequest::Nothing
        },
        _ => TuiRequest::Nothing,
    }
}

/// What a key does in the input for a new bookmark: enter asks to add the
/// trimmed input as a URL, or complains where it is blank; escape empties
/// the input and goes back to the list; control-c quits; any other
/// character goes into the input at the cursor; backspace takes out the
/// character before the cursor; left and right move the cursor.
pub open spec fn add_key_effect(before: TuiApp, press: KeyPress, after: TuiApp, r: TuiRequest) -> bool {
    let key = press.key;
    if key == Key::Enter {
        if trimmed(before.input_buffer@).len() > 0 {
            after == before && (r matches TuiRequest::AddBookmark { url } && url@ == trimmed(
                before.input_buffer@,
            ))
        } else {
            r is Nothing && after == (TuiApp { message: after.message, ..before }) && (
            after.message matches Some(TuiMessage::Error(m)) && m@ == "URL cannot be empty"@)
        }
    } else if key == Key::Esc {
        r is Nothing && after.input_buffer@.len() == 0 && after == (TuiApp {
            mode: ViewMode::List,
            input_buffer: after.input_buffer,
            cursor_position: 0,
            ..before
        })
    } else if is_interrupt(press) {
        r is Nothing && after == (TuiApp { should_quit: true, ..before })
    } else if key is Char {
        r is Nothing && after.input_buffer@ == before.input_buffer@.insert(
            before.cursor(),
            key->Char_0,
        ) && after.cursor_position == before.cursor() + 1 && after == (TuiApp {
            input_buffer: after.input_buffer,
            cursor_position: after.cursor_position,
            ..before
        })
    } else if key == Key::Backspace {
        r is Nothing && (if before.cursor() > 0 {
            after.input_buffer@ == before.input_buffer@.remove(before.cursor() - 1)
                && after.cursor_position == before.cursor() - 1 && after == (TuiApp {
                input_buffer: after.input_buffer,
                cursor_position: after.cursor_position,
                ..before
            })
        } else {
            after == before
        })
    } else if key == Key::Left {
        r is Nothing && after == (TuiApp {
            cursor_position: if before.cursor_position > 0 {
                (before.cursor_position - 1) as usize
            } else {
                0usize
            },
            ..before
        })
    } else if key == Key::Right {
        r is Nothing && after == (TuiApp {
            cursor_position: if before.cursor_position < before.input_buffer@.len() {
                (before.cursor_position + 1) as usize
            } else {
                before.cursor_position
            },
            ..before
        })
    } else {
        after == before && r is Nothing
    }
}

fn handle_add_mode_keys(press: KeyPress, app: &mut TuiApp) -> (r: TuiRequest)
    ensures
        add_key_effect(*old(app), press, *final(app), r),
{
    let key = press.key;
    match key {
        Key::Enter => {
            let url = trim_text(app.input_buffer.as_str());
            if url.as_str().unicode_len() > 0 {
                TuiRequest::AddBookmark { url }
            } else {
                app.message = Some(TuiMessage::Error(String::from_str("URL cannot be empty")));
                TuiRequest::Nothing
            }
        },
        Key::Esc => {
            app.mode = ViewMode::List;
            app.clear_input();
            TuiRequest::Nothing
        },
        Key::Char(c) => {
            if c == 'c' && press.control {
                app.should_quit = true;
            } else {
                app.add_char_to_input(c);
            }
            TuiRequest::Nothing
        },
        Key::Backspace => {
            app.remove_char_from_input();
            TuiRequest::Nothing
        },
        Key::Left => {
            app.move_cursor_left();
            TuiRequest::Nothing
        },
        Key::Right => {
            app.move_cursor_right();
            TuiRequest::Nothing
        },
        _ => TuiRequest::Nothing,
    }
}

/// What a key does at the question whether to delete: `y` goes back to
/// the list and asks to delete the selected bookmark, where one is
/// selected; control-c quits; any other key goes back to the list.
pub open spec fn delete_key_effect(before: TuiApp, press: KeyPress, after: TuiApp, r: TuiRequest) -> bool {
    let key = press.key;
    if is_letter(key, 'y', 'Y') {
        after == (TuiApp { mode: ViewMode::List, ..before }) && (if has_selection(before) {
            r matches TuiRequest::DeleteBookmark { id, title } && id@ == selection(before).id@
                && title@ == selection(before).title@
        } else {
            r is Nothing
        })
    } else if is_interrupt(press) {
        r is Nothing && after == (TuiApp { should_quit: true, ..before })
    } else {
        r is Nothing && after == (TuiApp { mode: ViewMode::List, ..before })
    }
}

fn handle_delete_mode_keys(press: KeyPress, app: &mut TuiApp) -> (r: TuiRequest)
    ensures
        delete_key_effect(*old(app), press, *final(app), r),
{
    let key = press.key;
    if letter(key, 'y', 'Y') {
        let request = match app.selected_bookmark() {
            Some(b) => TuiRequest::DeleteBookmark { id: b.id.clone(), title: b.title.clone() },
            None => TuiRequest::Nothing,
        };
        app.mode = ViewMode::List;
        request
    } else if key == Key::Char('c') && press.control {
        app.should_quit = true;
        TuiRequest::Nothing
    } else {
        app.mode = ViewMode::List;
        TuiRequest::Nothing
    }
}

/// What a key does in the mode the interface is in.
pub open spec fn key_effect(before: TuiApp, press: KeyPress, after: TuiApp, r: TuiRequest) -> bool {
    match before.mode {
        ViewMode::List => list_key_effect(before, press, after, r),
        ViewMode::Detail => r is Nothing && detail_key_effect(before, press, after),
        ViewMode::Search => search_key_effect(before, press, after, r),
        ViewMode::Add => add_key_effect(before, press, after, r),
        ViewMode::Delete => delete_key_effect(before, press, after, r),
    }
}

/// Handles a key in the mode the interface is in: changes the state and
/// says what is to be done with the store or outside.
pub fn key_request(press: KeyPress, app: &mut TuiApp) -> (r: TuiRequest)
    ensures
        key_effect(*old(app), press, *final(app), r),
{
    match app.mode {
        ViewMode::List => handle_list_mode_keys(press, app),
        ViewMode::Detail => handle_detail_mode_keys(press, app),
        ViewMode::Search => handle_search_mode_keys(press, app),
        ViewMode::Add => handle_add_mode_keys(press, app),
        ViewMode::Delete => handle_delete_mode_keys(press, app),
    }
}

fn copy_filters(filters: &Option<BookmarkFilters>) -> (r: Option<BookmarkFilters>)
    ensures
        filters_view(r) == filters_view(*filters),
{
    match filters {
        Some(f) => Some(f.clone()),
        None => None,
    }
}

impl TuiApp {
    /// The interface over all bookmarks of the store. It fails only where
    /// the store fails to list them.
    pub fn new<R: BookmarkRepository>(repository: &R) -> (r: BookmarkResult<TuiApp>)
        requires
            repository.usable(),
        ensures
            repository.readable() ==> r is Ok,
            r matches Ok(app) ==> is_start(app) && fetched(
                *repository,
                None,
                bookmark_views(app.bookmarks@),
            ),
    {
        let bookmarks = repository.find_all(None)?;
        Ok(TuiApp::with_bookmarks(bookmarks))
    }

    /// Fetches the bookmarks under the current filters and mends the
    /// selection. Where the store fails, nothing changes.
    pub fn refresh_bookmarks<R: BookmarkRepository>(&mut self, repository: &R) -> (r:
        BookmarkResult<()>)
        requires
            repository.usable(),
        ensures
            repository.readable() ==> r is Ok,
            match r {
                Ok(_) => relisted(*old(self), *final(self)) && final(self).message == old(
                    self,
                ).message && fetched(
                    *repository,
                    filters_view(old(self).filters),
                    bookmark_views(final(self).bookmarks@),
                ),
                Err(_) => *final(self) == *old(self),
            },
    {
        let bookmarks = repository.find_all(copy_filters(&self.filters))?;
        self.show_bookmarks(bookmarks);
        Ok(())
    }

    /// Searches the store for the search input and shows what was found.
    /// Where the store fails, nothing changes.
    pub fn apply_search<R: BookmarkRepository>(&mut self, repository: &R) -> (r: BookmarkResult<()>)
        requires
            repository.usable(),
        ensures
            repository.readable() ==> r is Ok,
            match r {
                Ok(_) => search_shown(*old(self), *final(self)) && filters_view(final(self).filters)
                    == search_view(old(self).search_query@) && fetched(
                    *repository,
                    filters_view(final(self).filters),
                    bookmark_views(final(self).bookmarks@),
                ),
                Err(_) => *final(self) == *old(self),
            },
    {
        let filters = self.search_filters();
        let bookmarks = repository.find_all(copy_filters(&filters))?;
        self.search_applied(filters, bookmarks);
        Ok(())
    }

    /// Drops the search and shows all bookmarks of the store. Where the
    /// store fails, nothing changes.
    pub fn clear_search<R: BookmarkRepository>(&mut self, repository: &R) -> (r: BookmarkResult<()>)
        requires
            repository.usable(),
        ensures
            repository.readable() ==> r is Ok,
            match r {
                Ok(_) => search_emptied(*old(self), *final(self)) && fetched(
                    *repository,
                    None,
                    bookmark_views(final(self).bookmarks@),
                ),
                Err(_) => *final(self) == *old(self),
            },
    {
        let bookmarks = repository.find_all(None)?;
        self.search_cleared(bookmarks);
        Ok(())
    }
}

/// Adding a bookmark failed with the error, and the interface says so.
pub open spec fn add_failure(before: TuiApp, e: BookmarkError, after: TuiApp) -> bool {
    failure_shown(before, "Failed to add bookmark: "@ + e.text(), after)
}

/// Deleting a bookmark failed with the error, and the interface says so.
pub open spec fn delete_failure(before: TuiApp, e: BookmarkError, after: TuiApp) -> bool {
    failure_shown(before, "Failed to delete bookmark: "@ + e.text(), after)
}

/// What [`carry_out`] does with a request: to the interface, from `before`
/// to `after`; to the store, from `store` to `stored`; and what it returns.
///
/// Reading leaves the store as it was. A failure of the store on reading
/// is returned, and the interface stays as it was; a failure on writing is
/// shown as a message. What writing does to the store is for the store to
/// say.
pub open spec fn carried_out<R: BookmarkRepository>(
    before: TuiApp,
    request: TuiRequest,
    store: R,
    after: TuiApp,
    stored: R,
    r: BookmarkResult<TuiOutcome>,
) -> bool {
    match request {
        TuiRequest::Nothing => stored == store && after == before && r matches Ok(
            TuiOutcome::Nothing,
        ),
        TuiRequest::OpenUrl { url, title } => stored == store && after == before && (r matches Ok(
            TuiOutcome::OpenUrl { url: u, title: t },
        ) && u == url && t == title),
        TuiRequest::Refresh => stored == store && (match r {
            Ok(o) => o is Nothing && refresh_shown(before, after) && fetched(
                store,
                filters_view(before.filters),
                bookmark_views(after.bookmarks@),
            ),
            Err(_) => after == before,
        }),
        TuiRequest::ApplySearch => stored == store && (match r {
            Ok(o) => o is Nothing && search_shown(before, after) && filters_view(after.filters)
                == search_view(before.search_query@) && fetched(
                store,
                filters_view(after.filters),
                bookmark_views(after.bookmarks@),
            ),
            Err(_) => after == before,
        }),
        TuiRequest::ClearSearch => stored == store && (match r {
            Ok(o) => o is Nothing && search_emptied(before, after) && fetched(
                store,
                None,
                bookmark_views(after.bookmarks@),
            ),
            Err(_) => after == before,
        }),
        TuiRequest::AddBookmark { url } => (match r {
            Ok(TuiOutcome::Stored) => addition_shown(before, title_for_url(url@), after) && fetched(
                stored,
                filters_view(before.filters),
                bookmark_views(after.bookmarks@),
            ),
            Ok(TuiOutcome::Nothing) => exists|e: BookmarkError| #[trigger]
                add_failure(before, e, after),
            Ok(_) => false,
            Err(_) => after == before,
        }) && (trimmed(url@).len() == 0 || !is_valid_url(url@) ==> stored == store && r matches Ok(
            TuiOutcome::Nothing,
        )),
        TuiRequest::DeleteBookmark { id, title } => (match r {
            Ok(TuiOutcome::Stored) => !stored.holds(id@) && deletion_shown(before, title@, after)
                && fetched(stored, filters_view(before.filters), bookmark_views(after.bookmarks@)),
            Ok(TuiOutcome::Nothing) => exists|e: BookmarkError| #[trigger]
                delete_failure(before, e, after),
            Ok(_) => false,
            Err(_) => after == before,
        }) && (forall|other: Seq<char>| other != id@ ==> stored.holds(other) == store.holds(other)),
    }
}

/// Does with the store what a key asked for and shows the result.
pub fn carry_out<R: BookmarkRepository>(
    request: TuiRequest,
    app: &mut TuiApp,
    repository: &mut R,
) -> (r: BookmarkResult<TuiOutcome>)
    requires
        old(repository).usable(),
    ensures
        final(repository).usable(),
        carried_out(*old(app), request, *old(repository), *final(app), *final(repository), r),
{
    match request {
        TuiRequest::Nothing => Ok(TuiOutcome::Nothing),
        TuiRequest::OpenUrl { url, title } => Ok(TuiOutcome::OpenUrl { url, title }),
        TuiRequest::Refresh => {
            let bookmarks = repository.find_all(copy_filters(&app.filters))?;
            app.refreshed(bookmarks);
            Ok(TuiOutcome::Nothing)
        },
        TuiRequest::ApplySearch => {
            app.apply_search(&*repository)?;
            Ok(TuiOutcome::Nothing)
        },
        TuiRequest::ClearSearch => {
            app.clear_search(&*repository)?;
            Ok(TuiOutcome::Nothing)
        },
        TuiRequest::AddBookmark { url } => {
            let made = bookmark_for_url(url.as_str());
            match made {
                Ok(bookmark) => {
                    let added = repository.create(bookmark);
                    match added {
                        Ok(created) => {
                            let bookmarks = repository.find_all(copy_filters(&app.filters))?;
                            app.bookmark_added(created.title.as_str(), bookmarks);
                            Ok(TuiOutcome::Stored)
                        },
                        Err(e) => {
                            app.add_failed(e.to_string().as_str());
                            assert(add_failure(*old(app), e, *app));
                            Ok(TuiOutcome::Nothing)
                        },
                    }
                },
                Err(e) => {
                    app.add_failed(e.to_string().as_str());
                    assert(add_failure(*old(app), e, *app));
                    Ok(TuiOutcome::Nothing)
                },
            }
        },
        TuiRequest::DeleteBookmark { id, title } => {
            let deleted = repository.delete(id.as_str());
            match deleted {
                Ok(_) => {
                    let bookmarks = repository.find_all(copy_filters(&app.filters))?;
                    app.bookmark_deleted(title.as_str(), bookmarks);
                    Ok(TuiOutcome::Stored)
                },
                Err(e) => {
                    app.delete_failed(e.to_string().as_str());
                    assert(delete_failure(*old(app), e, *app));
                    Ok(TuiOutcome::Nothing)
                },
            }
        },
    }
}

/// Handles a key with the store at hand: changes the state as
/// [`key_request`] does, then does what the key asked for as [`carry_out`]
/// does. Opening a URL is left to the caller.
pub fn handle_key_event<R: BookmarkRepository>(
    press: KeyPress,
    app: &mut TuiApp,
    repository: &mut R,
) -> (r: BookmarkResult<TuiOutcome>)
    requires
        old(repository).usable(),
    ensures
        final(repository).usable(),
        exists|mid: TuiApp, request: TuiRequest| #[trigger]
            key_effect(*old(app), press, mid, request) && carried_out(
                mid,
                request,
                *old(repository),
                *final(app),
                *final(repository),
                r,
            ),
{
    let request = key_request(press, app);
    let ghost mid = *app;
    let ghost asked = request;
    let r = carry_out(request, app, repository);
    assert(key_effect(*old(app), press, mid, asked) && carried_out(
        mid,
        asked,
        *old(repository),
        *app,
        *repository,
        r,
    ));
    r
}

} // verus!
