//! The texts in which bookmarks are shown.

use crate::bookmark::{Bookmark, BookmarkView, NoteView, ReadingStatus, bookmark_views};
use crate::commands::{ListCommand, SearchCommand, short_id};
use crate::repository::status_text;
use crate::text::{
    count_text, count_to_text, decimal, decimal_of, join_texts, joined, joined_with, prefix_of,
    small_number_text, texts,
};
use crate::timestamp::{TimeStyle};
use vstd::prelude::*;
use vstd::string::*;

verus! {

/// `n` spaces.
pub open spec fn spaces(n: nat) -> Seq<char> {
    Seq::new(n, |i: int| ' ')
}

/// The text with spaces added at the end up to the given width.
pub open spec fn padded(s: Seq<char>, width: nat) -> Seq<char> {
    if s.len() < width {
        s + spaces((width - s.len()) as nat)
    } else {
        s
    }
}

/// The text with spaces added at the end up to the given width.
pub fn pad_right(s: &str, width: usize) -> (r: String)
    ensures
        r@ == padded(s@, width as nat),
{
    let n = s.unicode_len();
    let mut out = String::from_str(s);
    let mut k: usize = n;
    while k < width
        invariant
            n == s@.len(),
            n <= k,
            k <= width || k == n,
            out@ == s@ + spaces((k - n) as nat),
        decreases width - k,
    {
        out.append(" ");
        proof {
            reveal_strlit(" ");
            assert(" "@ =~= seq![' ']);
            assert(out@ =~= s@ + spaces((k + 1 - n) as nat));
        }
        k = k + 1;
    }
    proof {
        if n >= width {
            assert(k == n);
            assert(spaces(0) =~= Seq::<char>::empty());
            assert(s@ + spaces(0) =~= s@);
        } else {
            assert(k == width);
        }
    }
    out
}

/// The name of a reading status.
pub fn status_name(s: ReadingStatus) -> (r: &'static str)
    ensures
        r@ == status_text(s),
{
    match s {
        ReadingStatus::Unread => "Unread",
        ReadingStatus::Reading => "Reading",
        ReadingStatus::Completed => "Completed",
    }
}

/// One bookmark in the listing of `list`.
pub open spec fn bookmark_text(b: BookmarkView) -> Seq<char> {
    b.title + "\n  URL: "@ + b.url + "\n  Added: "@ + b.bookmarked_date.shown(TimeStyle::Full)
}

/// The numbered entry of a bookmark in the listing of `list`. Between
/// entries stands an empty line.
pub open spec fn list_entry_text(b: BookmarkView, index: int, last: bool) -> Seq<char> {
    count_text((index + 1) as usize) + ". ["@ + short_id(b.id) + "] "@ + bookmark_text(b) + "\n"@ + (
    if last {
        Seq::<char>::empty()
    } else {
        "\n"@
    })
}

/// The heading of a listing of the given number of bookmarks.
pub open spec fn found_text(count: usize) -> Seq<char> {
    "Found "@ + count_text(count) + " bookmark(s):\n\n"@
}

/// The first `n` entries of the listing of `list`, under its heading.
pub open spec fn list_text_upto(all: Seq<BookmarkView>, n: int) -> Seq<char>
    decreases n,
{
    if n <= 0 {
        found_text(all.len() as usize)
    } else {
        list_text_upto(all, n - 1) + list_entry_text(all[n - 1], n - 1, n == all.len())
    }
}

/// The listing of `list`.
pub open spec fn list_text(all: Seq<BookmarkView>) -> Seq<char> {
    if all.len() == 0 {
        "No bookmarks found. Use 'automark add <URL> <TITLE>' to add your first bookmark."@
    } else {
        list_text_upto(all, all.len() as int)
    }
}

impl ListCommand {
    /// One bookmark: title, URL and the time it was added.
    pub fn format_bookmark(&self, bookmark: &Bookmark) -> (r: String)
        ensures
            r@ == bookmark_text(bookmark@),
    {
        let date = bookmark.bookmarked_date.display(TimeStyle::Full);
        let a = joined(bookmark.title.as_str(), "\n  URL: ");
        let b = joined(a.as_str(), bookmark.url.as_str());
        let c = joined(b.as_str(), "\n  Added: ");
        joined(c.as_str(), date.as_str())
    }

    fn list_entry(&self, bookmark: &Bookmark, index: usize, last: bool) -> (r: String)
        requires
            index < usize::MAX,
        ensures
            r@ == list_entry_text(bookmark@, index as int, last),
    {
        let partial = prefix_of(bookmark.id.as_str(), 8);
        let body = self.format_bookmark(bookmark);
        let gap = if last {
            String::new()
        } else {
            String::from_str("\n")
        };
        let mut out = count_to_text(index + 1);
        out.append(". [");
        out.append(partial.as_str());
        out.append("] ");
        out.append(body.as_str());
        out.append("\n");
        out.append(gap.as_str());
        out
    }

    /// The bookmarks, numbered from one, each with the start of its id.
    pub fn format_bookmark_list(&self, bookmarks: &[Bookmark]) -> (r: String)
        ensures
            r@ == list_text(bookmark_views(bookmarks@)),
    {
        if bookmarks.len() == 0 {
            return String::from_str(
                "No bookmarks found. Use 'automark add <URL> <TITLE>' to add your first bookmark.",
            );
        }
        let ghost all = bookmark_views(bookmarks@);
        let count = count_to_text(bookmarks.len());
        let head = joined("Found ", count.as_str());
        let mut out = joined(head.as_str(), " bookmark(s):\n\n");
        let mut i: usize = 0;
        while i < bookmarks.len()
            invariant
                i <= bookmarks.len(),
                all == bookmark_views(bookmarks@),
                out@ == list_text_upto(all, i as int),
            decreases bookmarks.len() - i,
        {
            assert(all[i as int] == bookmarks[i as int]@);
            let entry = self.list_entry(&bookmarks[i], i, i == bookmarks.len() - 1);
            out.append(entry.as_str());
            i = i + 1;
        }
        out
    }
}

/// The words for the tags of a bookmark in a compact listing.
pub open spec fn tags_suffix(b: BookmarkView) -> Seq<char> {
    if b.tags.len() > 0 {
        " | Tags: "@ + joined_with(b.tags, ", "@)
    } else {
        Seq::empty()
    }
}

/// One result of a search.
pub open spec fn result_text(b: BookmarkView, index: int) -> Seq<char> {
    count_text((index + 1) as usize) + ". "@ + b.title + "\n   URL: "@ + b.url + "\n   ID: "@
        + short_id(b.id) + "\n   Status: "@ + status_text(b.reading_status) + (
    match b.priority_rating {
        Some(p) => " | Priority: "@ + decimal_of(p),
        None => Seq::<char>::empty(),
    }) + tags_suffix(b) + (match b.author {
        Some(a) => "\n   Author: "@ + a,
        None => Seq::<char>::empty(),
    }) + (if b.notes.len() > 0 {
        "\n   Notes: "@ + count_text(b.notes.len() as usize) + " note(s)"@
    } else {
        Seq::<char>::empty()
    }) + "\n\n"@
}

/// The first `n` results of a search, under their heading.
pub open spec fn results_text_upto(all: Seq<BookmarkView>, n: int) -> Seq<char>
    decreases n,
{
    if n <= 0 {
        found_text(all.len() as usize)
    } else {
        results_text_upto(all, n - 1) + result_text(all[n - 1], n - 1)
    }
}

/// The results of a search.
pub open spec fn results_text(all: Seq<BookmarkView>) -> Seq<char> {
    if all.len() == 0 {
        "No bookmarks found matching your search criteria."@
    } else {
        results_text_upto(all, all.len() as int)
    }
}

/// The entry of one result of a search.
fn result_entry(b: &Bookmark, index: usize) -> (r: String)
    requires
        index < usize::MAX,
    ensures
        r@ == result_text(b@, index as int),
{
    let number = count_to_text(index + 1);
    let partial = prefix_of(b.id.as_str(), 8);
    let priority = match b.priority_rating {
        Some(p) => {
            let shown = small_number_text(p);
            joined(" | Priority: ", shown.as_str())
        },
        None => String::new(),
    };
    let tags = if b.tags.len() > 0 {
        let listed = join_texts(&b.tags, ", ");
        joined(" | Tags: ", listed.as_str())
    } else {
        String::new()
    };
    let author = match &b.author {
        Some(a) => joined("\n   Author: ", a.as_str()),
        None => String::new(),
    };
    let notes = if b.notes.len() > 0 {
        let n = count_to_text(b.notes.len());
        let head = joined("\n   Notes: ", n.as_str());
        joined(head.as_str(), " note(s)")
    } else {
        String::new()
    };
    let mut out = number;
    out.append(". ");
    out.append(b.title.as_str());
    out.append("\n   URL: ");
    out.append(b.url.as_str());
    out.append("\n   ID: ");
    out.append(partial.as_str());
    out.append("\n   Status: ");
    out.append(status_name(b.reading_status));
    out.append(priority.as_str());
    out.append(tags.as_str());
    out.append(author.as_str());
    out.append(notes.as_str());
    out.append("\n\n");
    out
}

impl SearchCommand {
    /// The results of a search, numbered from one.
    pub fn format_human_output(&self, bookmarks: &[Bookmark]) -> (r: String)
        ensures
            r@ == results_text(bookmark_views(bookmarks@)),
    {
        if bookmarks.len() == 0 {
            return String::from_str("No bookmarks found matching your search criteria.");
        }
        let ghost all = bookmark_views(bookmarks@);
        let count = count_to_text(bookmarks.len());
        let head = joined("Found ", count.as_str());
        let mut out = joined(head.as_str(), " bookmark(s):\n\n");
        let mut i: usize = 0;
        while i < bookmarks.len()
            invariant
                i <= bookmarks.len(),
                all == bookmark_views(bookmarks@),
                out@ == results_text_upto(all, i as int),
            decreases bookmarks.len() - i,
        {
            assert(all[i as int] == bookmarks[i as int]@);
            let entry = result_entry(&bookmarks[i], i);
            out.append(entry.as_str());
            i = i + 1;
        }
        out
    }
}

/// The text of a bookmark as an item of a list: its number, padded to
/// three places, and its title; in full also its URL, its tags where it
/// has any, and the time it was added.
pub open spec fn item_text(b: BookmarkView, index: usize, compact: bool) -> Seq<char> {
    let head: Seq<char> = padded(count_text((index + 1) as usize), 3) + " "@ + b.title;
    if compact {
        head
    } else {
        head + "\n"@ + "    "@ + b.url + "\n"@ + (if b.tags.len() > 0 {
            "    Tags: "@ + joined_with(b.tags, ", "@) + "\n"@
        } else {
            Seq::<char>::empty()
        }) + "    Added: "@ + b.bookmarked_date.shown(TimeStyle::Minutes)
    }
}

/// The text of a bookmark as an item of a list.
pub fn format_bookmark_item(bookmark: &Bookmark, index: usize, compact: bool) -> (r: String)
    requires
        index < usize::MAX,
    ensures
        r@ == item_text(bookmark@, index, compact),
{
    let number = count_to_text(index + 1);
    let mut out = pad_right(number.as_str(), 3);
    out.append(" ");
    out.append(bookmark.title.as_str());
    if compact {
        return out;
    }
    let tags = if bookmark.tags.len() > 0 {
        let listed = join_texts(&bookmark.tags, ", ");
        let a = joined("    Tags: ", listed.as_str());
        joined(a.as_str(), "\n")
    } else {
        String::new()
    };
    let date = bookmark.bookmarked_date.display(TimeStyle::Minutes);
    out.append("\n");
    out.append("    ");
    out.append(bookmark.url.as_str());
    out.append("\n");
    out.append(tags.as_str());
    out.append("    Added: ");
    out.append(date.as_str());
    out
}

/// The line of a bookmark in the list of the interface.
pub open spec fn list_line_text(b: BookmarkView, index: usize, show_details: bool) -> Seq<char> {
    let head: Seq<char> = padded(count_text((index + 1) as usize), 3) + " "@ + b.title + " - "@
        + b.url;
    if show_details {
        head + "\n    Added: "@ + b.bookmarked_date.shown(TimeStyle::Day) + " | Tags: "@ + (
        if b.tags.len() == 0 {
            "none"@
        } else {
            joined_with(b.tags, ", "@)
        })
    } else {
        head
    }
}

/// The line of a bookmark in the list of the interface.
pub fn list_line(bookmark: &Bookmark, index: usize, show_details: bool) -> (r: String)
    requires
        index < usize::MAX,
    ensures
        r@ == list_line_text(bookmark@, index, show_details),
{
    let number = count_to_text(index + 1);
    let mut out = pad_right(number.as_str(), 3);
    out.append(" ");
    out.append(bookmark.title.as_str());
    out.append(" - ");
    out.append(bookmark.url.as_str());
    if show_details {
        let date = bookmark.bookmarked_date.display(TimeStyle::Day);
        let tags = if bookmark.tags.len() == 0 {
            String::from_str("none")
        } else {
            join_texts(&bookmark.tags, ", ")
        };
        out.append("\n    Added: ");
        out.append(date.as_str());
        out.append(" | Tags: ");
        out.append(tags.as_str());
    }
    out
}

/// The words for how many bookmarks are shown.
pub open spec fn info_text(total: usize, filtered: Option<usize>) -> Seq<char> {
    match filtered {
        Some(n) => "Showing "@ + count_text(n) + " of "@ + count_text(total) + " bookmarks"@,
        None => count_text(total) + " bookmarks"@,
    }
}

/// The words for how many bookmarks are shown.
pub fn bookmark_info(total_count: usize, filtered_count: Option<usize>) -> (r: String)
    ensures
        r@ == info_text(total_count, filtered_count),
{
    let total = count_to_text(total_count);
    match filtered_count {
        Some(n) => {
            let shown = count_to_text(n);
            let a = joined("Showing ", shown.as_str());
            let b = joined(a.as_str(), " of ");
            let c = joined(b.as_str(), total.as_str());
            joined(c.as_str(), " bookmarks")
        },
        None => joined(total.as_str(), " bookmarks"),
    }
}

/// The question whether to delete the bookmark with the title.
pub fn delete_question(title: &str) -> (r: String)
    ensures
        r@ == "Delete bookmark '"@ + title@
            + "'?\n\nPress 'y' to confirm, any other key to cancel"@,
{
    let a = joined("Delete bookmark '", title);
    joined(a.as_str(), "'?\n\nPress 'y' to confirm, any other key to cancel")
}

/// The words for the priority of a bookmark.
pub fn priority_words(rating: Option<u8>) -> (r: String)
    ensures
        r@ == priority_words_text(rating),
{
    match rating {
        Some(p) => {
            let shown = small_number_text(p);
            let a = joined("Priority: ", shown.as_str());
            joined(a.as_str(), "/5")
        },
        None => String::from_str("No priority set"),
    }
}

/// The words for the priority of a bookmark.
pub open spec fn priority_words_text(rating: Option<u8>) -> Seq<char> {
    match rating {
        Some(p) => "Priority: "@ + decimal_of(p) + "/5"@,
        None => "No priority set"@,
    }
}

/// What a piece of text on the page of one bookmark stands for; whoever
/// draws the page picks a look for each.
#[derive(Debug, Clone, Copy, PartialEq, Eq, Structural)]
pub enum Tone {
    /// The name of a field.
    Label,
    /// A date or an author.
    Value,
    /// The tags.
    Tags,
    /// The reading status.
    Status,
    /// The priority.
    Priority,
    /// Text as it is.
    Plain,
    /// The heading of a part.
    Heading,
    /// What matters least.
    Faint,
}

/// A piece of a line.
#[derive(Debug)]
pub struct Piece {
    pub text: String,
    pub tone: Tone,
}

/// A piece of a line as a mathematical value.
pub struct PieceView {
    pub text: Seq<char>,
    pub tone: Tone,
}

impl View for Piece {
    type V = PieceView;

    open spec fn view(&self) -> PieceView {
        PieceView { text: self.text@, tone: self.tone }
    }
}

/// A line of the page of one bookmark.
#[derive(Debug)]
pub struct DetailLine {
    pub pieces: Vec<Piece>,
}

impl View for DetailLine {
    type V = Seq<PieceView>;

    open spec fn view(&self) -> Seq<PieceView> {
        self.pieces@.map_values(|p: Piece| p@)
    }
}

/// The values of a list of lines.
pub open spec fn line_views(lines: Seq<DetailLine>) -> Seq<Seq<PieceView>> {
    lines.map_values(|l: DetailLine| l@)
}

/// A piece with the text and the tone.
pub open spec fn piece(text: Seq<char>, tone: Tone) -> PieceView {
    PieceView { text, tone }
}

/// The lines on when a bookmark was added, its tags where it has any, and
/// its status and priority.
pub open spec fn metadata_lines(b: BookmarkView) -> Seq<Seq<PieceView>> {
    let added = seq![
        piece("Added: "@, Tone::Label),
        piece(b.bookmarked_date.shown(TimeStyle::Full), Tone::Value),
    ];
    let status = seq![
        piece("Status: "@, Tone::Label),
        piece(status_text(b.reading_status), Tone::Status),
        piece(" | "@, Tone::Plain),
        piece(priority_words_text(b.priority_rating), Tone::Priority),
    ];
    if b.tags.len() > 0 {
        seq![
            added,
            seq![piece("Tags: "@, Tone::Label), piece(joined_with(b.tags, ", "@), Tone::Tags)],
            status,
        ]
    } else {
        seq![added, status]
    }
}

/// The two lines of the note at a position: its number and content, and
/// when it was added.
pub open spec fn note_lines(notes: Seq<NoteView>, i: int) -> Seq<Seq<PieceView>> {
    seq![
        seq![
            piece(decimal((i + 1) as nat) + ". "@, Tone::Label),
            piece(notes[i].content, Tone::Plain),
        ],
        seq![
            piece("   "@, Tone::Plain),
            piece("Added: "@ + notes[i].created_at.shown(TimeStyle::Minutes), Tone::Faint),
        ],
    ]
}

/// The lines of the first `n` notes.
pub open spec fn notes_lines(notes: Seq<NoteView>, n: int) -> Seq<Seq<PieceView>>
    decreases n,
{
    if n <= 0 {
        Seq::empty()
    } else {
        notes_lines(notes, n - 1) + note_lines(notes, n - 1)
    }
}

/// The lines on the author and the day of publication, as far as they are
/// known.
pub open spec fn origin_lines(b: BookmarkView) -> Seq<Seq<PieceView>> {
    let author = match b.author {
        Some(a) => seq![seq![piece("Author: "@, Tone::Label), piece(a, Tone::Value)]],
        None => Seq::empty(),
    };
    let published = match b.publish_date {
        Some(d) => seq![
            seq![piece("Published: "@, Tone::Label), piece(d.shown(TimeStyle::Day), Tone::Value)],
        ],
        None => Seq::empty(),
    };
    author + published
}

/// The lines below the metadata: author and day of publication, then the
/// notes under a heading, parted from what stands above by an empty line;
/// one line that says so where there is none of these.
pub open spec fn content_lines(b: BookmarkView) -> Seq<Seq<PieceView>> {
    let origin = origin_lines(b);
    if b.notes.len() > 0 {
        let gap = if origin.len() > 0 {
            seq![Seq::<PieceView>::empty()]
        } else {
            Seq::empty()
        };
        origin + gap + seq![seq![piece("Notes:"@, Tone::Heading)]] + notes_lines(
            b.notes,
            b.notes.len() as int,
        )
    } else if origin.len() > 0 {
        origin
    } else {
        seq![seq![piece("No additional information available"@, Tone::Faint)]]
    }
}

fn make_piece(text: String, tone: Tone) -> (r: Piece)
    ensures
        r@ == piece(text@, tone),
{
    Piece { text, tone }
}

fn word(text: &str, tone: Tone) -> (r: Piece)
    ensures
        r@ == piece(text@, tone),
{
    Piece { text: String::from_str(text), tone }
}

fn empty_line() -> (r: DetailLine)
    ensures
        r@ == Seq::<PieceView>::empty(),
{
    let r = DetailLine { pieces: Vec::new() };
    assert(r@ =~= Seq::<PieceView>::empty());
    r
}

fn line_of_one(a: Piece) -> (r: DetailLine)
    ensures
        r@ == seq![a@],
{
    let mut pieces: Vec<Piece> = Vec::new();
    pieces.push(a);
    let r = DetailLine { pieces };
    assert(r@ =~= seq![a@]);
    r
}

fn line_of_two(a: Piece, b: Piece) -> (r: DetailLine)
    ensures
        r@ == seq![a@, b@],
{
    let mut pieces: Vec<Piece> = Vec::new();
    pieces.push(a);
    pieces.push(b);
    let r = DetailLine { pieces };
    assert(r@ =~= seq![a@, b@]);
    r
}

fn add_line(lines: &mut Vec<DetailLine>, line: DetailLine)
    ensures
        line_views(final(lines)@) == line_views(old(lines)@).push(line@),
{
    lines.push(line);
    assert(line_views(lines@) =~= line_views(old(lines)@).push(line@));
}

/// The lines on when a bookmark was added, its tags where it has any, and
/// its status and priority.
pub fn detail_metadata(bookmark: &Bookmark) -> (r: Vec<DetailLine>)
    ensures
        line_views(r@) == metadata_lines(bookmark@),
{
    let mut lines: Vec<DetailLine> = Vec::new();
    assert(line_views(lines@) =~= Seq::<Seq<PieceView>>::empty());
    add_line(
        &mut lines,
        line_of_two(
            word("Added: ", Tone::Label),
            make_piece(bookmark.bookmarked_date.display(TimeStyle::Full), Tone::Value),
        ),
    );
    if bookmark.tags.len() > 0 {
        add_line(
            &mut lines,
            line_of_two(
                word("Tags: ", Tone::Label),
                make_piece(join_texts(&bookmark.tags, ", "), Tone::Tags),
            ),
        );
    }
    let mut pieces: Vec<Piece> = Vec::new();
    pieces.push(word("Status: ", Tone::Label));
    pieces.push(word(status_name(bookmark.reading_status), Tone::Status));
    pieces.push(word(" | ", Tone::Plain));
    pieces.push(make_piece(priority_words(bookmark.priority_rating), Tone::Priority));
    let status = DetailLine { pieces };
    assert(status@ =~= seq![
        piece("Status: "@, Tone::Label),
        piece(status_text(bookmark@.reading_status), Tone::Status),
        piece(" | "@, Tone::Plain),
        piece(priority_words_text(bookmark@.priority_rating), Tone::Priority),
    ]);
    add_line(&mut lines, status);
    assert(line_views(lines@) =~= metadata_lines(bookmark@));
    lines
}

/// The lines below the metadata: author and day of publication, then the
/// notes, or one line that says that there is nothing.
pub fn detail_content(bookmark: &Bookmark) -> (r: Vec<DetailLine>)
    ensures
        line_views(r@) == content_lines(bookmark@),
{
    let mut lines: Vec<DetailLine> = Vec::new();
    assert(line_views(lines@) =~= Seq::<Seq<PieceView>>::empty());
    match &bookmark.author {
        Some(author) => {
            add_line(
                &mut lines,
                line_of_two(word("Author: ", Tone::Label), word(author.as_str(), Tone::Value)),
            );
        },
        None => {},
    }
    match &bookmark.publish_date {
        Some(day) => {
            add_line(
                &mut lines,
                line_of_two(
                    word("Published: ", Tone::Label),
                    make_piece(day.display(TimeStyle::Day), Tone::Value),
                ),
            );
        },
        None => {},
    }
    assert(line_views(lines@) =~= origin_lines(bookmark@));
    let n = bookmark.notes.len();
    if n > 0 {
        if lines.len() > 0 {
            add_line(&mut lines, empty_line());
        }
        add_line(&mut lines, line_of_one(word("Notes:", Tone::Heading)));
        let ghost head = line_views(lines@);
        let mut i: usize = 0;
        while i < n
            invariant
                n == bookmark.notes.len(),
                i <= n,
                line_views(lines@) == head + notes_lines(bookmark@.notes, i as int),
            decreases n - i,
        {
            let note = &bookmark.notes[i];
            let number = count_to_text(i + 1);
            add_line(
                &mut lines,
                line_of_two(
                    make_piece(joined(number.as_str(), ". "), Tone::Label),
                    word(note.content.as_str(), Tone::Plain),
                ),
            );
            let date = note.created_at.display(TimeStyle::Minutes);
            add_line(
                &mut lines,
                line_of_two(
                    word("   ", Tone::Plain),
                    make_piece(joined("Added: ", date.as_str()), Tone::Faint),
                ),
            );
            proof {
                assert(bookmark@.notes[i as int] == note@);
                assert(line_views(lines@) =~= head + (notes_lines(bookmark@.notes, i as int)
                    + note_lines(bookmark@.notes, i as int)));
            }
            i = i + 1;
        }
        assert(line_views(lines@) =~= content_lines(bookmark@));
    } else if lines.len() == 0 {
        add_line(
            &mut lines,
            line_of_one(word("No additional information available", Tone::Faint)),
        );
        assert(line_views(lines@) =~= content_lines(bookmark@));
    }
    lines
}

} // verus!
