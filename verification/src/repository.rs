//! The bookmark store: bookmarks kept in a replicated document.
//!
//! The root of the document holds, under `bookmarks`, a map from bookmark id
//! to one map object per bookmark. That object holds the scalar fields as
//! strings, the tags as a list of strings under `tags`, and the notes as a
//! list of map objects under `notes`.

use crate::bookmark::{
    Bookmark, BookmarkFilters, BookmarkView, FiltersView, Note, NoteView, ReadingStatus,
    bookmark_views, copy_notes, no_filters, note_views,
};
use crate::filter::{apply_filters, selects};
use crate::render::status_name;
use crate::document::{
    Cell, Found, Node, NodeKind, byte_views, cell_at, doc_delete_index, document_heads, doc_delete_key,
    doc_generate_sync, doc_get_index, doc_get_key, doc_heads, doc_insert_object,
    doc_insert_text, doc_keys, doc_length, doc_load, doc_new, doc_nodes, doc_put_object,
    doc_put_text, doc_receive_sync, doc_root, doc_save, document_root, elements, entries,
    document_error_text, error_text, is_list, is_map, is_new_sync_state, is_sync_message,
    key_order, merged, new_sync_state, objects_kept, snapshot_nodes, sync_message,
    sync_state_new,
};
use crate::errors::{BookmarkError, BookmarkResult};
use crate::text::{
    copy_text_slice, copy_texts, decimal_of, joined, lemma_decimal_round_trip, opt_text, parse_small_number, same_text,
    small_number, small_number_text, texts,
};
use crate::timestamp::{Timestamp, rfc3339_value};
use vstd::prelude::*;

verus! {

/// The objects of a document, by id.
pub type Nodes = Map<automerge::ObjId, Node>;

/// The string under `key` in the map object `obj`, if it holds one.
pub open spec fn text_field(nodes: Nodes, obj: automerge::ObjId, key: Seq<char>) -> Option<
    Seq<char>,
> {
    match cell_at(nodes, obj, key) {
        Some(Cell::Text(s)) => Some(s),
        _ => None,
    }
}

/// The strings among the cells of a list, in order.
pub open spec fn texts_in(cells: Seq<Cell>) -> Seq<Seq<char>>
    decreases cells.len(),
{
    if cells.len() == 0 {
        Seq::empty()
    } else {
        let rest: Seq<Seq<char>> = texts_in(cells.drop_last());
        match cells.last() {
            Cell::Text(s) => rest.push(s),
            _ => rest,
        }
    }
}

/// The tags stored for the bookmark object `obj`.
pub open spec fn stored_tags(nodes: Nodes, obj: automerge::ObjId) -> Seq<Seq<char>> {
    match cell_at(nodes, obj, "tags"@) {
        Some(Cell::List(l)) => if is_list(nodes, l) {
            texts_in(elements(nodes, l))
        } else {
            Seq::empty()
        },
        _ => Seq::empty(),
    }
}

/// The note stored in the object `n`, if it decodes as one.
pub open spec fn stored_note(nodes: Nodes, n: automerge::ObjId) -> Option<NoteView> {
    match (
        text_field(nodes, n, "id"@),
        text_field(nodes, n, "content"@),
        text_field(nodes, n, "created_at"@),
    ) {
        (Some(id), Some(content), Some(at)) => match rfc3339_value(at) {
            Some(t) => Some(NoteView { id: id, content: content, created_at: t }),
            None => None,
        },
        _ => None,
    }
}

/// The notes that decode among the cells of a list, in order.
pub open spec fn notes_in(nodes: Nodes, cells: Seq<Cell>) -> Seq<NoteView>
    decreases cells.len(),
{
    if cells.len() == 0 {
        Seq::empty()
    } else {
        let rest: Seq<NoteView> = notes_in(nodes, cells.drop_last());
        match cells.last() {
            Cell::Dict(n) => match stored_note(nodes, n) {
                Some(v) => rest.push(v),
                None => rest,
            },
            _ => rest,
        }
    }
}

/// The notes stored for the bookmark object `obj`.
pub open spec fn stored_notes(nodes: Nodes, obj: automerge::ObjId) -> Seq<NoteView> {
    match cell_at(nodes, obj, "notes"@) {
        Some(Cell::List(l)) => if is_list(nodes, l) {
            notes_in(nodes, elements(nodes, l))
        } else {
            Seq::empty()
        },
        _ => Seq::empty(),
    }
}

/// The reading status that a stored text stands for; anything unknown is
/// read as unread.
pub open spec fn status_of_text(t: Option<Seq<char>>) -> ReadingStatus {
    match t {
        Some(s) => if s == "Reading"@ {
            ReadingStatus::Reading
        } else if s == "Completed"@ {
            ReadingStatus::Completed
        } else {
            ReadingStatus::Unread
        },
        None => ReadingStatus::Unread,
    }
}

/// The text under which a reading status is stored.
pub open spec fn status_text(s: ReadingStatus) -> Seq<char> {
    match s {
        ReadingStatus::Unread => "Unread"@,
        ReadingStatus::Reading => "Reading"@,
        ReadingStatus::Completed => "Completed"@,
    }
}

/// The instant stored as text under `key`, if there is one and it reads.
pub open spec fn stored_date(nodes: Nodes, obj: automerge::ObjId, key: Seq<char>) -> Option<
    Timestamp,
> {
    match text_field(nodes, obj, key) {
        Some(s) => rfc3339_value(s),
        None => None,
    }
}

/// The priority stored for the bookmark object `obj`.
pub open spec fn stored_priority(nodes: Nodes, obj: automerge::ObjId) -> Option<u8> {
    match text_field(nodes, obj, "priority_rating"@) {
        Some(s) => small_number(s),
        None => None,
    }
}

/// The bookmark stored in the object `obj`, if it decodes as one: it must
/// hold an id, a URL, a title and a readable bookmarked date.
pub open spec fn stored_bookmark(nodes: Nodes, obj: automerge::ObjId) -> Option<BookmarkView> {
    match (
        text_field(nodes, obj, "id"@),
        text_field(nodes, obj, "url"@),
        text_field(nodes, obj, "title"@),
        stored_date(nodes, obj, "bookmarked_date"@),
    ) {
        (Some(id), Some(url), Some(title), Some(date)) => Some(
            BookmarkView {
                id: id,
                url: url,
                title: title,
                bookmarked_date: date,
                author: text_field(nodes, obj, "author"@),
                tags: stored_tags(nodes, obj),
                publish_date: stored_date(nodes, obj, "publish_date"@),
                notes: stored_notes(nodes, obj),
                reading_status: status_of_text(text_field(nodes, obj, "reading_status"@)),
                priority_rating: stored_priority(nodes, obj),
            },
        ),
        _ => None,
    }
}

/// The bookmark that a cell of the bookmarks map stands for.
pub open spec fn decode_cell(nodes: Nodes, c: Cell) -> Option<BookmarkView> {
    match c {
        Cell::Dict(o) => stored_bookmark(nodes, o),
        _ => None,
    }
}

/// The bookmark stored under `id` in the map `map`, if there is an entry
/// and it decodes.
pub open spec fn bookmark_at(nodes: Nodes, map: automerge::ObjId, id: Seq<char>) -> Option<
    BookmarkView,
> {
    match cell_at(nodes, map, id) {
        Some(c) => decode_cell(nodes, c),
        None => None,
    }
}

/// The bookmarks that decode under the given keys of `map`, in the order of
/// the keys.
pub open spec fn decoded(nodes: Nodes, map: automerge::ObjId, keys: Seq<Seq<char>>) -> Seq<
    BookmarkView,
>
    decreases keys.len(),
{
    if keys.len() == 0 {
        Seq::empty()
    } else {
        let rest: Seq<BookmarkView> = decoded(nodes, map, keys.drop_last());
        match bookmark_at(nodes, map, keys.last()) {
            Some(b) => rest.push(b),
            None => rest,
        }
    }
}

/// `keys` lists each key of the map `map` exactly once.
pub open spec fn is_listing(nodes: Nodes, map: automerge::ObjId, keys: Seq<Seq<char>>) -> bool {
    keys.no_duplicates() && forall|k: Seq<char>|
        entries(nodes, map).contains_key(k) <==> #[trigger] keys.contains(k)
}

/// `listing` holds the bookmarks of `map` that decode, each once, in the
/// order of some listing of its keys.
pub open spec fn lists_all(nodes: Nodes, map: automerge::ObjId, listing: Seq<BookmarkView>) -> bool {
    exists|keys: Seq<Seq<char>>| #[trigger]
        is_listing(nodes, map, keys) && listing == decoded(nodes, map, keys)
}

/// An error of the storage layer.
fn storage_error(what: &str) -> (r: BookmarkError)
    ensures
        r matches BookmarkError::StorageError(m) && m@ == what@,
{
    BookmarkError::StorageError(String::from_str(what))
}

/// An error of the storage layer: what failed, followed by what the
/// document said of it.
fn document_error(what: &str, e: &automerge::AutomergeError) -> (r: BookmarkError)
    ensures
        r matches BookmarkError::StorageError(m) && m@ == what@ + document_error_text(*e),
{
    let said = error_text(e);
    BookmarkError::StorageError(joined(what, said.as_str()))
}

fn read_text(doc: &automerge::AutoCommit, obj: &automerge::ObjId, key: &str) -> (r: Option<String>)
    requires
        is_map(doc_nodes(*doc), *obj),
    ensures
        opt_text(r) == text_field(doc_nodes(*doc), *obj, key@),
{
    match doc_get_key(doc, obj, key) {
        Ok(Some(Found::Text(s))) => Some(s),
        _ => None,
    }
}

fn read_date(doc: &automerge::AutoCommit, obj: &automerge::ObjId, key: &str) -> (r: Option<
    Timestamp,
>)
    requires
        is_map(doc_nodes(*doc), *obj),
    ensures
        r == stored_date(doc_nodes(*doc), *obj, key@),
{
    match read_text(doc, obj, key) {
        Some(s) => Timestamp::parse_rfc3339(s.as_str()),
        None => None,
    }
}

fn read_status(doc: &automerge::AutoCommit, obj: &automerge::ObjId) -> (r: ReadingStatus)
    requires
        is_map(doc_nodes(*doc), *obj),
    ensures
        r == status_of_text(text_field(doc_nodes(*doc), *obj, "reading_status"@)),
{
    match read_text(doc, obj, "reading_status") {
        Some(s) => {
            if same_text(s.as_str(), "Reading") {
                ReadingStatus::Reading
            } else if same_text(s.as_str(), "Completed") {
                ReadingStatus::Completed
            } else {
                ReadingStatus::Unread
            }
        },
        None => ReadingStatus::Unread,
    }
}

fn read_tags(doc: &automerge::AutoCommit, obj: &automerge::ObjId) -> (r: Vec<String>)
    requires
        is_map(doc_nodes(*doc), *obj),
    ensures
        texts(r@) == stored_tags(doc_nodes(*doc), *obj),
{
    let mut out: Vec<String> = Vec::new();
    let list = match doc_get_key(doc, obj, "tags") {
        Ok(Some(Found::List(l))) => l,
        _ => {
            assert(texts(out@) =~= Seq::empty());
            return out;
        },
    };
    let ghost cells = elements(doc_nodes(*doc), list);
    let n = doc_length(doc, &list);
    let mut i: usize = 0;
    assert(texts(out@) =~= texts_in(cells.subrange(0, 0)));
    while i < n
        invariant
            is_list(doc_nodes(*doc), list),
            cells == elements(doc_nodes(*doc), list),
            n == cells.len(),
            i <= n,
            texts(out@) == texts_in(cells.subrange(0, i as int)),
        decreases n - i,
    {
        assert(cells.subrange(0, i + 1).drop_last() =~= cells.subrange(0, i as int));
        assert(cells.subrange(0, i + 1).last() == cells[i as int]);
        let ghost before = out@;
        match doc_get_index(doc, &list, i) {
            Ok(Some(Found::Text(s))) => {
                out.push(s);
                assert(texts(out@) =~= texts(before).push(s@));
            },
            _ => {},
        }
        i = i + 1;
    }
    assert(cells.subrange(0, n as int) =~= cells);
    out
}

fn read_note(doc: &automerge::AutoCommit, n: &automerge::ObjId) -> (r: Option<Note>)
    requires
        is_map(doc_nodes(*doc), *n),
    ensures
        match stored_note(doc_nodes(*doc), *n) {
            Some(v) => r matches Some(x) && x@ == v,
            None => r is None,
        },
{
    let id = match read_text(doc, n, "id") {
        Some(s) => s,
        None => return None,
    };
    let content = match read_text(doc, n, "content") {
        Some(s) => s,
        None => return None,
    };
    let created_at = match read_date(doc, n, "created_at") {
        Some(t) => t,
        None => return None,
    };
    Some(Note { id, content, created_at })
}

fn read_notes(doc: &automerge::AutoCommit, obj: &automerge::ObjId) -> (r: Vec<Note>)
    requires
        is_map(doc_nodes(*doc), *obj),
    ensures
        note_views(r@) == stored_notes(doc_nodes(*doc), *obj),
{
    let mut out: Vec<Note> = Vec::new();
    let list = match doc_get_key(doc, obj, "notes") {
        Ok(Some(Found::List(l))) => l,
        _ => {
            assert(note_views(out@) =~= Seq::empty());
            return out;
        },
    };
    let ghost nodes = doc_nodes(*doc);
    let ghost cells = elements(nodes, list);
    let n = doc_length(doc, &list);
    let mut i: usize = 0;
    assert(note_views(out@) =~= notes_in(nodes, cells.subrange(0, 0)));
    while i < n
        invariant
            nodes == doc_nodes(*doc),
            is_list(nodes, list),
            cells == elements(nodes, list),
            n == cells.len(),
            i <= n,
            note_views(out@) == notes_in(nodes, cells.subrange(0, i as int)),
        decreases n - i,
    {
        assert(cells.subrange(0, i + 1).drop_last() =~= cells.subrange(0, i as int));
        assert(cells.subrange(0, i + 1).last() == cells[i as int]);
        let ghost before = out@;
        match doc_get_index(doc, &list, i) {
            Ok(Some(Found::Dict(id))) => {
                match read_note(doc, &id) {
                    Some(note) => {
                        out.push(note);
                        assert(note_views(out@) =~= note_views(before).push(note@));
                    },
                    None => {},
                }
            },
            _ => {},
        }
        i = i + 1;
    }
    assert(cells.subrange(0, n as int) =~= cells);
    out
}

fn read_bookmark(doc: &automerge::AutoCommit, obj: &automerge::ObjId) -> (r: BookmarkResult<
    Bookmark,
>)
    requires
        is_map(doc_nodes(*doc), *obj),
    ensures
        match stored_bookmark(doc_nodes(*doc), *obj) {
            Some(v) => r matches Ok(b) && b@ == v,
            None => r matches Err(BookmarkError::StorageError(_)),
        },
{
    let id = match read_text(doc, obj, "id") {
        Some(s) => s,
        None => return Err(storage_error("Bookmark missing id")),
    };
    let url = match read_text(doc, obj, "url") {
        Some(s) => s,
        None => return Err(storage_error("Bookmark missing url")),
    };
    let title = match read_text(doc, obj, "title") {
        Some(s) => s,
        None => return Err(storage_error("Bookmark missing title")),
    };
    let bookmarked_date = match read_date(doc, obj, "bookmarked_date") {
        Some(t) => t,
        None => return Err(storage_error("Bookmark missing bookmarked_date")),
    };
    let author = read_text(doc, obj, "author");
    let publish_date = read_date(doc, obj, "publish_date");
    let reading_status = read_status(doc, obj);
    let priority_rating = match read_text(doc, obj, "priority_rating") {
        Some(s) => parse_small_number(s.as_str()),
        None => None,
    };
    let tags = read_tags(doc, obj);
    let notes = read_notes(doc, obj);
    Ok(
        Bookmark {
            id,
            url,
            title,
            bookmarked_date,
            author,
            tags,
            publish_date,
            notes,
            reading_status,
            priority_rating,
        },
    )
}

/// The cells that hold the given texts.
pub open spec fn text_cells(items: Seq<Seq<char>>) -> Seq<Cell> {
    items.map_values(|t: Seq<char>| Cell::Text(t))
}

/// A list that holds only texts decodes as those texts.
pub proof fn lemma_texts_in_text_cells(items: Seq<Seq<char>>)
    ensures
        texts_in(text_cells(items)) == items,
    decreases items.len(),
{
    if items.len() == 0 {
        assert(texts_in(text_cells(items)) =~= items);
    } else {
        lemma_texts_in_text_cells(items.drop_last());
        assert(text_cells(items).drop_last() =~= text_cells(items.drop_last()));
        assert(text_cells(items).last() == Cell::Text(items.last()));
        assert(items.drop_last().push(items.last()) =~= items);
    }
}

/// The field names are pairwise different.
pub proof fn lemma_field_names()
    ensures
        "id"@.len() == 2,
        "url"@.len() == 3,
        "tags"@.len() == 4,
        "title"@.len() == 5,
        "notes"@.len() == 5,
        "title"@[0] == 't',
        "notes"@[0] == 'n',
        "author"@.len() == 6,
        "content"@.len() == 7,
        "created_at"@.len() == 10,
        "publish_date"@.len() == 12,
        "reading_status"@.len() == 14,
        "bookmarked_date"@.len() == 15,
        "priority_rating"@.len() == 15,
        "bookmarked_date"@[0] == 'b',
        "priority_rating"@[0] == 'p',
{
    reveal_strlit("id");
    reveal_strlit("url");
    reveal_strlit("tags");
    reveal_strlit("title");
    reveal_strlit("notes");
    reveal_strlit("author");
    reveal_strlit("content");
    reveal_strlit("created_at");
    reveal_strlit("publish_date");
    reveal_strlit("reading_status");
    reveal_strlit("bookmarked_date");
    reveal_strlit("priority_rating");
}

/// The texts of the reading statuses are pairwise different.
pub proof fn lemma_status_texts(s: ReadingStatus)
    ensures
        status_of_text(Some(status_text(s))) == s,
{
    reveal_strlit("Unread");
    reveal_strlit("Reading");
    reveal_strlit("Completed");
    assert("Unread"@.len() == 6);
    assert("Reading"@.len() == 7);
    assert("Completed"@.len() == 9);
}

/// The entries of a map after an optional text was written under `key`: a
/// present value is put; an absent one clears the key unless the map is
/// being filled for the first time.
pub open spec fn put_or_clear(
    m: Map<Seq<char>, Cell>,
    key: Seq<char>,
    value: Option<Seq<char>>,
    fresh: bool,
) -> Map<Seq<char>, Cell> {
    match value {
        Some(t) => m.insert(key, Cell::Text(t)),
        None => if fresh {
            m
        } else {
            m.remove(key)
        },
    }
}

/// The decimal text of an optional priority.
pub open spec fn priority_text(p: Option<u8>) -> Option<Seq<char>> {
    match p {
        Some(n) => Some(decimal_of(n)),
        None => None,
    }
}

/// The entries of a bookmark object after its scalar fields were written.
/// The id is written only when the object is filled for the first time.
pub open spec fn scalar_entries(
    m: Map<Seq<char>, Cell>,
    b: BookmarkView,
    date: Seq<char>,
    publish: Option<Seq<char>>,
    fresh: bool,
) -> Map<Seq<char>, Cell> {
    let m1: Map<Seq<char>, Cell> = if fresh {
        m.insert("id"@, Cell::Text(b.id))
    } else {
        m
    };
    let m2: Map<Seq<char>, Cell> = m1.insert("url"@, Cell::Text(b.url)).insert(
        "title"@,
        Cell::Text(b.title),
    ).insert("bookmarked_date"@, Cell::Text(date));
    let m3: Map<Seq<char>, Cell> = put_or_clear(m2, "author"@, b.author, fresh);
    let m4: Map<Seq<char>, Cell> = put_or_clear(m3, "publish_date"@, publish, fresh);
    let m5: Map<Seq<char>, Cell> = m4.insert(
        "reading_status"@,
        Cell::Text(status_text(b.reading_status)),
    );
    put_or_clear(m5, "priority_rating"@, priority_text(b.priority_rating), fresh)
}

/// The entries of a note object.
pub open spec fn note_entries(v: NoteView, date: Seq<char>) -> Map<Seq<char>, Cell> {
    Map::<Seq<char>, Cell>::empty().insert("id"@, Cell::Text(v.id)).insert(
        "content"@,
        Cell::Text(v.content),
    ).insert("created_at"@, Cell::Text(date))
}

/// A note object that holds the entries of a note decodes as that note,
/// where its date reads back.
pub proof fn lemma_note_decodes(nodes: Nodes, n: automerge::ObjId, v: NoteView, date: Seq<char>)
    requires
        is_map(nodes, n),
        entries(nodes, n) == note_entries(v, date),
        rfc3339_value(date) == Some(v.created_at),
    ensures
        stored_note(nodes, n) == Some(v),
{
    lemma_field_names();
}

/// Notes decode alike in two documents that agree on the note objects.
pub proof fn lemma_notes_in_frame(a: Nodes, b: Nodes, cells: Seq<Cell>)
    requires
        forall|j: int|
            0 <= j < cells.len() ==> (#[trigger] cells[j] matches Cell::Dict(n) ==> stored_note(
                a,
                n,
            ) == stored_note(b, n)),
    ensures
        notes_in(a, cells) == notes_in(b, cells),
    decreases cells.len(),
{
    if cells.len() > 0 {
        assert forall|j: int| 0 <= j < cells.drop_last().len() implies (
        #[trigger] cells.drop_last()[j] matches Cell::Dict(n) ==> stored_note(a, n) == stored_note(
            b,
            n,
        )) by {
            assert(cells.drop_last()[j] == cells[j]);
        }
        lemma_notes_in_frame(a, b, cells.drop_last());
        assert(cells.last() == cells[cells.len() - 1]);
    }
}

/// Every object of `before` is an object of `after`, and each but `changed`
/// holds what it held.
pub open spec fn kept_except(before: Nodes, after: Nodes, changed: automerge::ObjId) -> bool {
    forall|x: automerge::ObjId| #[trigger]
        before.contains_key(x) ==> after.contains_key(x) && (x != changed ==> after[x]
            == before[x])
}

fn write_text(doc: &mut automerge::AutoCommit, obj: &automerge::ObjId, key: &str, value: &str) -> (r:
    BookmarkResult<()>)
    requires
        is_map(doc_nodes(*old(doc)), *obj),
    ensures
        r is Ok,
        doc_nodes(*final(doc)) == doc_nodes(*old(doc)).insert(
            *obj,
            Node::Dict(entries(doc_nodes(*old(doc)), *obj).insert(key@, Cell::Text(value@))),
        ),
{
    match doc_put_text(doc, obj, key, value) {
        Ok(()) => Ok(()),
        Err(e) => Err(document_error("Failed to write field: ", &e)),
    }
}

fn write_optional(
    doc: &mut automerge::AutoCommit,
    obj: &automerge::ObjId,
    key: &str,
    value: &Option<String>,
    fresh: bool,
) -> (r: BookmarkResult<()>)
    requires
        is_map(doc_nodes(*old(doc)), *obj),
    ensures
        r is Ok,
        doc_nodes(*final(doc)) == doc_nodes(*old(doc)).insert(
            *obj,
            Node::Dict(put_or_clear(entries(doc_nodes(*old(doc)), *obj), key@, opt_text(*value), fresh)),
        ),
{
    match value {
        Some(v) => write_text(doc, obj, key, v.as_str()),
        None => {
            if fresh {
                assert(doc_nodes(*doc) =~= doc_nodes(*doc).insert(
                    *obj,
                    Node::Dict(entries(doc_nodes(*doc), *obj)),
                ));
                Ok(())
            } else {
                match doc_delete_key(doc, obj, key) {
                    Ok(()) => Ok(()),
                    Err(e) => Err(document_error("Failed to clear field: ", &e)),
                }
            }
        },
    }
}

fn write_scalars(
    doc: &mut automerge::AutoCommit,
    obj: &automerge::ObjId,
    b: &Bookmark,
    date: &str,
    publish: &Option<String>,
    fresh: bool,
) -> (r: BookmarkResult<()>)
    requires
        is_map(doc_nodes(*old(doc)), *obj),
    ensures
        r is Ok,
        doc_nodes(*final(doc)) == doc_nodes(*old(doc)).insert(
            *obj,
            Node::Dict(
                scalar_entries(entries(doc_nodes(*old(doc)), *obj), b@, date@, opt_text(*publish), fresh),
            ),
        ),
{
    let ghost n0 = doc_nodes(*doc);
    let ghost m0 = entries(n0, *obj);
    if fresh {
        write_text(doc, obj, "id", b.id.as_str())?;
    } else {
        assert(n0 =~= n0.insert(*obj, Node::Dict(m0)));
    }
    let ghost m1 = if fresh {
        m0.insert("id"@, Cell::Text(b@.id))
    } else {
        m0
    };
    assert(doc_nodes(*doc) =~= n0.insert(*obj, Node::Dict(m1)));
    write_text(doc, obj, "url", b.url.as_str())?;
    write_text(doc, obj, "title", b.title.as_str())?;
    write_text(doc, obj, "bookmarked_date", date)?;
    let ghost m2 = m1.insert("url"@, Cell::Text(b@.url)).insert("title"@, Cell::Text(b@.title)).insert(
        "bookmarked_date"@,
        Cell::Text(date@),
    );
    assert(doc_nodes(*doc) =~= n0.insert(*obj, Node::Dict(m2)));
    write_optional(doc, obj, "author", &b.author, fresh)?;
    let ghost m3 = put_or_clear(m2, "author"@, b@.author, fresh);
    assert(doc_nodes(*doc) =~= n0.insert(*obj, Node::Dict(m3)));
    write_optional(doc, obj, "publish_date", publish, fresh)?;
    let ghost m4 = put_or_clear(m3, "publish_date"@, opt_text(*publish), fresh);
    assert(doc_nodes(*doc) =~= n0.insert(*obj, Node::Dict(m4)));
    write_text(doc, obj, "reading_status", status_name(b.reading_status))?;
    let ghost m5 = m4.insert("reading_status"@, Cell::Text(status_text(b@.reading_status)));
    assert(doc_nodes(*doc) =~= n0.insert(*obj, Node::Dict(m5)));
    let priority: Option<String> = match b.priority_rating {
        Some(p) => Some(small_number_text(p)),
        None => None,
    };
    write_optional(doc, obj, "priority_rating", &priority, fresh)?;
    assert(opt_text(priority) == priority_text(b@.priority_rating));
    let ghost m6 = put_or_clear(m5, "priority_rating"@, priority_text(b@.priority_rating), fresh);
    assert(doc_nodes(*doc) =~= n0.insert(*obj, Node::Dict(m6)));
    Ok(())
}

/// The entries of a bookmark object after a list was written under `key`:
/// the key names the new list if there is one, and is cleared otherwise
/// unless the object is being filled for the first time.
pub open spec fn list_entries(
    m: Map<Seq<char>, Cell>,
    key: Seq<char>,
    list: Option<automerge::ObjId>,
    fresh: bool,
) -> Map<Seq<char>, Cell> {
    let base: Map<Seq<char>, Cell> = if fresh {
        m
    } else {
        m.remove(key)
    };
    match list {
        Some(l) => base.insert(key, Cell::List(l)),
        None => base,
    }
}

/// What writing the tags of a bookmark object does to a document.
pub open spec fn tags_written(
    before: Nodes,
    after: Nodes,
    obj: automerge::ObjId,
    tags: Seq<Seq<char>>,
    fresh: bool,
    list: Option<automerge::ObjId>,
) -> bool {
    if tags.len() == 0 {
        list is None && after == before.insert(
            obj,
            Node::Dict(list_entries(entries(before, obj), "tags"@, None, fresh)),
        )
    } else {
        list matches Some(l) && !before.contains_key(l) && after == before.insert(
            obj,
            Node::Dict(list_entries(entries(before, obj), "tags"@, Some(l), fresh)),
        ).insert(l, Node::List(text_cells(tags)))
    }
}

/// What writing the notes of a bookmark object does to a document. The
/// notes decode as they were written where each date text reads back.
pub open spec fn notes_written(
    before: Nodes,
    after: Nodes,
    obj: automerge::ObjId,
    notes: Seq<NoteView>,
    dates: Seq<Seq<char>>,
    fresh: bool,
    list: Option<automerge::ObjId>,
) -> bool {
    &&& is_map(after, obj)
    &&& kept_except(before, after, obj)
    &&& entries(after, obj) == list_entries(entries(before, obj), "notes"@, list, fresh)
    &&& notes.len() == 0 <==> list is None
    &&& list matches Some(l) ==> !before.contains_key(l) && is_list(after, l) && elements(
        after,
        l,
    ).len() == notes.len() && (dates_read_as(dates, notes) ==> notes_in(after, elements(after, l))
        == notes)
}

/// Each date text reads back as the date of the note at its position.
pub open spec fn dates_read_as(dates: Seq<Seq<char>>, notes: Seq<NoteView>) -> bool {
    dates.len() == notes.len() && forall|i: int|
        0 <= i < notes.len() ==> rfc3339_value(#[trigger] dates[i]) == Some(notes[i].created_at)
}

fn write_tags(
    doc: &mut automerge::AutoCommit,
    obj: &automerge::ObjId,
    tags: &Vec<String>,
    fresh: bool,
) -> (r: BookmarkResult<Ghost<Option<automerge::ObjId>>>)
    requires
        is_map(doc_nodes(*old(doc)), *obj),
    ensures
        r matches Ok(list) && tags_written(
            doc_nodes(*old(doc)),
            doc_nodes(*final(doc)),
            *obj,
            texts(tags@),
            fresh,
            list@,
        ),
{
    let ghost n0 = doc_nodes(*doc);
    let ghost m0 = entries(n0, *obj);
    if !fresh {
        match doc_delete_key(doc, obj, "tags") {
            Ok(()) => {},
            Err(e) => {
                return Err(document_error("Failed to clear tags: ", &e));
            },
        }
    } else {
        assert(n0 =~= n0.insert(*obj, Node::Dict(m0)));
    }
    let ghost base = list_entries(m0, "tags"@, None, fresh);
    assert(doc_nodes(*doc) =~= n0.insert(*obj, Node::Dict(base)));
    if tags.len() == 0 {
        return Ok(Ghost(None));
    }
    let list = match doc_put_object(doc, obj, "tags", NodeKind::List) {
        Ok(l) => l,
        Err(e) => {
            return Err(document_error("Failed to create tags list: ", &e));
        },
    };
    let ghost with_list = n0.insert(
        *obj,
        Node::Dict(list_entries(m0, "tags"@, Some(list), fresh)),
    );
    assert(doc_nodes(*doc) =~= with_list.insert(list, Node::List(Seq::empty())));
    let ghost all = texts(tags@);
    assert(text_cells(all.subrange(0, 0)) =~= Seq::<Cell>::empty());
    let mut i: usize = 0;
    while i < tags.len()
        invariant
            i <= tags.len(),
            all == texts(tags@),
            list != *obj,
            doc_nodes(*doc) == with_list.insert(list, Node::List(text_cells(all.subrange(0, i as int)))),
        decreases tags.len() - i,
    {
        let at = doc_length(doc, &list);
        match doc_insert_text(doc, &list, at, tags[i].as_str()) {
            Ok(()) => {},
            Err(e) => {
                return Err(document_error("Failed to add tag: ", &e));
            },
        }
        assert(text_cells(all.subrange(0, i as int)).insert(i as int, Cell::Text(tags[i as int]@))
            =~= text_cells(all.subrange(0, i + 1)));
        assert(doc_nodes(*doc) =~= with_list.insert(
            list,
            Node::List(text_cells(all.subrange(0, i + 1))),
        ));
        i = i + 1;
    }
    assert(all.subrange(0, tags.len() as int) =~= all);
    Ok(Ghost(Some(list)))
}

/// What adding one note object at the end of a list does to a document.
pub open spec fn note_appended(
    before: Nodes,
    after: Nodes,
    list: automerge::ObjId,
    n: automerge::ObjId,
    v: NoteView,
    date: Seq<char>,
) -> bool {
    !before.contains_key(n) && after == before.insert(
        list,
        Node::List(elements(before, list).push(Cell::Dict(n))),
    ).insert(n, Node::Dict(note_entries(v, date)))
}

fn write_note(
    doc: &mut automerge::AutoCommit,
    list: &automerge::ObjId,
    note: &Note,
    date: &str,
) -> (r: BookmarkResult<Ghost<automerge::ObjId>>)
    requires
        is_list(doc_nodes(*old(doc)), *list),
    ensures
        r matches Ok(n) && note_appended(
            doc_nodes(*old(doc)),
            doc_nodes(*final(doc)),
            *list,
            n@,
            note@,
            date@,
        ),
{
    let ghost n0 = doc_nodes(*doc);
    let ghost cells = elements(n0, *list);
    let at = doc_length(doc, list);
    let n = match doc_insert_object(doc, list, at, NodeKind::Dict) {
        Ok(n) => n,
        Err(e) => {
            return Err(document_error("Failed to create note object: ", &e));
        },
    };
    assert(cells.insert(at as int, Cell::Dict(n)) =~= cells.push(Cell::Dict(n)));
    let ghost grown = n0.insert(*list, Node::List(cells.push(Cell::Dict(n))));
    let ghost e0 = Map::<Seq<char>, Cell>::empty();
    assert(doc_nodes(*doc) =~= grown.insert(n, Node::Dict(e0)));
    write_text(doc, &n, "id", note.id.as_str())?;
    assert(doc_nodes(*doc) =~= grown.insert(n, Node::Dict(e0.insert("id"@, Cell::Text(note@.id)))));
    write_text(doc, &n, "content", note.content.as_str())?;
    assert(doc_nodes(*doc) =~= grown.insert(
        n,
        Node::Dict(
            e0.insert("id"@, Cell::Text(note@.id)).insert("content"@, Cell::Text(note@.content)),
        ),
    ));
    write_text(doc, &n, "created_at", date)?;
    assert(doc_nodes(*doc) =~= grown.insert(n, Node::Dict(note_entries(note@, date@))));
    Ok(Ghost(n))
}

fn write_notes(
    doc: &mut automerge::AutoCommit,
    obj: &automerge::ObjId,
    notes: &Vec<Note>,
    dates: &Vec<String>,
    fresh: bool,
) -> (r: BookmarkResult<Ghost<Option<automerge::ObjId>>>)
    requires
        is_map(doc_nodes(*old(doc)), *obj),
        dates.len() == notes.len(),
    ensures
        r matches Ok(list) && notes_written(
            doc_nodes(*old(doc)),
            doc_nodes(*final(doc)),
            *obj,
            note_views(notes@),
            texts(dates@),
            fresh,
            list@,
        ),
{
    let ghost n0 = doc_nodes(*doc);
    let ghost m0 = entries(n0, *obj);
    if !fresh {
        match doc_delete_key(doc, obj, "notes") {
            Ok(()) => {},
            Err(e) => {
                return Err(document_error("Failed to clear notes: ", &e));
            },
        }
    }
    if notes.len() == 0 {
        assert(entries(doc_nodes(*doc), *obj) =~= list_entries(m0, "notes"@, None, fresh));
        return Ok(Ghost(None));
    }
    let list = match doc_put_object(doc, obj, "notes", NodeKind::List) {
        Ok(l) => l,
        Err(e) => {
            return Err(document_error("Failed to create notes list: ", &e));
        },
    };
    let ghost base = doc_nodes(*doc);
    assert(base =~= n0.insert(
        *obj,
        Node::Dict(list_entries(m0, "notes"@, Some(list), fresh)),
    ).insert(list, Node::List(Seq::empty())));
    let ghost all = note_views(notes@);
    let ghost texts_all = texts(dates@);
    assert(all.subrange(0, 0) =~= Seq::<NoteView>::empty());
    let mut i: usize = 0;
    while i < notes.len()
        invariant
            i <= notes.len(),
            dates.len() == notes.len(),
            all == note_views(notes@),
            texts_all == texts(dates@),
            is_map(n0, *obj),
            m0 == entries(n0, *obj),
            !n0.contains_key(list),
            base == n0.insert(
                *obj,
                Node::Dict(list_entries(m0, "notes"@, Some(list), fresh)),
            ).insert(list, Node::List(Seq::empty())),
            is_map(base, *obj),
            is_list(base, list),
            list != *obj,
            is_list(doc_nodes(*doc), list),
            elements(doc_nodes(*doc), list).len() == i,
            forall|x: automerge::ObjId| #[trigger]
                base.contains_key(x) ==> doc_nodes(*doc).contains_key(x) && (x != list
                    ==> doc_nodes(*doc)[x] == base[x]),
            forall|j: int|
                0 <= j < i ==> (#[trigger] elements(doc_nodes(*doc), list)[j] matches Cell::Dict(n)
                    && doc_nodes(*doc).contains_key(n) && n != list),
            dates_read_as(texts_all, all) ==> notes_in(
                doc_nodes(*doc),
                elements(doc_nodes(*doc), list),
            ) == all.subrange(0, i as int),
        decreases notes.len() - i,
    {
        let ghost cur = doc_nodes(*doc);
        let ghost cells = elements(cur, list);
        let n = write_note(doc, &list, &notes[i], dates[i].as_str())?;
        proof {
            let next = doc_nodes(*doc);
            let v = notes[i as int]@;
            assert(all[i as int] == v);
            assert(texts_all[i as int] == dates[i as int]@);
            assert(elements(next, list) == cells.push(Cell::Dict(n@)));
            assert(elements(next, list).drop_last() =~= cells);
            if dates_read_as(texts_all, all) {
                lemma_note_decodes(next, n@, v, dates[i as int]@);
                assert forall|j: int| 0 <= j < cells.len() implies (
                #[trigger] cells[j] matches Cell::Dict(m) ==> stored_note(cur, m) == stored_note(
                    next,
                    m,
                )) by {
                    if let Cell::Dict(m) = cells[j] {
                        assert(next[m] == cur[m]);
                    }
                }
                lemma_notes_in_frame(cur, next, cells);
                assert(all.subrange(0, i + 1) =~= all.subrange(0, i as int).push(v));
            }
            assert forall|j: int| 0 <= j < i + 1 implies (
            #[trigger] elements(next, list)[j] matches Cell::Dict(m) && next.contains_key(m) && m
                != list) by {
                if j < i {
                    assert(elements(next, list)[j] == cells[j]);
                }
            }
        }
        i = i + 1;
    }
    assert(all.subrange(0, notes.len() as int) =~= all);
    proof {
        let end = doc_nodes(*doc);
        assert(base.contains_key(*obj) && base.contains_key(list));
        assert(end[*obj] == base[*obj]);
        assert(entries(end, *obj) == list_entries(m0, "notes"@, Some(list), fresh));
        assert forall|x: automerge::ObjId| #[trigger] n0.contains_key(x) implies end.contains_key(x)
            && (x != *obj ==> end[x] == n0[x]) by {
            assert(base.contains_key(x));
        }
        assert(kept_except(n0, end, *obj));
        assert(is_map(end, *obj));
    }
    Ok(Ghost(Some(list)))
}

/// Every date of the bookmark can be written as text.
pub open spec fn storable(b: BookmarkView) -> bool {
    &&& b.bookmarked_date.writable()
    &&& b.publish_date matches Some(d) ==> d.writable()
    &&& forall|i: int| 0 <= i < b.notes.len() ==> (#[trigger] b.notes[i]).created_at.writable()
}

/// Every date of the bookmark, written as text, reads back as itself.
pub open spec fn reads_back(b: BookmarkView) -> bool {
    &&& b.bookmarked_date.reads_back()
    &&& b.publish_date matches Some(d) ==> d.reads_back()
    &&& forall|i: int| 0 <= i < b.notes.len() ==> (#[trigger] b.notes[i]).created_at.reads_back()
}

/// Every date of the bookmark lies in the years 0000 to 9999, where
/// writing a date as text and reading it back is the identity.
pub open spec fn in_common_era(b: BookmarkView) -> bool {
    &&& b.bookmarked_date.in_common_era()
    &&& b.publish_date matches Some(d) ==> d.in_common_era()
    &&& forall|i: int| 0 <= i < b.notes.len() ==> (#[trigger] b.notes[i]).created_at.in_common_era()
}

/// The texts of the dates of a bookmark.
struct DateTexts {
    bookmarked: String,
    published: Option<String>,
    notes: Vec<String>,
}

impl DateTexts {
    spec fn of(self, b: BookmarkView) -> bool {
        &&& self.bookmarked@ == b.bookmarked_date.written()
        &&& match b.publish_date {
            Some(d) => self.published matches Some(p) && p@ == d.written(),
            None => self.published is None,
        }
        &&& self.notes.len() == b.notes.len()
        &&& forall|i: int|
            0 <= i < b.notes.len() ==> (#[trigger] self.notes[i])@ == b.notes[i].created_at.written()
    }
}

fn format_dates(b: &Bookmark) -> (r: Option<DateTexts>)
    ensures
        r is Some <==> storable(b@),
        r matches Some(d) ==> d.of(b@) && (in_common_era(b@) ==> reads_back(b@)),
{
    let bookmarked = match b.bookmarked_date.to_rfc3339() {
        Some(s) => s,
        None => {
            return None;
        },
    };
    let published = match &b.publish_date {
        Some(d) => match d.to_rfc3339() {
            Some(s) => Some(s),
            None => {
                return None;
            },
        },
        None => None,
    };
    let mut notes: Vec<String> = Vec::new();
    let mut i: usize = 0;
    while i < b.notes.len()
        invariant
            i <= b.notes.len(),
            notes.len() == i,
            forall|j: int| 0 <= j < i ==> (#[trigger] b.notes[j]).created_at.writable(),
            forall|j: int|
                0 <= j < i ==> (#[trigger] notes[j])@ == b.notes[j].created_at.written(),
            forall|j: int|
                0 <= j < i ==> ((#[trigger] b.notes[j]).created_at.in_common_era()
                    ==> b.notes[j].created_at.reads_back()),
        decreases b.notes.len() - i,
    {
        let at = b.notes[i].created_at;
        match at.to_rfc3339() {
            Some(s) => {
                notes.push(s);
            },
            None => {
                assert(b@.notes[i as int] == b.notes[i as int]@);
                return None;
            },
        }
        i = i + 1;
    }
    let d = DateTexts { bookmarked, published, notes };
    proof {
        assert forall|j: int| 0 <= j < b@.notes.len() implies (#[trigger] b@.notes[j]).created_at
            == b.notes[j].created_at by {
            assert(b@.notes[j] == b.notes[j]@);
        }
    }
    Some(d)
}

/// The text of an optional date.
pub open spec fn date_text(d: Option<Timestamp>) -> Option<Seq<char>> {
    match d {
        Some(t) => Some(t.written()),
        None => None,
    }
}

/// The bookmark object `o` holds every field of the bookmark as it is
/// written: the scalar fields as text, the dates in RFC 3339, the
/// priority in decimal, absent optional fields not at all, the tags as a
/// list of texts, and as many note cells as the bookmark has notes.
pub open spec fn fields_written(nodes: Nodes, o: automerge::ObjId, b: BookmarkView) -> bool {
    &&& is_map(nodes, o)
    &&& text_field(nodes, o, "url"@) == Some(b.url)
    &&& text_field(nodes, o, "title"@) == Some(b.title)
    &&& text_field(nodes, o, "bookmarked_date"@) == Some(b.bookmarked_date.written())
    &&& cell_at(nodes, o, "author"@) == (match b.author {
        Some(a) => Some(Cell::Text(a)),
        None => None,
    })
    &&& cell_at(nodes, o, "publish_date"@) == (match b.publish_date {
        Some(d) => Some(Cell::Text(d.written())),
        None => None,
    })
    &&& text_field(nodes, o, "reading_status"@) == Some(status_text(b.reading_status))
    &&& cell_at(nodes, o, "priority_rating"@) == (match b.priority_rating {
        Some(p) => Some(Cell::Text(decimal_of(p))),
        None => None,
    })
    &&& stored_tags(nodes, o) == b.tags
    &&& b.tags.len() == 0 ==> cell_at(nodes, o, "tags"@) is None
    &&& note_cells(nodes, o).len() == b.notes.len()
    &&& b.notes.len() == 0 ==> cell_at(nodes, o, "notes"@) is None
}

/// A bookmark object that was written as the helpers above write it holds
/// every field as written.
pub proof fn lemma_record_written(
    nodes: Nodes,
    o: automerge::ObjId,
    m0: Map<Seq<char>, Cell>,
    b: BookmarkView,
    fresh: bool,
    tags_list: Option<automerge::ObjId>,
    notes_list: Option<automerge::ObjId>,
)
    requires
        is_map(nodes, o),
        entries(nodes, o) == list_entries(
            list_entries(
                scalar_entries(
                    m0,
                    b,
                    b.bookmarked_date.written(),
                    date_text(b.publish_date),
                    fresh,
                ),
                "tags"@,
                tags_list,
                fresh,
            ),
            "notes"@,
            notes_list,
            fresh,
        ),
        fresh ==> m0 == Map::<Seq<char>, Cell>::empty(),
        b.tags.len() == 0 <==> tags_list is None,
        tags_list matches Some(l) ==> is_list(nodes, l) && elements(nodes, l) == text_cells(b.tags),
        b.notes.len() == 0 <==> notes_list is None,
        notes_list matches Some(l) ==> is_list(nodes, l) && elements(nodes, l).len()
            == b.notes.len(),
    ensures
        fields_written(nodes, o, b),
        fresh ==> text_field(nodes, o, "id"@) == Some(b.id),
        !fresh ==> cell_at(nodes, o, "id"@) == m0.get("id"@),
{
    lemma_field_names();
    lemma_texts_in_text_cells(b.tags);
    let m = entries(nodes, o);
    assert(m.contains_key("url"@) && m["url"@] == Cell::Text(b.url));
    assert(m.contains_key("title"@) && m["title"@] == Cell::Text(b.title));
    assert(m.contains_key("bookmarked_date"@) && m["bookmarked_date"@] == Cell::Text(
        b.bookmarked_date.written(),
    ));
    assert(m.contains_key("reading_status"@) && m["reading_status"@] == Cell::Text(
        status_text(b.reading_status),
    ));
    assert(stored_tags(nodes, o) =~= b.tags);
    if fresh {
        assert(m.contains_key("id"@) && m["id"@] == Cell::Text(b.id));
    } else {
        assert(m.contains_key("id"@) == m0.contains_key("id"@));
        assert(m0.contains_key("id"@) ==> m["id"@] == m0["id"@]);
    }
}

/// A bookmark object that was written as the helpers above write it decodes
/// as the bookmark written, where the date texts read back. An object that
/// was filled for the first time holds the bookmark's id; one that was
/// written over keeps the id it held.
pub proof fn lemma_record_decodes(
    nodes: Nodes,
    o: automerge::ObjId,
    m0: Map<Seq<char>, Cell>,
    b: BookmarkView,
    date: Seq<char>,
    publish: Option<Seq<char>>,
    fresh: bool,
    tags_list: Option<automerge::ObjId>,
    notes_list: Option<automerge::ObjId>,
)
    requires
        is_map(nodes, o),
        entries(nodes, o) == list_entries(
            list_entries(scalar_entries(m0, b, date, publish, fresh), "tags"@, tags_list, fresh),
            "notes"@,
            notes_list,
            fresh,
        ),
        fresh ==> m0 == Map::<Seq<char>, Cell>::empty(),
        rfc3339_value(date) == Some(b.bookmarked_date),
        match b.publish_date {
            Some(d) => publish matches Some(p) && rfc3339_value(p) == Some(d),
            None => publish is None,
        },
        b.tags.len() == 0 <==> tags_list is None,
        tags_list matches Some(l) ==> is_list(nodes, l) && elements(nodes, l) == text_cells(b.tags),
        b.notes.len() == 0 <==> notes_list is None,
        notes_list matches Some(l) ==> is_list(nodes, l) && notes_in(nodes, elements(nodes, l))
            == b.notes,
    ensures
        fresh ==> stored_bookmark(nodes, o) == Some(b),
        !fresh ==> stored_bookmark(nodes, o) == (match m0.get("id"@) {
            Some(Cell::Text(i)) => Some(BookmarkView { id: i, ..b }),
            _ => None,
        }),
{
    lemma_field_names();
    lemma_status_texts(b.reading_status);
    lemma_texts_in_text_cells(b.tags);
    if let Some(p) = b.priority_rating {
        lemma_decimal_round_trip(p);
    }
    let m = entries(nodes, o);
    assert(m.contains_key("url"@) && m["url"@] == Cell::Text(b.url));
    assert(m.contains_key("title"@) && m["title"@] == Cell::Text(b.title));
    assert(m.contains_key("bookmarked_date"@) && m["bookmarked_date"@] == Cell::Text(date));
    assert(m.contains_key("reading_status"@) && m["reading_status"@] == Cell::Text(
        status_text(b.reading_status),
    ));
    assert(text_field(nodes, o, "author"@) == b.author);
    assert(stored_date(nodes, o, "publish_date"@) == b.publish_date);
    assert(stored_priority(nodes, o) == b.priority_rating);
    assert(stored_tags(nodes, o) =~= b.tags);
    assert(stored_notes(nodes, o) =~= b.notes);
    if fresh {
        assert(m.contains_key("id"@) && m["id"@] == Cell::Text(b.id));
    } else {
        assert(m.contains_key("id"@) == m0.contains_key("id"@));
        assert(m0.contains_key("id"@) ==> m["id"@] == m0["id"@]);
    }
}

/// What the store remembers of its exchange with one peer.
pub struct PeerSync {
    peer: String,
    state: automerge::sync::State,
}

/// Position `i` is the first at which something is remembered of the peer.
pub closed spec fn first_of_peer(peers: Seq<PeerSync>, peer: Seq<char>, i: int) -> bool {
    0 <= i < peers.len() && peers[i].peer@ == peer && forall|j: int|
        0 <= j < i ==> (#[trigger] peers[j]).peer@ != peer
}

/// Something is remembered of the peer.
pub closed spec fn remembered(peers: Seq<PeerSync>, peer: Seq<char>) -> bool {
    exists|i: int| first_of_peer(peers, peer, i)
}

/// The sync state remembered of the peer; a new one where nothing is.
pub closed spec fn state_of_peer(peers: Seq<PeerSync>, peer: Seq<char>) -> automerge::sync::State {
    if remembered(peers, peer) {
        peers[choose|i: int| first_of_peer(peers, peer, i)].state
    } else {
        new_sync_state()
    }
}

/// The first position of a peer is the only one.
proof fn lemma_first_of_peer(peers: Seq<PeerSync>, peer: Seq<char>, i: int)
    requires
        first_of_peer(peers, peer, i),
    ensures
        remembered(peers, peer),
        state_of_peer(peers, peer) == peers[i].state,
{
    let k = choose|k: int| first_of_peer(peers, peer, k);
    if k < i {
        assert(peers[k].peer@ != peer);
    } else if i < k {
        assert(peers[i].peer@ != peer);
    }
}

/// Lists that name the same peers at the same positions remember the same
/// peers.
proof fn lemma_same_peers(a: Seq<PeerSync>, b: Seq<PeerSync>)
    requires
        a.len() == b.len(),
        forall|j: int| 0 <= j < a.len() ==> (#[trigger] a[j]).peer@ == b[j].peer@,
    ensures
        forall|peer: Seq<char>, i: int| first_of_peer(a, peer, i) == first_of_peer(b, peer, i),
        forall|peer: Seq<char>| remembered(a, peer) == remembered(b, peer),
{
    assert forall|peer: Seq<char>, i: int| first_of_peer(a, peer, i) == first_of_peer(
        b,
        peer,
        i,
    ) by {
        if first_of_peer(a, peer, i) {
            assert(a[i].peer@ == b[i].peer@);
            assert forall|j: int| 0 <= j < i implies (#[trigger] b[j]).peer@ != peer by {
                assert(a[j].peer@ == b[j].peer@);
            }
        }
        if first_of_peer(b, peer, i) {
            assert(a[i].peer@ == b[i].peer@);
            assert forall|j: int| 0 <= j < i implies (#[trigger] a[j]).peer@ != peer by {
                assert(a[j].peer@ == b[j].peer@);
            }
        }
    }
    assert forall|peer: Seq<char>| remembered(a, peer) == remembered(b, peer) by {
        if remembered(a, peer) {
            let i = choose|i: int| first_of_peer(a, peer, i);
            assert(first_of_peer(b, peer, i));
        }
        if remembered(b, peer) {
            let i = choose|i: int| first_of_peer(b, peer, i);
            assert(first_of_peer(a, peer, i));
        }
    }
}

/// The bookmark store.
pub struct AutomergeBookmarkRepository {
    doc: automerge::AutoCommit,
    root: automerge::ObjId,
    bookmarks_map: automerge::ObjId,
    peers: Vec<PeerSync>,
}

impl AutomergeBookmarkRepository {
    /// The objects of the document.
    pub closed spec fn nodes(&self) -> Nodes {
        doc_nodes(self.doc)
    }

    /// The id of the map that holds the bookmarks.
    pub closed spec fn root_map(&self) -> automerge::ObjId {
        self.bookmarks_map
    }

    /// The hashes of the latest changes of the document.
    pub closed spec fn heads(&self) -> Seq<Seq<u8>> {
        document_heads(self.doc)
    }

    /// The store knows the root of its document.
    pub closed spec fn knows_root(&self) -> bool {
        forall|nodes: Nodes| #[trigger] document_root(nodes) == self.root
    }

    /// The store is usable: it knows the root of its document, and its
    /// bookmarks map is a map object of the document.
    pub open spec fn wf(&self) -> bool {
        self.knows_root() && is_map(self.nodes(), self.root_map())
    }

    /// The bookmarks map is the one that the root of the document names.
    /// A store is anchored when it is opened and stays so under every
    /// operation but a merge, which may bring another map under the name.
    pub open spec fn anchored(&self) -> bool {
        cell_at(self.nodes(), document_root(self.nodes()), "bookmarks"@) == Some(
            Cell::Dict(self.root_map()),
        ) && self.root_map() != document_root(self.nodes())
    }

    /// The store has exchanged sync messages with the peer, and remembers
    /// how far the exchange came.
    pub closed spec fn knows_peer(&self, peer: Seq<char>) -> bool {
        remembered(self.peers@, peer)
    }

    /// The next sync message that the store has for the peer, where it has
    /// one, made from the document and from what the store remembers of
    /// the peer.
    pub closed spec fn message_for(&self, peer: Seq<char>) -> Option<Seq<u8>> {
        sync_message(self.doc, state_of_peer(self.peers@, peer))
    }

    /// What merging the bytes as a sync message from the peer gives: the
    /// objects that the document then holds, or nothing where the bytes
    /// are no sync message or cannot be merged. The merge starts from what
    /// the store remembers of the peer.
    pub closed spec fn merge(&self, peer: Seq<char>, bytes: Seq<u8>) -> Option<Nodes> {
        merged(self.doc, state_of_peer(self.peers@, peer), bytes)
    }

    /// Every bookmark object of the store holds the key of its entry as
    /// its id. An empty store is keyed, and every operation but a merge
    /// keeps a store so.
    pub open spec fn keyed(&self) -> bool {
        keyed(self.nodes(), self.root_map())
    }

    /// The ids under which the store has entries.
    pub open spec fn ids(&self) -> Set<Seq<char>> {
        entries(self.nodes(), self.root_map()).dom()
    }

    /// The bookmark stored under `id`, if there is an entry and it decodes.
    pub open spec fn stored(&self, id: Seq<char>) -> Option<BookmarkView> {
        bookmark_at(self.nodes(), self.root_map(), id)
    }

    /// Whether there is an entry under `id`, decodable or not.
    pub open spec fn has_entry(&self, id: Seq<char>) -> bool {
        cell_at(self.nodes(), self.root_map(), id) is Some
    }

    /// The bookmark stored under `id`.
    ///
    /// Without an entry under `id` the error is `NotFound` with the id; with
    /// an entry that does not decode it is a storage error.
    pub fn find_by_id(&self, id: &str) -> (r: BookmarkResult<Bookmark>)
        requires
            self.wf(),
        ensures
            !self.has_entry(id@) ==> (r matches Err(BookmarkError::NotFound(m)) && m@ == id@),
            self.has_entry(id@) ==> match self.stored(id@) {
                Some(v) => r matches Ok(b) && b@ == v,
                None => r matches Err(BookmarkError::StorageError(_)),
            },
    {
        match doc_get_key(&self.doc, &self.bookmarks_map, id) {
            Ok(Some(Found::Dict(obj))) => read_bookmark(&self.doc, &obj),
            Ok(Some(_)) => Err(storage_error("Bookmark entry is not a map")),
            Ok(None) => Err(BookmarkError::NotFound(String::from_str(id))),
            Err(e) => Err(document_error("Failed to get bookmark: ", &e)),
        }
    }

    /// The bookmarks of the store that decode, in the order in which the
    /// document walks the keys of the bookmarks map. Every query of the
    /// store starts from this listing.
    pub closed spec fn listing(&self) -> Seq<BookmarkView> {
        decoded(self.nodes(), self.root_map(), key_order(self.doc, self.bookmarks_map))
    }

    /// Every bookmark of the store that decodes, as `listing` gives them;
    /// entries that do not decode are passed over.
    pub fn list_all(&self) -> (r: Vec<Bookmark>)
        requires
            self.wf(),
        ensures
            bookmark_views(r@) == self.listing(),
            lists_all(self.nodes(), self.root_map(), self.listing()),
    {
        let keys = doc_keys(&self.doc, &self.bookmarks_map);
        let ghost nodes = self.nodes();
        let ghost map = self.root_map();
        let ghost ks = texts(keys@);
        let mut out: Vec<Bookmark> = Vec::new();
        let mut i: usize = 0;
        assert(bookmark_views(out@) =~= decoded(nodes, map, ks.subrange(0, 0)));
        while i < keys.len()
            invariant
                self.wf(),
                nodes == self.nodes(),
                map == self.root_map(),
                ks == texts(keys@),
                i <= keys.len(),
                bookmark_views(out@) == decoded(nodes, map, ks.subrange(0, i as int)),
            decreases keys.len() - i,
        {
            assert(ks.subrange(0, i + 1).drop_last() =~= ks.subrange(0, i as int));
            assert(ks.subrange(0, i + 1).last() == keys[i as int]@);
            let ghost before = out@;
            match doc_get_key(&self.doc, &self.bookmarks_map, keys[i].as_str()) {
                Ok(Some(Found::Dict(obj))) => {
                    match read_bookmark(&self.doc, &obj) {
                        Ok(b) => {
                            out.push(b);
                            assert(bookmark_views(out@) =~= bookmark_views(before).push(b@));
                        },
                        Err(_) => {},
                    }
                },
                _ => {},
            }
            i = i + 1;
        }
        assert(ks.subrange(0, keys.len() as int) =~= ks);
        assert(is_listing(nodes, map, ks));
        out
    }
}

/// The cells of the notes list of the bookmark object `o`; none where it
/// has no such list.
pub open spec fn note_cells(nodes: Nodes, o: automerge::ObjId) -> Seq<Cell> {
    match cell_at(nodes, o, "notes"@) {
        Some(Cell::List(l)) => if is_list(nodes, l) {
            elements(nodes, l)
        } else {
            Seq::empty()
        },
        _ => Seq::empty(),
    }
}

/// Whether a cell is a note object with the given id.
pub open spec fn is_note_with_id(nodes: Nodes, c: Cell, id: Seq<char>) -> bool {
    c matches Cell::Dict(n) && is_map(nodes, n) && text_field(nodes, n, "id"@) == Some(id)
}

/// The position of the first note object with the given id among the cells.
pub open spec fn first_note_cell(nodes: Nodes, cells: Seq<Cell>, id: Seq<char>) -> Option<int>
    decreases cells.len(),
{
    if cells.len() == 0 {
        None
    } else if is_note_with_id(nodes, cells[0], id) {
        Some(0)
    } else {
        match first_note_cell(nodes, cells.drop_first(), id) {
            Some(i) => Some(i + 1),
            None => None,
        }
    }
}

/// What `first_note_cell` finds: the first position whose cell is a note
/// with the id, or nothing when no cell is.
pub proof fn lemma_first_note_cell(nodes: Nodes, cells: Seq<Cell>, id: Seq<char>)
    ensures
        match first_note_cell(nodes, cells, id) {
            Some(i) => 0 <= i < cells.len() && is_note_with_id(nodes, cells[i], id) && forall|
                j: int,
            |
                0 <= j < i ==> !is_note_with_id(nodes, #[trigger] cells[j], id),
            None => forall|j: int|
                0 <= j < cells.len() ==> !is_note_with_id(nodes, #[trigger] cells[j], id),
        },
    decreases cells.len(),
{
    if cells.len() > 0 && !is_note_with_id(nodes, cells[0], id) {
        let rest = cells.drop_first();
        lemma_first_note_cell(nodes, rest, id);
        match first_note_cell(nodes, rest, id) {
            Some(i) => {
                assert(rest[i] == cells[i + 1]);
                assert forall|j: int| 0 <= j < i + 1 implies !is_note_with_id(
                    nodes,
                    #[trigger] cells[j],
                    id,
                ) by {
                    if j > 0 {
                        assert(rest[j - 1] == cells[j]);
                    }
                }
            },
            None => {
                assert forall|j: int| 0 <= j < cells.len() implies !is_note_with_id(
                    nodes,
                    #[trigger] cells[j],
                    id,
                ) by {
                    if j > 0 {
                        assert(rest[j - 1] == cells[j]);
                    }
                }
            },
        }
    }
}

/// The tags to store when the incoming tags meet the stored ones: the
/// incoming ones, as a whole. The stored tags are not merged in.
pub fn reconcile_tags(stored: Vec<String>, incoming: &Vec<String>) -> (r: Vec<String>)
    ensures
        texts(r@) == texts(incoming@),
{
    copy_texts(incoming)
}

/// The notes to store when the incoming notes meet the stored ones: the
/// incoming ones, as a whole. The stored notes are not merged in.
pub fn reconcile_notes(stored: Vec<Note>, incoming: &Vec<Note>) -> (r: Vec<Note>)
    ensures
        note_views(r@) == note_views(incoming@),
{
    copy_notes(incoming)
}

/// What creating a bookmark does to a document: the bookmarks map gains an
/// entry under the bookmark's id that names a new object; nothing else in
/// the map and no other object that existed changes; the new object holds
/// the fields of the bookmark as written; and it decodes as the bookmark,
/// where its dates read back from their text.
pub open spec fn created(before: Nodes, after: Nodes, map: automerge::ObjId, b: BookmarkView) -> bool {
    &&& is_map(after, map)
    &&& kept_except(before, after, map)
    &&& cell_at(after, map, b.id) matches Some(Cell::Dict(o)) && !before.contains_key(o)
        && entries(after, map) == entries(before, map).insert(b.id, Cell::Dict(o))
        && fields_written(after, o, b) && text_field(after, o, "id"@) == Some(b.id) && (reads_back(
        b,
    ) ==> stored_bookmark(after, o) == Some(b))
}

/// The bookmark `b` under the id that the object `o` holds in `nodes`.
pub open spec fn with_stored_id(nodes: Nodes, o: automerge::ObjId, b: BookmarkView) -> Option<
    BookmarkView,
> {
    match text_field(nodes, o, "id"@) {
        Some(i) => Some(BookmarkView { id: i, ..b }),
        None => None,
    }
}

/// What updating the bookmark object `o` does to a document: no other
/// object that existed changes; `o` holds the fields of the bookmark as
/// written and the id it held; and it decodes as the bookmark written,
/// under that id, where the dates read back from their text.
pub open spec fn updated(before: Nodes, after: Nodes, o: automerge::ObjId, b: BookmarkView) -> bool {
    &&& is_map(after, o)
    &&& kept_except(before, after, o)
    &&& fields_written(after, o, b)
    &&& cell_at(after, o, "id"@) == cell_at(before, o, "id"@)
    &&& reads_back(b) ==> stored_bookmark(after, o) == with_stored_id(before, o, b)
}

/// What deleting the entry under `id` does to a document.
pub open spec fn deleted(before: Nodes, after: Nodes, map: automerge::ObjId, id: Seq<char>) -> bool {
    after == before.insert(map, Node::Dict(entries(before, map).remove(id)))
}

/// What adding a note to the bookmark object `o` does to a document: its
/// notes list, made if it had none, gains one cell at the end, which names
/// a new object holding the note; objects keep their kind; and but for `o`
/// and the list no object that existed changes.
pub open spec fn note_added(
    before: Nodes,
    after: Nodes,
    o: automerge::ObjId,
    v: NoteView,
    date: Seq<char>,
) -> bool {
    &&& is_map(after, o)
    &&& objects_kept(before, after)
    &&& cell_at(after, o, "notes"@) matches Some(Cell::List(l)) && is_list(after, l) && entries(
        after,
        o,
    ) == entries(before, o).insert("notes"@, Cell::List(l)) && (forall|x: automerge::ObjId| #[trigger]
        before.contains_key(x) ==> after.contains_key(x) && (x != o && x != l ==> after[x]
            == before[x]))
    &&& note_cells(after, o).len() == note_cells(before, o).len() + 1
    &&& note_cells(after, o).drop_last() == note_cells(before, o)
    &&& note_cells(after, o).last() matches Cell::Dict(n) && !before.contains_key(n)
        && is_map(after, n) && entries(after, n) == note_entries(v, date)
}

/// What removing the note at position `i` of the notes list of `o` does.
pub open spec fn note_removed(before: Nodes, after: Nodes, o: automerge::ObjId, i: int) -> bool {
    cell_at(before, o, "notes"@) matches Some(Cell::List(l)) && after == before.insert(
        l,
        Node::List(note_cells(before, o).remove(i)),
    )
}

/// Every entry of the map that names a bookmark object names one that
/// holds the entry's key as its id, so that what decodes under a key
/// carries the key.
pub open spec fn keyed(nodes: Nodes, map: automerge::ObjId) -> bool {
    forall|k: Seq<char>| #[trigger] holds_key(nodes, map, k)
}

/// Where the entry under `k` names a bookmark object, the object is not
/// the map itself and holds `k` as its id.
pub open spec fn holds_key(nodes: Nodes, map: automerge::ObjId, k: Seq<char>) -> bool {
    match cell_at(nodes, map, k) {
        Some(Cell::Dict(o)) => o != map && text_field(nodes, o, "id"@) == Some(k),
        _ => true,
    }
}

/// Creating a bookmark keeps the entries keyed by id.
pub proof fn lemma_created_keyed(before: Nodes, after: Nodes, map: automerge::ObjId, b: BookmarkView)
    requires
        is_map(before, map),
        keyed(before, map),
        created(before, after, map, b),
    ensures
        keyed(after, map),
{
    assert forall|k: Seq<char>| #[trigger] holds_key(after, map, k) by {
        assert(holds_key(before, map, k));
        if k != b.id && cell_at(after, map, k) is Some && cell_at(after, map, k)->Some_0 is Dict {
            assert(cell_at(after, map, k) == cell_at(before, map, k));
            let o = cell_at(before, map, k)->Some_0->Dict_0;
            assert(before.contains_key(o));
        }
    }
}

/// Updating a bookmark keeps the entries keyed by id.
pub proof fn lemma_updated_keyed(
    before: Nodes,
    after: Nodes,
    map: automerge::ObjId,
    o: automerge::ObjId,
    b: BookmarkView,
)
    requires
        is_map(before, map),
        keyed(before, map),
        o != map,
        updated(before, after, o, b),
    ensures
        keyed(after, map),
{
    assert(after[map] == before[map]);
    assert forall|k: Seq<char>| #[trigger] holds_key(after, map, k) by {
        assert(holds_key(before, map, k));
        if cell_at(after, map, k) is Some && cell_at(after, map, k)->Some_0 is Dict {
            assert(cell_at(after, map, k) == cell_at(before, map, k));
            let x = cell_at(before, map, k)->Some_0->Dict_0;
            assert(before.contains_key(x));
        }
    }
}

/// Deleting an entry keeps the others keyed by id.
pub proof fn lemma_deleted_keyed(before: Nodes, after: Nodes, map: automerge::ObjId, id: Seq<char>)
    requires
        is_map(before, map),
        keyed(before, map),
        deleted(before, after, map, id),
    ensures
        keyed(after, map),
{
    assert forall|k: Seq<char>| #[trigger] holds_key(after, map, k) by {
        assert(holds_key(before, map, k));
        if cell_at(after, map, k) is Some && cell_at(after, map, k)->Some_0 is Dict {
            assert(cell_at(after, map, k) == cell_at(before, map, k));
        }
    }
}

/// Adding a note to a bookmark keeps the entries keyed by id.
pub proof fn lemma_note_added_keyed(
    before: Nodes,
    after: Nodes,
    map: automerge::ObjId,
    o: automerge::ObjId,
    v: NoteView,
    date: Seq<char>,
)
    requires
        is_map(before, map),
        is_map(after, map),
        keyed(before, map),
        o != map,
        note_added(before, after, o, v, date),
    ensures
        keyed(after, map),
{
    lemma_field_names();
    let l = cell_at(after, o, "notes"@)->Some_0->List_0;
    assert(l != map);
    assert(after[map] == before[map]);
    assert forall|k: Seq<char>| #[trigger] holds_key(after, map, k) by {
        assert(holds_key(before, map, k));
        if cell_at(after, map, k) is Some && cell_at(after, map, k)->Some_0 is Dict {
            assert(cell_at(after, map, k) == cell_at(before, map, k));
            let x = cell_at(before, map, k)->Some_0->Dict_0;
            assert(is_map(before, x));
            if x != o {
                assert(is_map(after, x));
                assert(x != l);
                assert(after[x] == before[x]);
            } else {
                assert("notes"@ != "id"@);
            }
        }
    }
}

/// Removing a note from a bookmark keeps the entries keyed by id.
pub proof fn lemma_note_removed_keyed(
    before: Nodes,
    after: Nodes,
    map: automerge::ObjId,
    o: automerge::ObjId,
    i: int,
)
    requires
        is_map(before, map),
        keyed(before, map),
        0 <= i < note_cells(before, o).len(),
        note_removed(before, after, o, i),
    ensures
        keyed(after, map),
{
    let l = cell_at(before, o, "notes"@)->Some_0->List_0;
    assert(is_list(before, l));
    assert forall|k: Seq<char>| #[trigger] holds_key(after, map, k) by {
        assert(holds_key(before, map, k));
        if cell_at(after, map, k) is Some && cell_at(after, map, k)->Some_0 is Dict {
            assert(cell_at(after, map, k) == cell_at(before, map, k));
            let x = cell_at(before, map, k)->Some_0->Dict_0;
            assert(is_map(before, x));
        }
    }
}

/// What decodes under a key of a keyed map carries the key as its id.
pub proof fn lemma_keyed_ids(nodes: Nodes, map: automerge::ObjId, k: Seq<char>)
    requires
        keyed(nodes, map),
    ensures
        bookmark_at(nodes, map, k) matches Some(b) ==> b.id == k,
{
    assert(holds_key(nodes, map, k));
}

/// The text of the error for a note that is not there.
pub open spec fn note_missing_text(note_id: Seq<char>) -> Seq<char> {
    "Note "@ + note_id + " not found"@
}

fn note_missing(note_id: &str) -> (r: BookmarkError)
    ensures
        r matches BookmarkError::NotFound(m) && m@ == note_missing_text(note_id@),
{
    let head = joined("Note ", note_id);
    BookmarkError::NotFound(joined(head.as_str(), " not found"))
}

/// What opening a store on saved bytes gives: the saved objects, with the
/// bookmarks map that their root names.
pub open spec fn opened(bytes: Seq<u8>, nodes: Nodes, map: automerge::ObjId) -> bool {
    snapshot_nodes(bytes) == Some(nodes) && cell_at(nodes, document_root(nodes), "bookmarks"@)
        == Some(Cell::Dict(map))
}

impl AutomergeBookmarkRepository {
    /// A store on the given snapshot. Without a snapshot, or with an empty
    /// one, the store starts empty. Otherwise the snapshot must be a saved
    /// document whose root names a bookmarks map or nothing under
    /// `bookmarks`; where it names nothing, an empty map is put there.
    pub fn new(snapshot: Option<Vec<u8>>) -> (r: BookmarkResult<AutomergeBookmarkRepository>)
        ensures
            r matches Ok(s) ==> s.wf() && s.anchored(),
            (snapshot matches Some(bytes) && bytes@.len() > 0) ==> match snapshot_nodes(
                (snapshot->Some_0)@,
            ) {
                Some(n) => match cell_at(n, document_root(n), "bookmarks"@) {
                    Some(Cell::Dict(m)) => r matches Ok(s) && opened(
                        (snapshot->Some_0)@,
                        s.nodes(),
                        s.root_map(),
                    ),
                    Some(_) => r matches Err(BookmarkError::StorageError(_)),
                    None => r matches Ok(s) && !n.contains_key(s.root_map()) && entries(
                        s.nodes(),
                        s.root_map(),
                    ) == Map::<Seq<char>, Cell>::empty() && kept_except(
                        n,
                        s.nodes(),
                        document_root(n),
                    ),
                },
                None => r matches Err(BookmarkError::StorageError(_)),
            },
            !(snapshot matches Some(bytes) && bytes@.len() > 0) ==> (r matches Ok(s) && entries(
                s.nodes(),
                s.root_map(),
            ) == Map::<Seq<char>, Cell>::empty() && s.keyed()),
    {
        let mut doc = match &snapshot {
            Some(bytes) => {
                if bytes.len() == 0 {
                    doc_new()
                } else {
                    match doc_load(bytes.as_slice()) {
                        Ok(d) => d,
                        Err(e) => {
                            return Err(document_error("Failed to load Automerge document: ", &e));
                        },
                    }
                }
            },
            None => doc_new(),
        };
        let root = doc_root(&doc);
        let ghost n0 = doc_nodes(doc);
        let bookmarks_map = match doc_get_key(&doc, &root, "bookmarks") {
            Ok(Some(Found::Dict(id))) => id,
            Ok(Some(_)) => {
                return Err(storage_error("The document holds no bookmarks map"));
            },
            Ok(None) => match doc_put_object(&mut doc, &root, "bookmarks", NodeKind::Dict) {
                Ok(id) => id,
                Err(e) => {
                    return Err(document_error("Failed to create bookmarks map: ", &e));
                },
            },
            Err(e) => {
                return Err(document_error("Failed to get bookmarks: ", &e));
            },
        };
        let s = AutomergeBookmarkRepository { doc, root, bookmarks_map, peers: Vec::new() };
        proof {
            if !(snapshot matches Some(bytes) && bytes@.len() > 0) {
                assert(n0[root] == Node::Dict(Map::<Seq<char>, Cell>::empty()));
            }
        }
        Ok(s)
    }

    /// The whole document as bytes, for safekeeping. There are always some,
    /// and a store opened on them holds the same objects.
    pub fn snapshot(&mut self) -> (bytes: Vec<u8>)
        requires
            old(self).wf(),
        ensures
            old(self).anchored() ==> final(self).anchored(),
            old(self).keyed() ==> final(self).keyed(),
            final(self).wf(),
            final(self).nodes() == old(self).nodes(),
            final(self).heads() == old(self).heads(),
            final(self).root_map() == old(self).root_map(),
            snapshot_nodes(bytes@) == Some(old(self).nodes()),
            bytes@.len() > 0,
    {
        doc_save(&mut self.doc)
    }

    /// Stores a new bookmark under its id and returns it.
    ///
    /// This succeeds exactly when every date of the bookmark can be written
    /// as text; otherwise nothing is stored. The bookmark is not validated.
    pub fn create(&mut self, bookmark: Bookmark) -> (r: BookmarkResult<Bookmark>)
        requires
            old(self).wf(),
        ensures
            old(self).anchored() ==> final(self).anchored(),
            old(self).keyed() ==> final(self).keyed(),
            r is Err ==> final(self).listing() == old(self).listing(),
            final(self).wf(),
            final(self).root_map() == old(self).root_map(),
            final(self).ids() == (if r is Ok {
                old(self).ids().insert(bookmark@.id)
            } else {
                old(self).ids()
            }),
            r is Ok <==> storable(bookmark@),
            r matches Ok(b) ==> b@ == bookmark@ && created(
                old(self).nodes(),
                final(self).nodes(),
                old(self).root_map(),
                bookmark@,
            ) && (in_common_era(bookmark@) ==> final(self).stored(bookmark@.id) == Some(bookmark@)),
            r matches Err(e) ==> e is StorageError && final(self).nodes() == old(self).nodes(),
    {
        let dates = match format_dates(&bookmark) {
            Some(d) => d,
            None => {
                return Err(storage_error("A date of the bookmark cannot be written"));
            },
        };
        let ghost n0 = self.nodes();
        let ghost map = self.root_map();
        let ghost b = bookmark@;
        let obj = match doc_put_object(
            &mut self.doc,
            &self.bookmarks_map,
            bookmark.id.as_str(),
            NodeKind::Dict,
        ) {
            Ok(o) => o,
            Err(e) => {
                return Err(document_error("Failed to create bookmark object: ", &e));
            },
        };
        let ghost n1 = self.nodes();
        let ghost e0 = Map::<Seq<char>, Cell>::empty();
        assert(entries(n1, obj) == e0);
        write_scalars(
            &mut self.doc,
            &obj,
            &bookmark,
            dates.bookmarked.as_str(),
            &dates.published,
            true,
        )?;
        let ghost n2 = self.nodes();
        let tags_list = write_tags(&mut self.doc, &obj, &bookmark.tags, true)?;
        let ghost n3 = self.nodes();
        let notes_list = write_notes(&mut self.doc, &obj, &bookmark.notes, &dates.notes, true)?;
        proof {
            let n4 = self.nodes();
            assert(n1.contains_key(map) && n1.contains_key(obj) && obj != map);
            assert(n2.contains_key(map) && n2[map] == n1[map]);
            assert(n3.contains_key(map) && n3[map] == n2[map]);
            assert(n4.contains_key(map) && n4[map] == n3[map]);
            assert forall|x: automerge::ObjId| #[trigger] n0.contains_key(x) implies n4.contains_key(
                x,
            ) && (x != map ==> n4[x] == n0[x]) by {
                assert(n1.contains_key(x));
                assert(n2.contains_key(x));
                assert(n3.contains_key(x));
            }
            if let Some(l) = tags_list@ {
                assert(n3.contains_key(l));
                assert(n4[l] == n3[l]);
            }
            assert(opt_text(dates.published) == date_text(b.publish_date));
            lemma_field_names();
            lemma_record_written(n4, obj, e0, b, true, tags_list@, notes_list@);
            if let Some(l) = notes_list@ {
                assert(cell_at(n4, obj, "notes"@) == Some(Cell::List(l)));
            }
            if reads_back(b) {
                assert(dates_read_as(texts(dates.notes@), b.notes)) by {
                    assert forall|i: int| 0 <= i < b.notes.len() implies rfc3339_value(
                        #[trigger] texts(dates.notes@)[i],
                    ) == Some(b.notes[i].created_at) by {
                        assert(texts(dates.notes@)[i] == dates.notes[i]@);
                    }
                }
                lemma_record_decodes(
                    n4,
                    obj,
                    e0,
                    b,
                    dates.bookmarked@,
                    opt_text(dates.published),
                    true,
                    tags_list@,
                    notes_list@,
                );
            }
        }
        proof {
            if old(self).keyed() {
                lemma_created_keyed(
                    old(self).nodes(),
                    self.nodes(),
                    self.root_map(),
                    bookmark@,
                );
            }
        }
        Ok(bookmark)
    }

    /// Writes the given bookmark over the stored one of the same id.
    ///
    /// The entry must exist, else the error is `NotFound` with the id. The
    /// scalar fields are overwritten, absent optional fields are cleared,
    /// and the tags and the notes are replaced as a whole. The id held in
    /// the stored object is left as it is. Nothing is written where the
    /// entry is no bookmark object or a date cannot be written as text.
    pub fn update(&mut self, bookmark: Bookmark) -> (r: BookmarkResult<Bookmark>)
        requires
            old(self).wf(),
        ensures
            old(self).anchored() ==> final(self).anchored(),
            old(self).keyed() ==> final(self).keyed(),
            r is Err ==> final(self).listing() == old(self).listing(),
            final(self).wf(),
            final(self).root_map() == old(self).root_map(),
            final(self).ids() == old(self).ids(),
            !old(self).has_entry(bookmark@.id) ==> (r matches Err(BookmarkError::NotFound(m)) && m@
                == bookmark@.id),
            r is Err ==> final(self).nodes() == old(self).nodes(),
            old(self).has_entry(bookmark@.id) ==> match cell_at(
                old(self).nodes(),
                old(self).root_map(),
                bookmark@.id,
            ) {
                Some(Cell::Dict(o)) => if storable(bookmark@) {
                    r matches Ok(b) && b@ == bookmark@ && o != old(self).root_map() && updated(
                        old(self).nodes(),
                        final(self).nodes(),
                        o,
                        bookmark@,
                    )
                } else {
                    r matches Err(BookmarkError::StorageError(_))
                },
                _ => r matches Err(BookmarkError::StorageError(_)),
            },
    {
        let obj = match doc_get_key(&self.doc, &self.bookmarks_map, bookmark.id.as_str()) {
            Ok(Some(Found::Dict(o))) => o,
            Ok(Some(_)) => {
                return Err(storage_error("Bookmark entry is not a map"));
            },
            Ok(None) => {
                return Err(BookmarkError::NotFound(bookmark.id.clone()));
            },
            Err(e) => {
                return Err(document_error("Failed to get bookmark for update: ", &e));
            },
        };
        let dates = match format_dates(&bookmark) {
            Some(d) => d,
            None => {
                return Err(storage_error("A date of the bookmark cannot be written"));
            },
        };
        let ghost n0 = self.nodes();
        let ghost map = self.root_map();
        let ghost b = bookmark@;
        let ghost m0 = entries(n0, obj);
        write_scalars(
            &mut self.doc,
            &obj,
            &bookmark,
            dates.bookmarked.as_str(),
            &dates.published,
            false,
        )?;
        let ghost n2 = self.nodes();
        let tags = reconcile_tags(read_tags(&self.doc, &obj), &bookmark.tags);
        let notes = reconcile_notes(read_notes(&self.doc, &obj), &bookmark.notes);
        let tags_list = write_tags(&mut self.doc, &obj, &tags, false)?;
        let ghost n3 = self.nodes();
        let notes_list = write_notes(&mut self.doc, &obj, &notes, &dates.notes, false)?;
        proof {
            let n4 = self.nodes();
            assert forall|x: automerge::ObjId| #[trigger] n0.contains_key(x) implies n4.contains_key(
                x,
            ) && (x != obj ==> n4[x] == n0[x]) by {
                assert(n2.contains_key(x));
                assert(n3.contains_key(x));
            }
            if let Some(l) = tags_list@ {
                assert(n3.contains_key(l));
                assert(n4[l] == n3[l]);
            }
            assert(opt_text(dates.published) == date_text(b.publish_date));
            lemma_field_names();
            lemma_record_written(n4, obj, m0, b, false, tags_list@, notes_list@);
            if let Some(l) = notes_list@ {
                assert(cell_at(n4, obj, "notes"@) == Some(Cell::List(l)));
            }
            if reads_back(b) {
                assert(dates_read_as(texts(dates.notes@), b.notes)) by {
                    assert forall|i: int| 0 <= i < b.notes.len() implies rfc3339_value(
                        #[trigger] texts(dates.notes@)[i],
                    ) == Some(b.notes[i].created_at) by {
                        assert(texts(dates.notes@)[i] == dates.notes[i]@);
                    }
                }
                lemma_record_decodes(
                    n4,
                    obj,
                    m0,
                    b,
                    dates.bookmarked@,
                    opt_text(dates.published),
                    false,
                    tags_list@,
                    notes_list@,
                );
            }
        }
        proof {
            if old(self).keyed() {
                assert(holds_key(old(self).nodes(), self.root_map(), bookmark@.id));
                lemma_updated_keyed(
                    old(self).nodes(),
                    self.nodes(),
                    self.root_map(),
                    obj,
                    bookmark@,
                );
            }
        }
        Ok(bookmark)
    }

    /// Removes the entry under `id`. Without such an entry the error is
    /// `NotFound` with the id and nothing changes.
    pub fn delete(&mut self, id: &str) -> (r: BookmarkResult<()>)
        requires
            old(self).wf(),
        ensures
            old(self).anchored() ==> final(self).anchored(),
            old(self).keyed() ==> final(self).keyed(),
            r is Err ==> final(self).listing() == old(self).listing(),
            final(self).wf(),
            final(self).root_map() == old(self).root_map(),
            final(self).ids() == old(self).ids().remove(id@),
            old(self).has_entry(id@) ==> r is Ok && deleted(
                old(self).nodes(),
                final(self).nodes(),
                old(self).root_map(),
                id@,
            ),
            !old(self).has_entry(id@) ==> (r matches Err(BookmarkError::NotFound(m)) && m@ == id@)
                && final(self).nodes() == old(self).nodes(),
    {
        match doc_get_key(&self.doc, &self.bookmarks_map, id) {
            Ok(Some(_)) => {},
            _ => {
                return Err(BookmarkError::NotFound(String::from_str(id)));
            },
        }
        match doc_delete_key(&mut self.doc, &self.bookmarks_map, id) {
            Ok(()) => {
                proof {
                    if old(self).keyed() {
                        lemma_deleted_keyed(
                            old(self).nodes(),
                            self.nodes(),
                            self.root_map(),
                            id@,
                        );
                    }
                }
                Ok(())
            },
            Err(e) => Err(document_error("Failed to delete bookmark: ", &e)),
        }
    }

    /// Appends the given note to the notes of the bookmark under
    /// `bookmark_id`.
    ///
    /// Without such an entry the error is `NotFound` with the id. It is a
    /// storage error where the entry is no bookmark object, where what it
    /// holds under `notes` is no list, or where the note's date cannot be
    /// written as text. On any error nothing changes.
    pub fn insert_note(&mut self, bookmark_id: &str, note: &Note) -> (r: BookmarkResult<()>)
        requires
            old(self).wf(),
        ensures
            old(self).anchored() ==> final(self).anchored(),
            old(self).keyed() ==> final(self).keyed(),
            r is Err ==> final(self).listing() == old(self).listing(),
            final(self).wf(),
            final(self).root_map() == old(self).root_map(),
            final(self).ids() == old(self).ids(),
            r is Err ==> final(self).nodes() == old(self).nodes(),
            !old(self).has_entry(bookmark_id@) ==> (r matches Err(BookmarkError::NotFound(m)) && m@
                == bookmark_id@),
            old(self).has_entry(bookmark_id@) ==> match cell_at(
                old(self).nodes(),
                old(self).root_map(),
                bookmark_id@,
            ) {
                Some(Cell::Dict(o)) => if note.created_at.writable() && (cell_at(
                    old(self).nodes(),
                    o,
                    "notes"@,
                ) is None || cell_at(old(self).nodes(), o, "notes"@)->Some_0 is List) {
                    r is Ok && note_added(
                        old(self).nodes(),
                        final(self).nodes(),
                        o,
                        note@,
                        note.created_at.written(),
                    )
                } else {
                    r matches Err(BookmarkError::StorageError(_))
                },
                _ => r matches Err(BookmarkError::StorageError(_)),
            },
    {
        let obj = match doc_get_key(&self.doc, &self.bookmarks_map, bookmark_id) {
            Ok(Some(Found::Dict(o))) => o,
            Ok(Some(_)) => {
                return Err(storage_error("Bookmark entry is not a map"));
            },
            Ok(None) => {
                return Err(BookmarkError::NotFound(String::from_str(bookmark_id)));
            },
            Err(e) => {
                return Err(document_error("Failed to get bookmark for note: ", &e));
            },
        };
        let date = match note.created_at.to_rfc3339() {
            Some(d) => d,
            None => {
                return Err(storage_error("The date of the note cannot be written"));
            },
        };
        let ghost n0 = self.nodes();
        let ghost map = self.root_map();
        let list = match doc_get_key(&self.doc, &obj, "notes") {
            Ok(Some(Found::List(l))) => {
                assert(entries(n0, obj).insert("notes"@, Cell::List(l)) =~= entries(n0, obj));
                l
            },
            Ok(Some(_)) => {
                return Err(storage_error("The notes of the bookmark are not a list"));
            },
            Ok(None) => match doc_put_object(&mut self.doc, &obj, "notes", NodeKind::List) {
                Ok(l) => l,
                Err(e) => {
                    return Err(document_error("Failed to create notes list: ", &e));
                },
            },
            Err(e) => {
                return Err(document_error("Failed to get notes list: ", &e));
            },
        };
        let ghost n1 = self.nodes();
        assert(elements(n1, list) =~= note_cells(n0, obj));
        let n = write_note(&mut self.doc, &list, note, date.as_str())?;
        proof {
            let n2 = self.nodes();
            lemma_field_names();
            assert(n2[obj] == n1[obj]);
            assert(n2[map] == n0[map]);
            assert(note_cells(n2, obj) == elements(n1, list).push(Cell::Dict(n@)));
            assert(note_cells(n2, obj).drop_last() =~= note_cells(n0, obj));
            if old(self).keyed() {
                assert(holds_key(n0, map, bookmark_id@));
                lemma_note_added_keyed(n0, n2, map, obj, note@, date@);
            }
        }
        Ok(())
    }

    /// Appends a new note with the given content, a new id and the current
    /// time to the bookmark under `bookmark_id`, and returns the note's id.
    ///
    /// The current time can always be written, so this succeeds on every
    /// bookmark object whose notes are a list or not there yet. Without an
    /// entry under the id the error is `NotFound` with the id; it is a
    /// storage error where the entry is no bookmark object or where what
    /// it holds under `notes` is no list. On any error nothing changes.
    pub fn add_note(&mut self, bookmark_id: &str, content: &str) -> (r: BookmarkResult<String>)
        requires
            old(self).wf(),
        ensures
            old(self).anchored() ==> final(self).anchored(),
            old(self).keyed() ==> final(self).keyed(),
            r is Err ==> final(self).listing() == old(self).listing(),
            final(self).wf(),
            final(self).root_map() == old(self).root_map(),
            final(self).ids() == old(self).ids(),
            r is Err ==> final(self).nodes() == old(self).nodes(),
            !old(self).has_entry(bookmark_id@) ==> (r matches Err(BookmarkError::NotFound(m)) && m@
                == bookmark_id@),
            old(self).has_entry(bookmark_id@) ==> match cell_at(
                old(self).nodes(),
                old(self).root_map(),
                bookmark_id@,
            ) {
                Some(Cell::Dict(o)) => if cell_at(old(self).nodes(), o, "notes"@) is None || cell_at(
                    old(self).nodes(),
                    o,
                    "notes"@,
                )->Some_0 is List {
                    r is Ok
                } else {
                    r matches Err(BookmarkError::StorageError(_))
                },
                _ => r matches Err(BookmarkError::StorageError(_)),
            },
            r matches Ok(id) ==> cell_at(
                old(self).nodes(),
                old(self).root_map(),
                bookmark_id@,
            ) matches Some(Cell::Dict(o)) && exists|v: NoteView| #[trigger]
                note_added(old(self).nodes(), final(self).nodes(), o, v, v.created_at.written())
                    && v.id == id@ && v.content == content@ && v.created_at.writable(),
    {
        let note = Note::new(content);
        match self.insert_note(bookmark_id, &note) {
            Ok(()) => {
                proof {
                    let o = cell_at(old(self).nodes(), old(self).root_map(), bookmark_id@)->Some_0->Dict_0;
                    assert(note_added(
                        old(self).nodes(),
                        self.nodes(),
                        o,
                        note@,
                        note@.created_at.written(),
                    ));
                }
                Ok(note.id)
            },
            Err(e) => Err(e),
        }
    }

    /// Removes the first note with the given id from the bookmark under
    /// `bookmark_id`.
    ///
    /// Without such an entry the error is `NotFound` with the bookmark id;
    /// it is a storage error where the entry is no bookmark object; and
    /// where no note of the bookmark has the id the error is `NotFound`
    /// naming the note. On any error nothing changes.
    pub fn remove_note(&mut self, bookmark_id: &str, note_id: &str) -> (r: BookmarkResult<()>)
        requires
            old(self).wf(),
        ensures
            old(self).anchored() ==> final(self).anchored(),
            old(self).keyed() ==> final(self).keyed(),
            r is Err ==> final(self).listing() == old(self).listing(),
            final(self).wf(),
            final(self).root_map() == old(self).root_map(),
            final(self).ids() == old(self).ids(),
            r is Err ==> final(self).nodes() == old(self).nodes(),
            !old(self).has_entry(bookmark_id@) ==> (r matches Err(BookmarkError::NotFound(m)) && m@
                == bookmark_id@),
            old(self).has_entry(bookmark_id@) ==> match cell_at(
                old(self).nodes(),
                old(self).root_map(),
                bookmark_id@,
            ) {
                Some(Cell::Dict(o)) => match first_note_cell(
                    old(self).nodes(),
                    note_cells(old(self).nodes(), o),
                    note_id@,
                ) {
                    Some(i) => r is Ok && note_removed(old(self).nodes(), final(self).nodes(), o, i),
                    None => r matches Err(BookmarkError::NotFound(m)) && m@ == note_missing_text(
                        note_id@,
                    ),
                },
                _ => r matches Err(BookmarkError::StorageError(_)),
            },
    {
        let obj = match doc_get_key(&self.doc, &self.bookmarks_map, bookmark_id) {
            Ok(Some(Found::Dict(o))) => o,
            Ok(Some(_)) => {
                return Err(storage_error("Bookmark entry is not a map"));
            },
            Ok(None) => {
                return Err(BookmarkError::NotFound(String::from_str(bookmark_id)));
            },
            Err(e) => {
                return Err(document_error("Failed to get bookmark for note removal: ", &e));
            },
        };
        let ghost n0 = self.nodes();
        let ghost map = self.root_map();
        let list = match doc_get_key(&self.doc, &obj, "notes") {
            Ok(Some(Found::List(l))) => l,
            _ => {
                assert(note_cells(n0, obj) =~= Seq::<Cell>::empty());
                return Err(note_missing(note_id));
            },
        };
        let ghost cells = note_cells(n0, obj);
        let len = doc_length(&self.doc, &list);
        let mut i: usize = 0;
        while i < len
            invariant
                *self == *old(self),
                self.nodes() == n0,
                self.root_map() == map,
                n0 == old(self).nodes(),
                map == old(self).root_map(),
                self.wf(),
                cell_at(n0, map, bookmark_id@) == Some(Cell::Dict(obj)),
                cell_at(n0, obj, "notes"@) == Some(Cell::List(list)),
                is_list(n0, list),
                is_map(n0, map),
                cells == elements(n0, list),
                len == cells.len(),
                i <= len,
                forall|j: int| 0 <= j < i ==> !is_note_with_id(n0, #[trigger] cells[j], note_id@),
            decreases len - i,
        {
            let here = match doc_get_index(&self.doc, &list, i) {
                Ok(Some(Found::Dict(n))) => match read_text(&self.doc, &n, "id") {
                    Some(id) => same_text(id.as_str(), note_id),
                    None => false,
                },
                _ => false,
            };
            if here {
                proof {
                    lemma_first_note_cell(n0, cells, note_id@);
                }
                return match doc_delete_index(&mut self.doc, &list, i) {
                    Ok(()) => {
                        proof {
                            if old(self).keyed() {
                                lemma_note_removed_keyed(n0, self.nodes(), map, obj, i as int);
                            }
                        }
                        Ok(())
                    },
                    Err(e) => Err(document_error("Failed to remove note: ", &e)),
                };
            }
            i = i + 1;
        }
        proof {
            lemma_first_note_cell(n0, cells, note_id@);
        }
        Err(note_missing(note_id))
    }
}

/// The filters that only ask for a text.
pub open spec fn text_only(query: Seq<char>) -> FiltersView {
    FiltersView { text_query: Some(query), ..no_filters() }
}

/// The filters that only ask for tags.
pub open spec fn tags_only(tags: Seq<Seq<char>>) -> FiltersView {
    FiltersView { tags: Some(tags), ..no_filters() }
}

/// `out` is what a query finds, said without regard to the order in which
/// the document walks its keys: every bookmark of the map that decodes,
/// each once, in the order of some listing of the map's keys, and of those
/// what the filters select, where filters are given.
pub open spec fn finds(
    nodes: Nodes,
    map: automerge::ObjId,
    filters: Option<FiltersView>,
    out: Seq<BookmarkView>,
) -> bool {
    exists|listing: Seq<BookmarkView>| #[trigger]
        lists_all(nodes, map, listing) && match filters {
            Some(f) => selects(listing, f, out),
            None => out == listing,
        }
}

/// Whether two lists of hashes are the same.
fn same_hashes(a: &Vec<Vec<u8>>, b: &Vec<Vec<u8>>) -> (r: bool)
    ensures
        r == (byte_views(a@) == byte_views(b@)),
{
    if a.len() != b.len() {
        assert(byte_views(a@).len() != byte_views(b@).len());
        return false;
    }
    let mut i: usize = 0;
    while i < a.len()
        invariant
            i <= a.len(),
            a.len() == b.len(),
            forall|j: int| 0 <= j < i ==> a[j]@ == b[j]@,
        decreases a.len() - i,
    {
        if a[i].len() != b[i].len() {
            assert(byte_views(a@)[i as int] == a[i as int]@);
            assert(byte_views(b@)[i as int] == b[i as int]@);
            return false;
        }
        let mut k: usize = 0;
        let width = a[i].len();
        while k < width
            invariant
                width == a[i as int].len(),
                i < a.len(),
                a.len() == b.len(),
                k <= a[i as int].len(),
                a[i as int].len() == b[i as int].len(),
                forall|j: int| 0 <= j < k ==> a[i as int][j] == b[i as int][j],
            decreases width - k,
        {
            if a[i][k] != b[i][k] {
                assert(byte_views(a@)[i as int] == a[i as int]@);
                assert(byte_views(b@)[i as int] == b[i as int]@);
                assert(a[i as int]@[k as int] != b[i as int]@[k as int]);
                return false;
            }
            k = k + 1;
        }
        assert(a[i as int]@ =~= b[i as int]@);
        i = i + 1;
    }
    assert(byte_views(a@) =~= byte_views(b@));
    true
}

/// `out` is what the filters select from the listing; the listing itself
/// where none are given.
pub open spec fn found(listing: Seq<BookmarkView>, filters: Option<FiltersView>, out: Seq<BookmarkView>) -> bool {
    match filters {
        Some(f) => selects(listing, f, out),
        None => out == listing,
    }
}

impl AutomergeBookmarkRepository {
    /// What the query finds in the store: what the filters select from
    /// the store's listing, and the listing itself where none are given.
    /// Entries that do not decode are passed over.
    pub fn find_all(&self, filters: Option<BookmarkFilters>) -> (r: BookmarkResult<Vec<Bookmark>>)
        requires
            self.wf(),
        ensures
            r matches Ok(out) && found(
                self.listing(),
                match filters {
                    Some(f) => Some(f@),
                    None => None,
                },
                bookmark_views(out@),
            ),
            lists_all(self.nodes(), self.root_map(), self.listing()),
            r matches Ok(out) && finds(
                self.nodes(),
                self.root_map(),
                match filters {
                    Some(f) => Some(f@),
                    None => None,
                },
                bookmark_views(out@),
            ),
    {
        let all = self.list_all();
        match filters {
            Some(f) => Ok(apply_filters(all, &f)),
            None => Ok(all),
        }
    }

    /// The bookmarks in whose title, URL, author or notes the query occurs,
    /// without regard to case.
    pub fn search_by_text(&self, query: &str) -> (r: BookmarkResult<Vec<Bookmark>>)
        requires
            self.wf(),
        ensures
            r matches Ok(out) && selects(self.listing(), text_only(query@), bookmark_views(out@)),
            r matches Ok(out) && finds(
                self.nodes(),
                self.root_map(),
                Some(text_only(query@)),
                bookmark_views(out@),
            ),
    {
        let mut f = BookmarkFilters::default();
        f.text_query = Some(String::from_str(query));
        let all = self.list_all();
        Ok(apply_filters(all, &f))
    }

    /// The bookmarks that have every one of the tags, without regard to case.
    pub fn find_by_tags(&self, tags: &[String]) -> (r: BookmarkResult<Vec<Bookmark>>)
        requires
            self.wf(),
        ensures
            r matches Ok(out) && selects(
                self.listing(),
                tags_only(texts(tags@)),
                bookmark_views(out@),
            ),
            r matches Ok(out) && finds(
                self.nodes(),
                self.root_map(),
                Some(tags_only(texts(tags@))),
                bookmark_views(out@),
            ),
    {
        let mut f = BookmarkFilters::default();
        f.tags = Some(copy_text_slice(tags));
        let all = self.list_all();
        Ok(apply_filters(all, &f))
    }

    /// The position of the sync state kept for the peer, which is made
    /// where there is none yet.
    fn peer_position(&mut self, peer_id: &str) -> (at: usize)
        ensures
            final(self).doc == old(self).doc,
            final(self).root == old(self).root,
            final(self).bookmarks_map == old(self).bookmarks_map,
            at < final(self).peers.len(),
            first_of_peer(final(self).peers@, peer_id@, at as int),
            final(self).peers[at as int].state == state_of_peer(old(self).peers@, peer_id@),
            !old(self).knows_peer(peer_id@) ==> is_new_sync_state(final(self).peers[at as int].state),
            forall|other: Seq<char>|
                other != peer_id@ ==> final(self).knows_peer(other) == old(self).knows_peer(other),
    {
        let mut i: usize = 0;
        while i < self.peers.len()
            invariant
                i <= self.peers.len(),
                *self == *old(self),
                forall|j: int| 0 <= j < i ==> (#[trigger] self.peers@[j]).peer@ != peer_id@,
            decreases self.peers.len() - i,
        {
            if same_text(self.peers[i].peer.as_str(), peer_id) {
                proof {
                    lemma_first_of_peer(self.peers@, peer_id@, i as int);
                }
                return i;
            }
            i = i + 1;
        }
        let made = sync_state_new();
        let ghost before = self.peers@;
        self.peers.push(PeerSync { peer: String::from_str(peer_id), state: made });
        proof {
            let after = self.peers@;
            let n = before.len() as int;
            assert(first_of_peer(after, peer_id@, n)) by {
                assert forall|j: int| 0 <= j < n implies (#[trigger] after[j]).peer@ != peer_id@ by {
                    assert(after[j] == before[j]);
                }
            }
            assert(!remembered(before, peer_id@)) by {
                if remembered(before, peer_id@) {
                    let k = choose|k: int| first_of_peer(before, peer_id@, k);
                    assert(before[k].peer@ == peer_id@);
                }
            }
            assert(new_sync_state() == made);
            assert forall|other: Seq<char>| other != peer_id@ implies remembered(after, other)
                == remembered(before, other) by {
                if remembered(before, other) {
                    let k = choose|k: int| first_of_peer(before, other, k);
                    assert(first_of_peer(after, other, k)) by {
                        assert(after[k] == before[k]);
                        assert forall|j: int| 0 <= j < k implies (#[trigger] after[j]).peer@
                            != other by {
                            assert(after[j] == before[j]);
                        }
                    }
                }
                if remembered(after, other) {
                    let k = choose|k: int| first_of_peer(after, other, k);
                    assert(k < n);
                    assert(first_of_peer(before, other, k)) by {
                        assert(after[k] == before[k]);
                        assert forall|j: int| 0 <= j < k implies (#[trigger] before[j]).peer@
                            != other by {
                            assert(after[j] == before[j]);
                        }
                    }
                }
            }
        }
        self.peers.len() - 1
    }

    /// The next sync message for the peer: the message that the store has
    /// for it, and no bytes where it has none. For a peer that the store
    /// has not met there is always one. A message is never without bytes,
    /// and the other side can read it. The document is left as it is; the
    /// store knows the peer from then on.
    pub fn generate_sync_message(&mut self, peer_id: &str) -> (r: BookmarkResult<Vec<u8>>)
        requires
            old(self).wf(),
        ensures
            old(self).anchored() ==> final(self).anchored(),
            old(self).keyed() ==> final(self).keyed(),
            final(self).wf(),
            final(self).root_map() == old(self).root_map(),
            final(self).nodes() == old(self).nodes(),
            final(self).heads() == old(self).heads(),
            r is Ok,
            r->Ok_0@ == (match old(self).message_for(peer_id@) {
                Some(m) => m,
                None => Seq::empty(),
            }),
            old(self).message_for(peer_id@) matches Some(m) ==> m.len() > 0 && is_sync_message(m),
            !old(self).knows_peer(peer_id@) ==> old(self).message_for(peer_id@) is Some,
            final(self).knows_peer(peer_id@),
            forall|other: Seq<char>|
                other != peer_id@ ==> final(self).knows_peer(other) == old(self).knows_peer(other),
    {
        let at = self.peer_position(peer_id);
        let ghost met = self.peers@;
        let mut entry = self.peers.remove(at);
        let message = doc_generate_sync(&mut self.doc, &mut entry.state);
        self.peers.insert(at, entry);
        proof {
            assert forall|j: int| 0 <= j < met.len() implies (#[trigger] self.peers@[j]).peer@
                == met[j].peer@ by {}
            lemma_same_peers(self.peers@, met);
        }
        match message {
            Some(bytes) => Ok(bytes),
            None => Ok(Vec::new()),
        }
    }

    /// Merges a sync message from the peer into the document and says
    /// whether the document's latest changes differ from those before. The
    /// merge starts from what the store remembers of the peer, and the
    /// store knows the peer from then on.
    ///
    /// It succeeds exactly where the merge gives a document, which then is
    /// what the store holds. A message that cannot be read or merged is a
    /// sync error; bytes that are no sync message leave the document as it
    /// was. Whatever the message holds, the bookmarks map stays the map it
    /// was.
    pub fn apply_sync_message(&mut self, peer_id: &str, message: Vec<u8>) -> (r: BookmarkResult<bool>)
        requires
            old(self).wf(),
        ensures
            final(self).wf(),
            final(self).root_map() == old(self).root_map(),
            objects_kept(old(self).nodes(), final(self).nodes()),
            r is Ok <==> old(self).merge(peer_id@, message@) is Some,
            r matches Ok(changed) ==> is_sync_message(message@) && final(self).nodes() == old(
                self,
            ).merge(peer_id@, message@)->Some_0 && changed == (final(self).heads() != old(
                self,
            ).heads()),
            r matches Err(e) ==> e is SyncError,
            !is_sync_message(message@) ==> r is Err && final(self).nodes() == old(self).nodes()
                && final(self).heads() == old(self).heads(),
            final(self).knows_peer(peer_id@),
            forall|other: Seq<char>|
                other != peer_id@ ==> final(self).knows_peer(other) == old(self).knows_peer(other),
    {
        let at = self.peer_position(peer_id);
        let ghost met = self.peers@;
        let before = doc_heads(&mut self.doc);
        let mut entry = self.peers.remove(at);
        let outcome = doc_receive_sync(&mut self.doc, &mut entry.state, message.as_slice());
        self.peers.insert(at, entry);
        proof {
            assert forall|j: int| 0 <= j < met.len() implies (#[trigger] self.peers@[j]).peer@
                == met[j].peer@ by {}
            lemma_same_peers(self.peers@, met);
        }
        let after = doc_heads(&mut self.doc);
        match outcome {
            Ok(()) => Ok(!same_hashes(&before, &after)),
            Err(text) => Err(BookmarkError::SyncError(text)),
        }
    }
}

} // verus!
