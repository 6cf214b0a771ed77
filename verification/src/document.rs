//! The replicated document and the operations the store performs on it.
//!
//! The document is an `automerge::AutoCommit`. Verification does not look
//! inside it: each operation used by the store is declared here with a
//! contract over [`doc_nodes`], the objects of the document and what each
//! holds. Those contracts are assumed, not proved.

use automerge::transaction::Transactable;
use automerge::ReadDoc;
use crate::text::texts;
use vstd::prelude::*;

verus! {

#[verifier::external_type_specification]
#[verifier::external_body]
pub struct ExAutoCommit(automerge::AutoCommit);

#[verifier::external_type_specification]
#[verifier::external_body]
pub struct ExObjId(automerge::ObjId);

#[verifier::external_type_specification]
#[verifier::external_body]
pub struct ExAutomergeError(automerge::AutomergeError);

#[verifier::external_type_specification]
#[verifier::external_body]
pub struct ExSyncState(automerge::sync::State);

/// What one slot of a map or a list holds.
pub enum Cell {
    /// A string scalar.
    Text(Seq<char>),
    /// A nested map object.
    Dict(automerge::ObjId),
    /// A nested list object.
    List(automerge::ObjId),
    /// Any other scalar or kind of object.
    Other,
}

/// What one object of the document holds.
pub enum Node {
    Dict(Map<Seq<char>, Cell>),
    List(Seq<Cell>),
    Other,
}

/// The objects of a document, by id, each with its current content.
pub uninterp spec fn doc_nodes(doc: automerge::AutoCommit) -> Map<automerge::ObjId, Node>;

/// A value read from a slot, in executable form.
pub enum Found {
    Text(String),
    Dict(automerge::ObjId),
    List(automerge::ObjId),
    Other,
}

impl Found {
    pub open spec fn cell(self) -> Cell {
        match self {
            Found::Text(s) => Cell::Text(s@),
            Found::Dict(id) => Cell::Dict(id),
            Found::List(id) => Cell::List(id),
            Found::Other => Cell::Other,
        }
    }
}

pub open spec fn found_cell(f: Option<Found>) -> Option<Cell> {
    match f {
        Some(v) => Some(v.cell()),
        None => None,
    }
}

/// `obj` is a map object of `nodes`.
pub open spec fn is_map(nodes: Map<automerge::ObjId, Node>, obj: automerge::ObjId) -> bool {
    nodes.contains_key(obj) && nodes[obj] is Dict
}

/// `obj` is a list object of `nodes`.
pub open spec fn is_list(nodes: Map<automerge::ObjId, Node>, obj: automerge::ObjId) -> bool {
    nodes.contains_key(obj) && nodes[obj] is List
}

/// The entries of the map object `obj`.
pub open spec fn entries(nodes: Map<automerge::ObjId, Node>, obj: automerge::ObjId) -> Map<
    Seq<char>,
    Cell,
> {
    nodes[obj]->Dict_0
}

/// The elements of the list object `obj`.
pub open spec fn elements(nodes: Map<automerge::ObjId, Node>, obj: automerge::ObjId) -> Seq<Cell> {
    nodes[obj]->List_0
}

/// The cell under `key` in the map object `obj`, if there is one.
pub open spec fn cell_at(
    nodes: Map<automerge::ObjId, Node>,
    obj: automerge::ObjId,
    key: Seq<char>,
) -> Option<Cell> {
    if is_map(nodes, obj) && entries(nodes, obj).contains_key(key) {
        Some(entries(nodes, obj)[key])
    } else {
        None
    }
}

/// `obj` is a list object of `nodes` and `index` is a position in it.
pub open spec fn has_element(
    nodes: Map<automerge::ObjId, Node>,
    obj: automerge::ObjId,
    index: int,
) -> bool {
    is_list(nodes, obj) && 0 <= index && index < elements(nodes, obj).len()
}

/// `obj` is a list object of `nodes` and `index` is a position in it or its end.
pub open spec fn has_position(
    nodes: Map<automerge::ObjId, Node>,
    obj: automerge::ObjId,
    index: int,
) -> bool {
    is_list(nodes, obj) && 0 <= index && index <= elements(nodes, obj).len()
}

/// A place in an object: a key of a map or a position in a list.
pub enum Slot<'a> {
    Key(&'a str),
    Index(usize),
}

/// A place in an object, as a mathematical value.
pub enum SlotView {
    Key(Seq<char>),
    Index(int),
}

impl<'a> View for Slot<'a> {
    type V = SlotView;

    open spec fn view(&self) -> SlotView {
        match self {
            Slot::Key(k) => SlotView::Key(k@),
            Slot::Index(i) => SlotView::Index(*i as int),
        }
    }
}

/// The place can be read in `obj`: a key in a map object, or a position
/// within a list object.
pub open spec fn can_read(nodes: Map<automerge::ObjId, Node>, obj: automerge::ObjId, slot: SlotView) -> bool {
    match slot {
        SlotView::Key(_) => is_map(nodes, obj),
        SlotView::Index(i) => has_element(nodes, obj, i),
    }
}

/// What the place holds in `obj`, if anything.
pub open spec fn cell_in(nodes: Map<automerge::ObjId, Node>, obj: automerge::ObjId, slot: SlotView) -> Option<
    Cell,
> {
    match slot {
        SlotView::Key(k) => cell_at(nodes, obj, k),
        SlotView::Index(i) => Some(elements(nodes, obj)[i]),
    }
}

/// The objects after what the place holds in `obj` was taken away.
pub open spec fn without(nodes: Map<automerge::ObjId, Node>, obj: automerge::ObjId, slot: SlotView) -> Map<
    automerge::ObjId,
    Node,
> {
    match slot {
        SlotView::Key(k) => nodes.insert(obj, Node::Dict(entries(nodes, obj).remove(k))),
        SlotView::Index(i) => nodes.insert(obj, Node::List(elements(nodes, obj).remove(i))),
    }
}

/// The kinds of object the store creates.
#[derive(Clone, Copy, Debug, PartialEq, Eq, Structural)]
pub enum NodeKind {
    Dict,
    List,
}

/// An object of the given kind that holds nothing yet.
pub open spec fn empty_node(kind: NodeKind) -> Node {
    match kind {
        NodeKind::Dict => Node::Dict(Map::empty()),
        NodeKind::List => Node::List(Seq::empty()),
    }
}

/// The cell that refers to the object `id` of the given kind.
pub open spec fn cell_ref(kind: NodeKind, id: automerge::ObjId) -> Cell {
    match kind {
        NodeKind::Dict => Cell::Dict(id),
        NodeKind::List => Cell::List(id),
    }
}

/// Every object of `before` is still an object of its kind in `after`.
pub open spec fn objects_kept(
    before: Map<automerge::ObjId, Node>,
    after: Map<automerge::ObjId, Node>,
) -> bool {
    (forall|o: automerge::ObjId| #[trigger] is_map(before, o) ==> is_map(after, o)) && (forall|
        o: automerge::ObjId,
    | #[trigger] is_list(before, o) ==> is_list(after, o))
}

/// The root object of a document with the given objects.
pub uninterp spec fn document_root(nodes: Map<automerge::ObjId, Node>) -> automerge::ObjId;

/// Whether a cell refers to the object `obj`.
pub open spec fn refers_to(c: Cell, obj: automerge::ObjId) -> bool {
    match c {
        Cell::Dict(id) => id == obj,
        Cell::List(id) => id == obj,
        _ => false,
    }
}

/// The objects that a saved document holds, where the bytes are one.
pub uninterp spec fn snapshot_nodes(bytes: Seq<u8>) -> Option<Map<automerge::ObjId, Node>>;

/// A cell that refers to an object refers to one of the right kind.
pub open spec fn cell_resolves(nodes: Map<automerge::ObjId, Node>, c: Cell) -> bool {
    match c {
        Cell::Dict(id) => is_map(nodes, id),
        Cell::List(id) => is_list(nodes, id),
        _ => true,
    }
}

/// `AutoCommit::new`: a document whose only object is an empty root map.
#[verifier::external_body]
pub(crate) fn doc_new() -> (doc: automerge::AutoCommit)
    ensures
        forall|o: automerge::ObjId| #[trigger]
            doc_nodes(doc).contains_key(o) ==> doc_nodes(doc)[o] == Node::Dict(Map::empty()),
{
    automerge::AutoCommit::new()
}

/// `AutoCommit::load`: the document that the bytes were saved from, object
/// for object, or an error where the bytes are no saved document.
#[verifier::external_body]
pub(crate) fn doc_load(bytes: &[u8]) -> (r: Result<automerge::AutoCommit, automerge::AutomergeError>)
    ensures
        match r {
            Ok(doc) => snapshot_nodes(bytes@) == Some(doc_nodes(doc)),
            Err(_) => snapshot_nodes(bytes@) is None,
        },
{
    automerge::AutoCommit::load(bytes)
}

/// `AutoCommit::save`: the whole document as bytes, of which there are
/// always some. Saving changes nothing in the document, and the bytes load
/// as the same objects.
#[verifier::external_body]
pub(crate) fn doc_save(doc: &mut automerge::AutoCommit) -> (bytes: Vec<u8>)
    ensures
        doc_nodes(*final(doc)) == doc_nodes(*old(doc)),
        document_heads(*final(doc)) == document_heads(*old(doc)),
        snapshot_nodes(bytes@) == Some(doc_nodes(*old(doc))),
        bytes@.len() > 0,
{
    doc.save()
}

/// `automerge::ROOT`: the id of the root object, which in every document is
/// a map and has the same id.
#[verifier::external_body]
pub(crate) fn doc_root(doc: &automerge::AutoCommit) -> (root: automerge::ObjId)
    ensures
        is_map(doc_nodes(*doc), root),
        forall|nodes: Map<automerge::ObjId, Node>| #[trigger] document_root(nodes) == root,
{
    automerge::ROOT
}

/// `ReadDoc::get`: for a key of a map object, and for a position within a
/// list object, it returns what the place holds; an object id it returns
/// is that of an object of the stated kind, other than `obj` itself and
/// other than the root, which no object holds.
#[verifier::external_body]
pub(crate) fn doc_get(doc: &automerge::AutoCommit, obj: &automerge::ObjId, slot: Slot<'_>) -> (r:
    Result<Option<Found>, automerge::AutomergeError>)
    ensures
        can_read(doc_nodes(*doc), *obj, slot@) ==> r is Ok && found_cell(r->Ok_0) == cell_in(
            doc_nodes(*doc),
            *obj,
            slot@,
        ) && (r->Ok_0 is Some ==> cell_resolves(doc_nodes(*doc), r->Ok_0->Some_0.cell())
            && !refers_to(r->Ok_0->Some_0.cell(), *obj) && !refers_to(
            r->Ok_0->Some_0.cell(),
            document_root(doc_nodes(*doc)),
        )),
{
    let got = match slot {
        Slot::Key(key) => doc.get(obj, key)?,
        Slot::Index(index) => doc.get(obj, index)?,
    };
    Ok(got.map(|(value, id)| match value {
        automerge::Value::Object(automerge::ObjType::Map) => Found::Dict(id),
        automerge::Value::Object(automerge::ObjType::List) => Found::List(id),
        automerge::Value::Object(_) => Found::Other,
        automerge::Value::Scalar(s) => match s.as_str() {
            Some(t) => Found::Text(t.to_string()),
            None => Found::Other,
        },
    }))
}

/// What the key holds in the map object `obj`.
pub(crate) fn doc_get_key(doc: &automerge::AutoCommit, obj: &automerge::ObjId, key: &str) -> (r:
    Result<Option<Found>, automerge::AutomergeError>)
    ensures
        is_map(doc_nodes(*doc), *obj) ==> r is Ok && found_cell(r->Ok_0) == cell_at(
            doc_nodes(*doc),
            *obj,
            key@,
        ) && (r->Ok_0 is Some ==> cell_resolves(doc_nodes(*doc), r->Ok_0->Some_0.cell())
            && !refers_to(r->Ok_0->Some_0.cell(), *obj) && !refers_to(
            r->Ok_0->Some_0.cell(),
            document_root(doc_nodes(*doc)),
        )),
{
    doc_get(doc, obj, Slot::Key(key))
}

/// What the position holds in the list object `obj`.
pub(crate) fn doc_get_index(doc: &automerge::AutoCommit, obj: &automerge::ObjId, index: usize) -> (r:
    Result<Option<Found>, automerge::AutomergeError>)
    ensures
        has_element(doc_nodes(*doc), *obj, index as int) ==> r is Ok
            && found_cell(r->Ok_0) == Some(elements(doc_nodes(*doc), *obj)[index as int])
            && cell_resolves(doc_nodes(*doc), r->Ok_0->Some_0.cell())
            && !refers_to(r->Ok_0->Some_0.cell(), *obj) && !refers_to(
            r->Ok_0->Some_0.cell(),
            document_root(doc_nodes(*doc)),
        ),
{
    doc_get(doc, obj, Slot::Index(index))
}

/// The keys of an object of a document, in the order in which the
/// document walks them.
pub uninterp spec fn key_order(doc: automerge::AutoCommit, obj: automerge::ObjId) -> Seq<Seq<char>>;

/// `ReadDoc::keys`: the keys of the object in the order in which the
/// document walks them; on a map object, each of its keys once.
#[verifier::external_body]
pub(crate) fn doc_keys(doc: &automerge::AutoCommit, obj: &automerge::ObjId) -> (keys: Vec<String>)
    ensures
        texts(keys@) == key_order(*doc, *obj),
        is_map(doc_nodes(*doc), *obj) ==> texts(keys@).no_duplicates() && forall|k: Seq<char>|
            entries(doc_nodes(*doc), *obj).contains_key(k) <==> #[trigger] texts(keys@).contains(k),
{
    doc.keys(obj).collect()
}

/// `ReadDoc::length`: on a list object, the number of its elements.
#[verifier::external_body]
pub(crate) fn doc_length(doc: &automerge::AutoCommit, obj: &automerge::ObjId) -> (n: usize)
    ensures
        is_list(doc_nodes(*doc), *obj) ==> n == elements(doc_nodes(*doc), *obj).len(),
{
    doc.length(obj)
}

/// `Transactable::put` with a string: on a map object it sets the key to the
/// string and leaves every other key and object as it was.
#[verifier::external_body]
pub(crate) fn doc_put_text(
    doc: &mut automerge::AutoCommit,
    obj: &automerge::ObjId,
    key: &str,
    value: &str,
) -> (r: Result<(), automerge::AutomergeError>)
    ensures
        is_map(doc_nodes(*old(doc)), *obj) ==> r is Ok && doc_nodes(*final(doc)) == doc_nodes(
            *old(doc),
        ).insert(
            *obj,
            Node::Dict(entries(doc_nodes(*old(doc)), *obj).insert(key@, Cell::Text(value@))),
        ),
{
    doc.put(obj, key, value)
}

/// `Transactable::put_object`: on a map object it sets the key to a new,
/// empty object of the given kind, whose id it returns and which no object
/// had before, and leaves every other key and object as it was.
#[verifier::external_body]
pub(crate) fn doc_put_object(
    doc: &mut automerge::AutoCommit,
    obj: &automerge::ObjId,
    key: &str,
    kind: NodeKind,
) -> (r: Result<automerge::ObjId, automerge::AutomergeError>)
    ensures
        is_map(doc_nodes(*old(doc)), *obj) ==> r is Ok && !doc_nodes(*old(doc)).contains_key(
            r->Ok_0,
        ) && doc_nodes(*final(doc)) == doc_nodes(*old(doc)).insert(
            *obj,
            Node::Dict(entries(doc_nodes(*old(doc)), *obj).insert(key@, cell_ref(kind, r->Ok_0))),
        ).insert(r->Ok_0, empty_node(kind)),
{
    let made = match kind {
        NodeKind::Dict => automerge::ObjType::Map,
        NodeKind::List => automerge::ObjType::List,
    };
    doc.put_object(obj, key, made)
}

/// `Transactable::insert` with a string: on a list object and an index not
/// past its end, it puts the string at the index, moves the later elements
/// up by one, and leaves every other object as it was.
#[verifier::external_body]
pub(crate) fn doc_insert_text(
    doc: &mut automerge::AutoCommit,
    obj: &automerge::ObjId,
    index: usize,
    value: &str,
) -> (r: Result<(), automerge::AutomergeError>)
    ensures
        has_position(doc_nodes(*old(doc)), *obj, index as int) ==> r is Ok && doc_nodes(*final(doc)) == doc_nodes(*old(doc)).insert(
            *obj,
            Node::List(elements(doc_nodes(*old(doc)), *obj).insert(index as int, Cell::Text(value@))),
        ),
{
    doc.insert(obj, index, value)
}

/// `Transactable::insert_object`: as `insert`, with a new, empty object of
/// the given kind, whose id it returns and which no object had before.
#[verifier::external_body]
pub(crate) fn doc_insert_object(
    doc: &mut automerge::AutoCommit,
    obj: &automerge::ObjId,
    index: usize,
    kind: NodeKind,
) -> (r: Result<automerge::ObjId, automerge::AutomergeError>)
    ensures
        has_position(doc_nodes(*old(doc)), *obj, index as int) ==> r is Ok && !doc_nodes(*old(doc)).contains_key(r->Ok_0) && doc_nodes(*final(doc))
            == doc_nodes(*old(doc)).insert(
            *obj,
            Node::List(
                elements(doc_nodes(*old(doc)), *obj).insert(index as int, cell_ref(kind, r->Ok_0)),
            ),
        ).insert(r->Ok_0, empty_node(kind)),
{
    let made = match kind {
        NodeKind::Dict => automerge::ObjType::Map,
        NodeKind::List => automerge::ObjType::List,
    };
    doc.insert_object(obj, index, made)
}

/// `Transactable::delete`: for a key of a map object it removes the key,
/// if it is there; for a position within a list object it removes that
/// element and moves the later ones down by one. Every other key, element
/// and object is left as it was.
#[verifier::external_body]
pub(crate) fn doc_delete(doc: &mut automerge::AutoCommit, obj: &automerge::ObjId, slot: Slot<'_>) -> (r:
    Result<(), automerge::AutomergeError>)
    ensures
        can_read(doc_nodes(*old(doc)), *obj, slot@) ==> r is Ok && doc_nodes(*final(doc)) == without(
            doc_nodes(*old(doc)),
            *obj,
            slot@,
        ),
{
    match slot {
        Slot::Key(key) => doc.delete(obj, key),
        Slot::Index(index) => doc.delete(obj, index),
    }
}

/// Removes the key from the map object `obj`.
pub(crate) fn doc_delete_key(doc: &mut automerge::AutoCommit, obj: &automerge::ObjId, key: &str) -> (r:
    Result<(), automerge::AutomergeError>)
    ensures
        is_map(doc_nodes(*old(doc)), *obj) ==> r is Ok && doc_nodes(*final(doc)) == doc_nodes(
            *old(doc),
        ).insert(*obj, Node::Dict(entries(doc_nodes(*old(doc)), *obj).remove(key@))),
{
    doc_delete(doc, obj, Slot::Key(key))
}

/// Removes the element at the position from the list object `obj`.
pub(crate) fn doc_delete_index(
    doc: &mut automerge::AutoCommit,
    obj: &automerge::ObjId,
    index: usize,
) -> (r: Result<(), automerge::AutomergeError>)
    ensures
        has_element(doc_nodes(*old(doc)), *obj, index as int) ==> r is Ok && doc_nodes(*final(doc))
            == doc_nodes(*old(doc)).insert(
            *obj,
            Node::List(elements(doc_nodes(*old(doc)), *obj).remove(index as int)),
        ),
{
    doc_delete(doc, obj, Slot::Index(index))
}

/// The text in which a document error says what went wrong.
pub uninterp spec fn document_error_text(e: automerge::AutomergeError) -> Seq<char>;

/// The `Display` text of an `AutomergeError`.
#[verifier::external_body]
pub(crate) fn error_text(e: &automerge::AutomergeError) -> (text: String)
    ensures
        text@ == document_error_text(*e),
{
    e.to_string()
}

/// The hashes of the latest changes of a document, once what is pending
/// in it is committed.
pub uninterp spec fn document_heads(doc: automerge::AutoCommit) -> Seq<Seq<u8>>;

/// The byte sequences of a list of byte vectors.
pub open spec fn byte_views(v: Seq<Vec<u8>>) -> Seq<Seq<u8>> {
    v.map_values(|h: Vec<u8>| h@)
}

/// Whether a sync state is as `sync::State::new` makes it: that of a peer
/// with whom nothing was exchanged yet.
pub uninterp spec fn is_new_sync_state(state: automerge::sync::State) -> bool;

/// The sync state of a peer with whom nothing was exchanged yet.
pub open spec fn new_sync_state() -> automerge::sync::State {
    choose|state: automerge::sync::State| is_new_sync_state(state)
}

/// Whether the bytes are a sync message, one that `sync::Message::decode`
/// reads.
pub uninterp spec fn is_sync_message(bytes: Seq<u8>) -> bool;

/// What the document holds once the bytes were merged into it as a sync
/// message from a peer of whom `state` is remembered; nothing where the
/// bytes are no sync message or what they hold cannot be merged.
pub uninterp spec fn merged(
    doc: automerge::AutoCommit,
    state: automerge::sync::State,
    bytes: Seq<u8>,
) -> Option<Map<automerge::ObjId, Node>>;

/// `AutoCommit::get_heads`: the hashes of the latest changes, after what
/// was pending is committed. Asking for them changes neither them nor what
/// the document holds, nor what a merge into the document gives: a merge
/// commits what is pending first, too.
#[verifier::external_body]
pub(crate) fn doc_heads(doc: &mut automerge::AutoCommit) -> (heads: Vec<Vec<u8>>)
    ensures
        doc_nodes(*final(doc)) == doc_nodes(*old(doc)),
        byte_views(heads@) == document_heads(*old(doc)),
        document_heads(*final(doc)) == document_heads(*old(doc)),
        forall|state: automerge::sync::State, bytes: Seq<u8>| #[trigger]
            merged(*final(doc), state, bytes) == merged(*old(doc), state, bytes),
{
    doc.get_heads().iter().map(|h| h.0.to_vec()).collect()
}

/// `sync::State::new`: the sync state for a peer with whom nothing was
/// exchanged yet. There is one such state.
#[verifier::external_body]
pub(crate) fn sync_state_new() -> (state: automerge::sync::State)
    ensures
        is_new_sync_state(state),
        forall|other: automerge::sync::State| #[trigger]
            is_new_sync_state(other) ==> other == state,
{
    automerge::sync::State::new()
}

/// The next sync message that a document has for a peer of whom `state`
/// is remembered, where it has one.
pub uninterp spec fn sync_message(
    doc: automerge::AutoCommit,
    state: automerge::sync::State,
) -> Option<Seq<u8>>;

/// `SyncDoc::generate_sync_message`, encoded: the next message for the
/// peer, if there is one. For a peer with whom nothing was exchanged yet
/// there is one; a message is never without bytes, and it is one that
/// `sync::Message::decode` reads. Generating it changes neither what the
/// document holds nor its latest changes.
#[verifier::external_body]
pub(crate) fn doc_generate_sync(
    doc: &mut automerge::AutoCommit,
    state: &mut automerge::sync::State,
) -> (message: Option<Vec<u8>>)
    ensures
        doc_nodes(*final(doc)) == doc_nodes(*old(doc)),
        document_heads(*final(doc)) == document_heads(*old(doc)),
        (match message {
            Some(m) => Some(m@),
            None => None,
        }) == sync_message(*old(doc), *old(state)),
        is_new_sync_state(*old(state)) ==> message is Some,
        message matches Some(m) ==> m@.len() > 0 && is_sync_message(m@),
{
    automerge::sync::SyncDoc::generate_sync_message(&doc.sync(), state).map(|m| m.encode())
}

/// `sync::Message::decode` and `SyncDoc::receive_sync_message`: merges what
/// the peer sent, where it can be merged, and the document then holds what
/// the merge gives. Bytes that are no sync message are an error, and the
/// document is not touched. Whatever a message holds, objects that exist
/// stay objects of their kind.
#[verifier::external_body]
pub(crate) fn doc_receive_sync(
    doc: &mut automerge::AutoCommit,
    state: &mut automerge::sync::State,
    bytes: &[u8],
) -> (r: Result<(), String>)
    ensures
        objects_kept(doc_nodes(*old(doc)), doc_nodes(*final(doc))),
        r is Ok <==> merged(*old(doc), *old(state), bytes@) is Some,
        r is Ok ==> is_sync_message(bytes@) && doc_nodes(*final(doc)) == merged(
            *old(doc),
            *old(state),
            bytes@,
        )->Some_0,
        !is_sync_message(bytes@) ==> r is Err && doc_nodes(*final(doc)) == doc_nodes(*old(doc))
            && document_heads(*final(doc)) == document_heads(*old(doc)),
{
    let message = automerge::sync::Message::decode(bytes).map_err(|e| e.to_string())?;
    automerge::sync::SyncDoc::receive_sync_message(&mut doc.sync(), state, message).map_err(
        |e| e.to_string(),
    )
}

} // verus!
