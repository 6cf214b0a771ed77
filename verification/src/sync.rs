//! The peer synchronisation session.
//!
//! A session talks to one peer over one connection. It sends `Join`, waits
//! for `Peer`, then exchanges `Sync` and `Request` messages until the
//! connection closes or the time is up. The connection itself is not
//! handled here: the caller reads and writes frames, turns them into
//! [`SessionEvent`]s, and does what the returned [`SessionAction`] says.

use crate::bookmark::fresh_id;
use crate::config::Config;
use crate::errors::{BookmarkError, BookmarkResult};
use crate::traits::BookmarkRepository;
use crate::text::{joined, opt_text, same_text, texts};
use vstd::prelude::*;
use vstd::string::*;

verus! {

/// The arguments of a sync run.
#[derive(Debug)]
pub struct SyncArgs {
    /// The address of the sync server; the configured one if absent.
    pub server: Option<String>,
    /// The document to sync; the bookmarks document if absent.
    pub document_id: Option<String>,
    /// Receive and count, but change nothing.
    pub dry_run: bool,
    /// The time to wait in seconds; the configured one if absent.
    pub timeout: Option<u64>,
}

/// The report of a sync run.
#[derive(Debug)]
pub struct SyncResponse {
    pub server: String,
    pub document_id: String,
    pub changes_received: usize,
    pub changes_sent: usize,
    pub success: bool,
    pub duration_ms: u64,
}

/// The messages of the protocol.
#[derive(Debug)]
pub enum ProtocolMessage {
    Join { sender_id: String, supported_protocol_versions: Vec<String>, storage_id: Option<String> },
    Peer {
        sender_id: String,
        supported_protocol_versions: Vec<String>,
        storage_id: Option<String>,
        selected_protocol_version: String,
    },
    Sync { document_id: String, sender_id: String, target_id: String, data: Vec<u8> },
    Request { document_id: String, sender_id: String, target_id: String },
}

/// A message of the protocol as a mathematical value.
pub enum MessageView {
    Join { sender_id: Seq<char>, supported_protocol_versions: Seq<Seq<char>>, storage_id: Option<Seq<char>> },
    Peer {
        sender_id: Seq<char>,
        supported_protocol_versions: Seq<Seq<char>>,
        storage_id: Option<Seq<char>>,
        selected_protocol_version: Seq<char>,
    },
    Sync { document_id: Seq<char>, sender_id: Seq<char>, target_id: Seq<char>, data: Seq<u8> },
    Request { document_id: Seq<char>, sender_id: Seq<char>, target_id: Seq<char> },
}

impl View for ProtocolMessage {
    type V = MessageView;

    open spec fn view(&self) -> MessageView {
        match self {
            ProtocolMessage::Join { sender_id, supported_protocol_versions, storage_id } => MessageView::Join {
                sender_id: sender_id@,
                supported_protocol_versions: texts(supported_protocol_versions@),
                storage_id: opt_text(*storage_id),
            },
            ProtocolMessage::Peer {
                sender_id,
                supported_protocol_versions,
                storage_id,
                selected_protocol_version,
            } => MessageView::Peer {
                sender_id: sender_id@,
                supported_protocol_versions: texts(supported_protocol_versions@),
                storage_id: opt_text(*storage_id),
                selected_protocol_version: selected_protocol_version@,
            },
            ProtocolMessage::Sync { document_id, sender_id, target_id, data } => MessageView::Sync {
                document_id: document_id@,
                sender_id: sender_id@,
                target_id: target_id@,
                data: data@,
            },
            ProtocolMessage::Request { document_id, sender_id, target_id } => MessageView::Request {
                document_id: document_id@,
                sender_id: sender_id@,
                target_id: target_id@,
            },
        }
    }
}

/// The byte that starts every frame.
pub const ENVELOPE_MARKER: u8 = 0;

/// A frame: the envelope marker, then the encoded message.
pub fn frame_message(payload: &Vec<u8>) -> (frame: Vec<u8>)
    ensures
        frame@ == seq![ENVELOPE_MARKER] + payload@,
{
    let mut frame: Vec<u8> = Vec::new();
    frame.push(ENVELOPE_MARKER);
    let mut i: usize = 0;
    while i < payload.len()
        invariant
            i <= payload.len(),
            frame@ == seq![ENVELOPE_MARKER] + payload@.subrange(0, i as int),
        decreases payload.len() - i,
    {
        frame.push(payload[i]);
        assert(payload@.subrange(0, i + 1) =~= payload@.subrange(0, i as int).push(payload[i as int]));
        i = i + 1;
    }
    assert(payload@.subrange(0, payload.len() as int) =~= payload@);
    frame
}

/// The encoded message of a frame: the frame without its first byte. An
/// empty frame holds none.
pub fn frame_payload(frame: &Vec<u8>) -> (payload: Option<Vec<u8>>)
    ensures
        frame@.len() == 0 ==> payload is None,
        frame@.len() > 0 ==> (payload matches Some(p) && p@ == frame@.subrange(1, frame@.len() as int)),
{
    if frame.len() == 0 {
        return None;
    }
    let mut out: Vec<u8> = Vec::new();
    let mut i: usize = 1;
    while i < frame.len()
        invariant
            1 <= i <= frame.len(),
            out@ == frame@.subrange(1, i as int),
        decreases frame.len() - i,
    {
        out.push(frame[i]);
        assert(frame@.subrange(1, i + 1) =~= frame@.subrange(1, i as int).push(frame[i as int]));
        i = i + 1;
    }
    Some(out)
}

/// What a sync run works with, once arguments and configuration are weighed.
#[derive(Debug)]
pub struct SyncSettings {
    pub server: String,
    pub document_id: String,
    pub dry_run: bool,
    pub timeout_secs: u64,
}

/// The settings of a sync run: the arguments where given, the configuration
/// otherwise, and the bookmarks document by default. It is an error to sync
/// where the configuration disables it.
pub fn sync_settings(args: &SyncArgs, config: &Config) -> (r: BookmarkResult<SyncSettings>)
    ensures
        !config.sync.enabled ==> (r matches Err(BookmarkError::SyncError(m)) && m@
            == "Sync is disabled in configuration"@),
        config.sync.enabled ==> (r matches Ok(s) && s.server@ == (match args.server {
            Some(a) => a@,
            None => config.sync.server_url@,
        }) && s.document_id@ == (match args.document_id {
            Some(d) => d@,
            None => "bookmarks"@,
        }) && s.dry_run == args.dry_run && s.timeout_secs == (match args.timeout {
            Some(t) => t,
            None => config.sync.timeout_secs,
        })),
{
    if !config.sync.enabled {
        return Err(BookmarkError::SyncError(String::from_str("Sync is disabled in configuration")));
    }
    let server = match &args.server {
        Some(a) => a.clone(),
        None => config.sync.server_url.clone(),
    };
    let document_id = match &args.document_id {
        Some(d) => d.clone(),
        None => String::from_str("bookmarks"),
    };
    let timeout_secs = match args.timeout {
        Some(t) => t,
        None => config.sync.timeout_secs,
    };
    Ok(SyncSettings { server, document_id, dry_run: args.dry_run, timeout_secs })
}

/// Whether syncing after a change is wanted: sync and automatic sync must
/// both be enabled.
pub fn auto_sync_wanted(config: &Config) -> (r: bool)
    ensures
        r == (config.sync.enabled && config.sync.auto_sync),
{
    config.sync.enabled && config.sync.auto_sync
}

/// How far a session has come.
#[derive(Clone, Copy, Debug, PartialEq, Eq, Structural)]
pub enum SessionPhase {
    /// Not yet joined.
    Connecting,
    /// `Join` was sent; the peer has not answered yet.
    AwaitingPeer,
    /// The peer answered.
    Exchanging,
    /// The session is over.
    Terminated,
}

/// What can happen on the connection.
#[derive(Debug)]
pub enum SessionEvent {
    /// A frame arrived and was decoded.
    Message(ProtocolMessage),
    /// A frame arrived that is no message.
    Undecodable,
    /// The peer closed the connection.
    Closed,
    /// The time is up.
    TimedOut,
    /// The transport failed.
    TransportError(String),
}

/// What the caller is to do next.
#[derive(Debug)]
pub enum SessionAction {
    /// Wait for the next event.
    Continue,
    /// Send the message, then wait for the next event.
    Send(ProtocolMessage),
    /// Stop: the session is over.
    Stop,
}

/// One session with one peer.
#[derive(Debug)]
pub struct SyncSession {
    phase: SessionPhase,
    peer_id: String,
    document_id: String,
    dry_run: bool,
    changes_received: usize,
    changes_sent: usize,
}

/// The session is under way: joined and not over.
pub open spec fn is_live(phase: SessionPhase) -> bool {
    phase == SessionPhase::AwaitingPeer || phase == SessionPhase::Exchanging
}

/// The text of the error for a failed transport.
pub open spec fn transport_error_text(e: Seq<char>) -> Seq<char> {
    "WebSocket error: "@ + e
}

impl SyncSession {
    pub closed spec fn phase(&self) -> SessionPhase {
        self.phase
    }

    pub closed spec fn peer_id(&self) -> Seq<char> {
        self.peer_id@
    }

    pub closed spec fn document_id(&self) -> Seq<char> {
        self.document_id@
    }

    pub closed spec fn dry_run(&self) -> bool {
        self.dry_run
    }

    pub closed spec fn changes_received(&self) -> nat {
        self.changes_received as nat
    }

    pub closed spec fn changes_sent(&self) -> nat {
        self.changes_sent as nat
    }

    /// The counters can still count.
    pub closed spec fn has_room(&self) -> bool {
        self.changes_received < usize::MAX && self.changes_sent < usize::MAX
    }

    /// The session differs from `other` at most in phase and counters.
    pub open spec fn same_identity(&self, other: &SyncSession) -> bool {
        self.peer_id() == other.peer_id() && self.document_id() == other.document_id()
            && self.dry_run() == other.dry_run()
    }

    /// A session that has not joined yet. The peer id is this side's own
    /// identity for the session.
    pub fn new(peer_id: String, document_id: String, dry_run: bool) -> (s: SyncSession)
        ensures
            s.phase() == SessionPhase::Connecting,
            s.peer_id() == peer_id@,
            s.document_id() == document_id@,
            s.dry_run() == dry_run,
            s.changes_received() == 0,
            s.changes_sent() == 0,
            s.has_room(),
    {
        SyncSession {
            phase: SessionPhase::Connecting,
            peer_id,
            document_id,
            dry_run,
            changes_received: 0,
            changes_sent: 0,
        }
    }

    /// A session that has not joined yet, under a new random identity that
    /// is used for this session alone.
    pub fn with_fresh_peer(document_id: String, dry_run: bool) -> (s: SyncSession)
        ensures
            s.phase() == SessionPhase::Connecting,
            s.peer_id().len() == 36,
            s.document_id() == document_id@,
            s.dry_run() == dry_run,
            s.changes_received() == 0,
            s.changes_sent() == 0,
            s.has_room(),
    {
        SyncSession::new(fresh_id(), document_id, dry_run)
    }

    pub fn current_phase(&self) -> (r: SessionPhase)
        ensures
            r == self.phase(),
    {
        self.phase
    }

    pub fn received(&self) -> (r: usize)
        ensures
            r == self.changes_received(),
    {
        self.changes_received
    }

    pub fn sent(&self) -> (r: usize)
        ensures
            r == self.changes_sent(),
    {
        self.changes_sent
    }

    /// Whether both counters can still count one more message.
    pub fn can_count(&self) -> (r: bool)
        ensures
            r == self.has_room(),
    {
        self.changes_received < usize::MAX && self.changes_sent < usize::MAX
    }

    /// Joins: returns the `Join` message to send first. A session joins once.
    pub fn start(&mut self) -> (r: Option<ProtocolMessage>)
        ensures
            final(self).same_identity(old(self)),
            final(self).has_room() == old(self).has_room(),
            final(self).changes_received() == old(self).changes_received(),
            final(self).changes_sent() == old(self).changes_sent(),
            old(self).phase() == SessionPhase::Connecting ==> final(self).phase()
                == SessionPhase::AwaitingPeer && (r matches Some(m) && m@ == MessageView::Join {
                sender_id: old(self).peer_id(),
                supported_protocol_versions: seq!["1"@],
                storage_id: None,
            }),
            old(self).phase() != SessionPhase::Connecting ==> r is None && final(self).phase()
                == old(self).phase(),
    {
        if self.phase != SessionPhase::Connecting {
            return None;
        }
        self.phase = SessionPhase::AwaitingPeer;
        let mut versions: Vec<String> = Vec::new();
        versions.push(String::from_str("1"));
        assert(texts(versions@) =~= seq!["1"@]);
        Some(
            ProtocolMessage::Join {
                sender_id: self.peer_id.clone(),
                supported_protocol_versions: versions,
                storage_id: None,
            },
        )
    }

    /// What to do with this side's sync data for the peer `target`: nothing
    /// where there is none, else send it in a `Sync` message and count it.
    pub fn reply_with(&mut self, target: &str, data: Vec<u8>) -> (r: SessionAction)
        requires
            old(self).has_room(),
        ensures
            final(self).same_identity(old(self)),
            final(self).phase() == old(self).phase(),
            final(self).changes_received() == old(self).changes_received(),
            data@.len() == 0 ==> r is Continue && final(self).changes_sent() == old(
                self,
            ).changes_sent(),
            data@.len() > 0 ==> final(self).changes_sent() == old(self).changes_sent() + 1 && (
            r matches SessionAction::Send(m) && m@ == MessageView::Sync {
                document_id: old(self).document_id(),
                sender_id: old(self).peer_id(),
                target_id: target@,
                data: data@,
            }),
    {
        if data.len() == 0 {
            return SessionAction::Continue;
        }
        self.changes_sent = self.changes_sent + 1;
        SessionAction::Send(
            ProtocolMessage::Sync {
                document_id: self.document_id.clone(),
                sender_id: self.peer_id.clone(),
                target_id: String::from_str(target),
                data,
            },
        )
    }

    /// Handles one event of the connection.
    ///
    /// While the session is under way:
    /// - `Peer` establishes the session, and this side's sync data for the
    ///   peer is sent at once, where there is any; there is for a peer that
    ///   the store has not met;
    /// - `Sync` for this session's document is counted and, unless this is
    ///   a dry run, merged into the store as a message from its sender; for
    ///   another document it is ignored;
    /// - `Request` for this session's document is answered with this side's
    ///   sync data for the sender, where there is any;
    /// - a frame that is no message and a failed transport end the session
    ///   with an error;
    /// - a closed connection and the end of the time end it without one.
    /// A session that is not under way ignores every event and says `Stop`.
    pub fn on_event<R: BookmarkRepository>(&mut self, store: &mut R, event: SessionEvent) -> (r:
        BookmarkResult<SessionAction>)
        requires
            old(store).usable(),
            old(self).has_room(),
        ensures
            final(store).usable(),
            final(self).same_identity(old(self)),
            old(self).dry_run() ==> final(store).content() == old(store).content(),
            !counts(old(self).phase(), old(self).document_id(), event) ==> final(store).content()
                == old(store).content(),
            forall|peer: Seq<char>| old(store).knows_peer(peer) ==> final(store).knows_peer(peer),
            final(self).changes_received() == old(self).changes_received() + (if counts(
                old(self).phase(),
                old(self).document_id(),
                event,
            ) {
                1nat
            } else {
                0nat
            }),
            final(self).changes_sent() == old(self).changes_sent() + (if r matches Ok(
                SessionAction::Send(_),
            ) {
                1nat
            } else {
                0nat
            }),
            r is Err ==> final(self).phase() == SessionPhase::Terminated,
            r is Ok ==> final(self).phase() == next_phase(old(self).phase(), event),
            !is_live(old(self).phase()) ==> (r matches Ok(SessionAction::Stop)) && *final(store)
                == *old(store),
            is_live(old(self).phase()) ==> match event {
                SessionEvent::Message(ProtocolMessage::Peer { sender_id, .. }) => replies(
                    r,
                    *old(self),
                    sender_id@,
                    *old(store),
                    *final(store),
                ),
                SessionEvent::Message(ProtocolMessage::Request { document_id, sender_id, .. }) => if document_id@
                    == old(self).document_id() {
                    replies(r, *old(self), sender_id@, *old(store), *final(store))
                } else {
                    (r matches Ok(SessionAction::Continue)) && *final(store) == *old(store)
                },
                SessionEvent::Message(
                    ProtocolMessage::Sync { document_id, sender_id, data, .. },
                ) => if document_id@ == old(self).document_id() && !old(self).dry_run() {
                    merges(r, *old(store), sender_id@, data@, *final(store))
                } else {
                    (r matches Ok(SessionAction::Continue)) && *final(store) == *old(store)
                },
                SessionEvent::Message(ProtocolMessage::Join { .. }) => (r matches Ok(
                    SessionAction::Continue,
                )) && *final(store) == *old(store),
                SessionEvent::Undecodable => (r matches Err(BookmarkError::SyncError(_)))
                    && *final(store) == *old(store),
                SessionEvent::Closed => (r matches Ok(SessionAction::Stop)) && *final(store) == *old(store),
                SessionEvent::TimedOut => (r matches Ok(SessionAction::Stop)) && *final(store) == *old(store),
                SessionEvent::TransportError(e) => (r matches Err(BookmarkError::SyncError(m)) && m@
                    == transport_error_text(e@)) && *final(store) == *old(store),
            },
    {
        match self.phase {
            SessionPhase::AwaitingPeer => {},
            SessionPhase::Exchanging => {},
            _ => {
                return Ok(SessionAction::Stop);
            },
        }
        match event {
            SessionEvent::Message(message) => match message {
                ProtocolMessage::Peer { sender_id, .. } => {
                    self.phase = SessionPhase::Exchanging;
                    let data = match store.generate_sync_message(sender_id.as_str()) {
                        Ok(d) => d,
                        Err(e) => {
                            self.phase = SessionPhase::Terminated;
                            return Err(e);
                        },
                    };
                    Ok(self.reply_with(sender_id.as_str(), data))
                },
                ProtocolMessage::Sync { document_id, sender_id, data, .. } => {
                    if same_text(document_id.as_str(), self.document_id.as_str()) {
                        self.changes_received = self.changes_received + 1;
                        if !self.dry_run {
                            match store.apply_sync_message(sender_id.as_str(), data) {
                                Ok(_) => {},
                                Err(e) => {
                                    self.phase = SessionPhase::Terminated;
                                    return Err(e);
                                },
                            }
                        }
                    }
                    Ok(SessionAction::Continue)
                },
                ProtocolMessage::Request { document_id, sender_id, .. } => {
                    if same_text(document_id.as_str(), self.document_id.as_str()) {
                        let data = match store.generate_sync_message(sender_id.as_str()) {
                            Ok(d) => d,
                            Err(e) => {
                                self.phase = SessionPhase::Terminated;
                                return Err(e);
                            },
                        };
                        Ok(self.reply_with(sender_id.as_str(), data))
                    } else {
                        Ok(SessionAction::Continue)
                    }
                },
                ProtocolMessage::Join { .. } => Ok(SessionAction::Continue),
            },
            SessionEvent::Undecodable => {
                self.phase = SessionPhase::Terminated;
                Err(BookmarkError::SyncError(String::from_str("Failed to decode protocol message")))
            },
            SessionEvent::Closed => {
                self.phase = SessionPhase::Terminated;
                Ok(SessionAction::Stop)
            },
            SessionEvent::TimedOut => {
                self.phase = SessionPhase::Terminated;
                Ok(SessionAction::Stop)
            },
            SessionEvent::TransportError(e) => {
                self.phase = SessionPhase::Terminated;
                Err(BookmarkError::SyncError(joined("WebSocket error: ", e.as_str())))
            },
        }
    }

    /// The report of the session.
    pub fn response(&self, server: &str, duration_ms: u64) -> (r: SyncResponse)
        ensures
            r.server@ == server@,
            r.document_id@ == self.document_id(),
            r.changes_received == self.changes_received(),
            r.changes_sent == self.changes_sent(),
            r.success,
            r.duration_ms == duration_ms,
    {
        SyncResponse {
            server: String::from_str(server),
            document_id: self.document_id.clone(),
            changes_received: self.changes_received,
            changes_sent: self.changes_sent,
            success: true,
            duration_ms,
        }
    }
}

/// The event is a `Sync` message for the document of a session under way:
/// the one event that is counted as received.
pub open spec fn counts(phase: SessionPhase, document: Seq<char>, event: SessionEvent) -> bool {
    is_live(phase) && (event matches SessionEvent::Message(ProtocolMessage::Sync { document_id, .. })
        && document_id@ == document)
}

/// The phase after an event that was handled without error.
pub open spec fn next_phase(phase: SessionPhase, event: SessionEvent) -> SessionPhase {
    if !is_live(phase) {
        phase
    } else {
        match event {
            SessionEvent::Message(ProtocolMessage::Peer { .. }) => SessionPhase::Exchanging,
            SessionEvent::Message(_) => phase,
            _ => SessionPhase::Terminated,
        }
    }
}

/// `r` is what merging the data of a `Sync` message from `sender` into the
/// store comes to. The store is handed the data as a message from the
/// sender: the merge succeeds exactly where the store's merge gives
/// something, which the store then holds, and the session goes on. A merge
/// that fails is a sync error; bytes that the store does not take for a
/// message fail and leave what it holds. The store knows the sender from
/// then on.
pub open spec fn merges<R: BookmarkRepository>(
    r: BookmarkResult<SessionAction>,
    before: R,
    sender: Seq<char>,
    data: Seq<u8>,
    after: R,
) -> bool {
    &&& r is Ok <==> before.merge(sender, data) is Some
    &&& (r is Ok ==> r matches Ok(SessionAction::Continue)) && (r is Ok ==> after.content()
        == before.merge(sender, data)->Some_0)
    &&& (r matches Err(e) ==> e is SyncError)
    &&& !before.is_message(data) ==> r is Err && after.content() == before.content()
    &&& after.knows_peer(sender)
    &&& after.follows(&before)
}

/// The message that carries `data` from the session to the peer `target`.
pub open spec fn sync_to(session: SyncSession, target: Seq<char>, data: Seq<u8>) -> MessageView {
    MessageView::Sync {
        document_id: session.document_id(),
        sender_id: session.peer_id(),
        target_id: target,
        data: data,
    }
}

/// `r` answers the peer `target` with the store's sync message for it:
/// the message is sent where the store has one, and nothing is sent where
/// it has none. It fails only where the store fails, which a readable
/// store does not. A peer that the store has not met is always sent a
/// message. What the store holds stays, and the store knows the peer from
/// then on.
pub open spec fn replies<R: BookmarkRepository>(
    r: BookmarkResult<SessionAction>,
    session: SyncSession,
    target: Seq<char>,
    before: R,
    after: R,
) -> bool {
    &&& before.readable() ==> r is Ok
    &&& r is Ok ==> (match before.message_for(target) {
        Some(data) => (r matches Ok(SessionAction::Send(m)) && m@ == sync_to(
            session,
            target,
            data,
        )),
        None => r matches Ok(SessionAction::Continue),
    })
    &&& !before.knows_peer(target) ==> before.message_for(target) is Some
    &&& after.content() == before.content()
    &&& after.knows_peer(target)
}

} // verus!
