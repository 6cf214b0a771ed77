use automark::bookmark::Bookmark;
use automark::config::Config;
use automark::errors::BookmarkError;
use automark::repository::AutomergeBookmarkRepository;
use automark::sync::{
    auto_sync_wanted, frame_message, frame_payload, sync_settings, ProtocolMessage, SessionAction,
    SessionEvent, SessionPhase, SyncArgs, SyncSession,
};

fn store_with(titles: &[&str]) -> AutomergeBookmarkRepository {
    let mut repo = AutomergeBookmarkRepository::new(None).unwrap();
    for t in titles {
        repo.create(Bookmark::new("https://example.com", t).unwrap()).unwrap();
    }
    repo
}

fn copy_of(repo: &mut AutomergeBookmarkRepository) -> AutomergeBookmarkRepository {
    AutomergeBookmarkRepository::new(Some(repo.snapshot())).unwrap()
}

fn titles(repo: &AutomergeBookmarkRepository) -> Vec<String> {
    let mut all: Vec<String> = repo.find_all(None).unwrap().into_iter().map(|b| b.title).collect();
    all.sort();
    all
}

fn peer(sender: &str) -> SessionEvent {
    SessionEvent::Message(ProtocolMessage::Peer {
        sender_id: sender.to_string(),
        supported_protocol_versions: vec!["1".to_string()],
        storage_id: None,
        selected_protocol_version: "1".to_string(),
    })
}

fn sync(document: &str, sender: &str, data: Vec<u8>) -> SessionEvent {
    SessionEvent::Message(ProtocolMessage::Sync {
        document_id: document.to_string(),
        sender_id: sender.to_string(),
        target_id: "me".to_string(),
        data,
    })
}

fn request(document: &str, sender: &str) -> SessionEvent {
    SessionEvent::Message(ProtocolMessage::Request {
        document_id: document.to_string(),
        sender_id: sender.to_string(),
        target_id: "me".to_string(),
    })
}

fn live_session(dry_run: bool) -> SyncSession {
    let mut s = SyncSession::new("me".to_string(), "bookmarks".to_string(), dry_run);
    assert!(s.start().is_some());
    s
}

#[test]
fn test_frames() {
    assert_eq!(frame_message(&vec![7, 8, 9]), vec![0, 7, 8, 9]);
    assert_eq!(frame_message(&vec![]), vec![0]);
    assert_eq!(frame_payload(&vec![0, 7, 8, 9]), Some(vec![7, 8, 9]));
    assert_eq!(frame_payload(&vec![42, 7]), Some(vec![7]));
    assert_eq!(frame_payload(&vec![0]), Some(vec![]));
    assert_eq!(frame_payload(&vec![]), None);
    let payload = vec![0, 0, 255, 1];
    assert_eq!(frame_payload(&frame_message(&payload)), Some(payload));
}

#[test]
fn test_sync_settings() {
    let config = Config::default();
    let args = SyncArgs { server: None, document_id: None, dry_run: false, timeout: None };
    let s = sync_settings(&args, &config).unwrap();
    assert_eq!(s.server, "wss://sync.automerge.org");
    assert_eq!(s.document_id, "bookmarks");
    assert_eq!(s.timeout_secs, 30);
    assert!(!s.dry_run);

    let args = SyncArgs {
        server: Some("ws://localhost:3030".to_string()),
        document_id: Some("other".to_string()),
        dry_run: true,
        timeout: Some(5),
    };
    let s = sync_settings(&args, &config).unwrap();
    assert_eq!(s.server, "ws://localhost:3030");
    assert_eq!(s.document_id, "other");
    assert_eq!(s.timeout_secs, 5);
    assert!(s.dry_run);

    let mut off = Config::default();
    off.sync.enabled = false;
    match sync_settings(&args, &off) {
        Err(BookmarkError::SyncError(m)) => assert_eq!(m, "Sync is disabled in configuration"),
        _ => panic!("Expected SyncError"),
    }
}

#[test]
fn test_auto_sync_disabled() {
    let mut config = Config::default();
    config.sync.auto_sync = false;
    assert!(!auto_sync_wanted(&config));
}

#[test]
fn test_auto_sync_sync_disabled() {
    let mut config = Config::default();
    config.sync.enabled = false;
    config.sync.auto_sync = true;
    assert!(!auto_sync_wanted(&config));
    config.sync.enabled = true;
    assert!(auto_sync_wanted(&config));
}

#[test]
fn test_session_start_sends_join_once() {
    let mut s = SyncSession::new("me".to_string(), "bookmarks".to_string(), false);
    assert_eq!(s.current_phase(), SessionPhase::Connecting);
    match s.start() {
        Some(ProtocolMessage::Join { sender_id, supported_protocol_versions, storage_id }) => {
            assert_eq!(sender_id, "me");
            assert_eq!(supported_protocol_versions, vec!["1".to_string()]);
            assert_eq!(storage_id, None);
        }
        _ => panic!("Expected Join"),
    }
    assert_eq!(s.current_phase(), SessionPhase::AwaitingPeer);
    assert!(s.start().is_none());
    assert_eq!(s.current_phase(), SessionPhase::AwaitingPeer);
}

#[test]
fn test_peer_is_answered_at_once_with_this_sides_data() {
    let mut store = store_with(&["one"]);
    let mut s = live_session(false);
    match s.on_event(&mut store, peer("them")).unwrap() {
        SessionAction::Send(ProtocolMessage::Sync { document_id, sender_id, target_id, data }) => {
            assert_eq!(document_id, "bookmarks");
            assert_eq!(sender_id, "me");
            assert_eq!(target_id, "them");
            assert!(!data.is_empty());
        }
        other => panic!("Expected Send(Sync), got {:?}", other),
    }
    assert_eq!(s.current_phase(), SessionPhase::Exchanging);
    assert_eq!(s.sent(), 1);
    assert_eq!(s.received(), 0);
    assert_eq!(titles(&store), vec!["one"]);
}

#[test]
fn test_sync_for_another_document_is_ignored() {
    let mut source = store_with(&["one"]);
    let mut store = copy_of(&mut source);
    source.create(Bookmark::new("https://example.com", "two").unwrap()).unwrap();
    let data = source.generate_sync_message("x").unwrap();
    assert!(!data.is_empty());
    let before = store.snapshot();

    let mut s = live_session(false);
    s.on_event(&mut store, peer("them")).unwrap();
    let action = s.on_event(&mut store, sync("another", "them", data.clone())).unwrap();
    assert!(matches!(action, SessionAction::Continue));
    assert_eq!(s.received(), 0);
    assert_eq!(store.snapshot(), before);

    let action = s.on_event(&mut store, sync("bookmarks", "them", data.clone())).unwrap();
    assert!(matches!(action, SessionAction::Continue));
    assert_eq!(s.received(), 1);
    let action = s.on_event(&mut store, sync("bookmarks", "them", data)).unwrap();
    assert!(matches!(action, SessionAction::Continue));
    assert_eq!(s.received(), 2);
    assert_eq!(s.sent(), 1);
}

#[test]
fn test_dry_run_never_changes_the_store() {
    let mut source = store_with(&["one"]);
    let mut store = copy_of(&mut source);
    source.create(Bookmark::new("https://example.com", "two").unwrap()).unwrap();
    source.create(Bookmark::new("https://example.com", "three").unwrap()).unwrap();

    let listing_before = store.find_all(None).unwrap();
    let bytes_before = store.snapshot();

    let mut s = live_session(true);
    s.on_event(&mut store, peer("them")).unwrap();
    // pump the exchange as a real peer would, this side only counting
    let mut received = 0;
    for _ in 0..6 {
        let data = source.generate_sync_message("me").unwrap();
        if data.is_empty() {
            break;
        }
        received += 1;
        let action = s.on_event(&mut store, sync("bookmarks", "them", data)).unwrap();
        assert!(matches!(action, SessionAction::Continue));
        let reply = store.generate_sync_message("them").unwrap();
        if !reply.is_empty() {
            source.apply_sync_message("me", reply).unwrap();
        }
    }
    assert!(received >= 1);
    assert_eq!(s.received(), received);
    assert_eq!(store.find_all(None).unwrap(), listing_before);
    assert_eq!(store.snapshot(), bytes_before);
    assert_eq!(titles(&store), vec!["one"]);
}

#[test]
fn test_sync_carries_changes_over() {
    let mut source = store_with(&["one"]);
    let mut target = copy_of(&mut source);
    let added = Bookmark::new("https://example.com/2", "two")
        .unwrap()
        .with_tags(vec!["t".to_string()]);
    source.create(added.clone()).unwrap();
    target.create(Bookmark::new("https://example.com/3", "three").unwrap()).unwrap();

    let mut changed = false;
    for _ in 0..10 {
        let to_target = source.generate_sync_message("target").unwrap();
        let to_source = target.generate_sync_message("source").unwrap();
        if to_target.is_empty() && to_source.is_empty() {
            break;
        }
        if !to_target.is_empty() {
            changed |= target.apply_sync_message("source", to_target).unwrap();
        }
        if !to_source.is_empty() {
            source.apply_sync_message("target", to_source).unwrap();
        }
    }
    assert!(changed);
    assert_eq!(titles(&source), vec!["one", "three", "two"]);
    assert_eq!(titles(&target), vec!["one", "three", "two"]);
    assert_eq!(target.find_by_id(&added.id).unwrap(), added);
    assert!(source.generate_sync_message("target").unwrap().is_empty());

    // deletion travels too, and stays
    source.delete(&added.id).unwrap();
    for _ in 0..10 {
        let to_target = source.generate_sync_message("target").unwrap();
        let to_source = target.generate_sync_message("source").unwrap();
        if to_target.is_empty() && to_source.is_empty() {
            break;
        }
        if !to_target.is_empty() {
            target.apply_sync_message("source", to_target).unwrap();
        }
        if !to_source.is_empty() {
            source.apply_sync_message("target", to_source).unwrap();
        }
    }
    assert_eq!(titles(&target), vec!["one", "three"]);
    assert!(matches!(target.find_by_id(&added.id), Err(BookmarkError::NotFound(_))));
}

#[test]
fn test_session_merges_what_it_receives() {
    let mut source = store_with(&["one"]);
    let mut store = copy_of(&mut source);
    source.create(Bookmark::new("https://example.com", "two").unwrap()).unwrap();

    let mut s = live_session(false);
    let mut outbox = Vec::new();
    if let SessionAction::Send(ProtocolMessage::Sync { data, .. }) =
        s.on_event(&mut store, peer("source")).unwrap()
    {
        outbox.push(data);
    }
    for _ in 0..10 {
        for data in outbox.drain(..) {
            source.apply_sync_message("me", data).unwrap();
        }
        let data = source.generate_sync_message("me").unwrap();
        if data.is_empty() {
            break;
        }
        s.on_event(&mut store, sync("bookmarks", "source", data)).unwrap();
        if let SessionAction::Send(ProtocolMessage::Sync { data, .. }) =
            s.on_event(&mut store, request("bookmarks", "source")).unwrap()
        {
            outbox.push(data);
        }
    }
    assert_eq!(titles(&store), vec!["one", "two"]);
    assert!(s.received() >= 1);
    assert_eq!(s.current_phase(), SessionPhase::Exchanging);
}

#[test]
fn test_request_is_answered_for_the_sessions_document_only() {
    let mut store = store_with(&["one"]);
    let mut s = live_session(false);
    let action = s.on_event(&mut store, request("another", "them")).unwrap();
    assert!(matches!(action, SessionAction::Continue));
    assert_eq!(s.sent(), 0);
    match s.on_event(&mut store, request("bookmarks", "them")).unwrap() {
        SessionAction::Send(ProtocolMessage::Sync { target_id, data, .. }) => {
            assert_eq!(target_id, "them");
            assert!(!data.is_empty());
        }
        other => panic!("Expected Send(Sync), got {:?}", other),
    }
    assert_eq!(s.sent(), 1);
    assert_eq!(s.current_phase(), SessionPhase::AwaitingPeer);
    // a second request right away: nothing new to say
    let action = s.on_event(&mut store, request("bookmarks", "them")).unwrap();
    assert!(matches!(action, SessionAction::Continue));
    assert_eq!(s.sent(), 1);
}

#[test]
fn test_session_ends() {
    let mut store = store_with(&[]);

    let mut s = live_session(false);
    assert!(matches!(s.on_event(&mut store, SessionEvent::Closed).unwrap(), SessionAction::Stop));
    assert_eq!(s.current_phase(), SessionPhase::Terminated);
    assert!(matches!(s.on_event(&mut store, peer("x")).unwrap(), SessionAction::Stop));
    assert_eq!(s.sent(), 0);

    let mut s = live_session(false);
    assert!(matches!(s.on_event(&mut store, SessionEvent::TimedOut).unwrap(), SessionAction::Stop));
    assert_eq!(s.current_phase(), SessionPhase::Terminated);
    let r = s.response("ws://server", 1234);
    assert_eq!(r.server, "ws://server");
    assert_eq!(r.document_id, "bookmarks");
    assert_eq!(r.changes_received, 0);
    assert_eq!(r.changes_sent, 0);
    assert!(r.success);
    assert_eq!(r.duration_ms, 1234);

    let mut s = live_session(false);
    match s.on_event(&mut store, SessionEvent::TransportError("reset".to_string())) {
        Err(BookmarkError::SyncError(m)) => assert_eq!(m, "WebSocket error: reset"),
        _ => panic!("Expected SyncError"),
    }
    assert_eq!(s.current_phase(), SessionPhase::Terminated);

    let mut s = live_session(false);
    assert!(matches!(
        s.on_event(&mut store, SessionEvent::Undecodable),
        Err(BookmarkError::SyncError(_))
    ));
    assert_eq!(s.current_phase(), SessionPhase::Terminated);

    let mut s = SyncSession::new("me".to_string(), "bookmarks".to_string(), false);
    assert!(matches!(s.on_event(&mut store, peer("x")).unwrap(), SessionAction::Stop));
    assert_eq!(s.current_phase(), SessionPhase::Connecting);
}

#[test]
fn test_garbage_sync_data_is_a_sync_error() {
    let mut store = store_with(&["one"]);
    let before = store.find_all(None).unwrap();
    let mut s = live_session(false);
    match s.on_event(&mut store, sync("bookmarks", "them", vec![1, 2, 3])) {
        Err(BookmarkError::SyncError(_)) => {}
        other => panic!("Expected SyncError, got {:?}", other),
    }
    assert_eq!(s.received(), 1);
    assert_eq!(s.current_phase(), SessionPhase::Terminated);
    assert_eq!(store.find_all(None).unwrap(), before);
    assert!(s.can_count());

    // in a dry run the data is not looked at
    let mut s = live_session(true);
    let action = s.on_event(&mut store, sync("bookmarks", "them", vec![1, 2, 3])).unwrap();
    assert!(matches!(action, SessionAction::Continue));
    assert_eq!(s.received(), 1);
}

#[test]
fn test_join_from_the_other_side_is_ignored() {
    let mut store = store_with(&["one"]);
    let mut s = live_session(false);
    let join = SessionEvent::Message(ProtocolMessage::Join {
        sender_id: "them".to_string(),
        supported_protocol_versions: vec![],
        storage_id: Some("s".to_string()),
    });
    assert!(matches!(s.on_event(&mut store, join).unwrap(), SessionAction::Continue));
    assert_eq!(s.current_phase(), SessionPhase::AwaitingPeer);
    assert_eq!(s.sent(), 0);
    assert_eq!(s.received(), 0);
}

#[test]
fn test_quiet_sync_disabled() {
    let mut config = Config::default();
    config.sync.enabled = false;
    let args = SyncArgs { server: None, document_id: None, dry_run: false, timeout: None };
    // Sync is refused when it is disabled
    assert!(sync_settings(&args, &config).is_err());
    assert!(!auto_sync_wanted(&config));
}

#[test]
fn test_fresh_peer_identities_differ() {
    let mut a = SyncSession::with_fresh_peer("bookmarks".to_string(), false);
    let mut b = SyncSession::with_fresh_peer("bookmarks".to_string(), true);
    let id_of = |s: &mut SyncSession| match s.start() {
        Some(ProtocolMessage::Join { sender_id, .. }) => sender_id,
        _ => panic!("Expected Join"),
    };
    let (x, y) = (id_of(&mut a), id_of(&mut b));
    assert_eq!(x.len(), 36);
    assert_ne!(x, y);
}

#[test]
fn test_apply_says_whether_anything_changed() {
    let mut source = store_with(&["one"]);
    let mut target = copy_of(&mut source);
    source.create(Bookmark::new("https://example.com", "two").unwrap()).unwrap();

    // the opening message announces what the source has; it carries no change
    let opening = source.generate_sync_message("target").unwrap();
    assert!(!opening.is_empty());
    assert_eq!(target.apply_sync_message("source", opening).unwrap(), false);
    assert_eq!(titles(&target), vec!["one"]);

    // the target answers, and what the source sends then does change it
    let answer = target.generate_sync_message("source").unwrap();
    assert!(!answer.is_empty());
    assert_eq!(source.apply_sync_message("target", answer).unwrap(), false);
    let changes = source.generate_sync_message("target").unwrap();
    assert!(!changes.is_empty());
    assert_eq!(target.apply_sync_message("source", changes).unwrap(), true);
    assert_eq!(titles(&target), vec!["one", "two"]);
}

#[test]
fn test_bytes_that_are_no_sync_message_change_nothing() {
    let mut store = store_with(&["one", "two"]);
    let before = store.find_all(None).unwrap();
    let snapshot = store.snapshot();
    for bytes in [vec![], vec![0u8], vec![1, 2, 3], vec![0x42, 0xff, 0x00, 0x13]] {
        match store.apply_sync_message("them", bytes) {
            Err(BookmarkError::SyncError(_)) => {}
            other => panic!("Expected SyncError, got {:?}", other),
        }
        assert_eq!(store.find_all(None).unwrap(), before);
        assert_eq!(store.snapshot(), snapshot);
    }

    // what one store generates the other reads
    let mut other = store_with(&[]);
    let message = store.generate_sync_message("other").unwrap();
    assert!(!message.is_empty());
    assert!(other.apply_sync_message("store", message).is_ok());
}

#[test]
fn test_session_sends_local_changes_to_the_peer() {
    // the peer has "one"; this side has "one" and a change of its own
    let mut peer_store = store_with(&["one"]);
    let mut store = copy_of(&mut peer_store);
    store.create(Bookmark::new("https://example.com/local", "local").unwrap()).unwrap();

    let mut s = live_session(false);
    let mut outbox = Vec::new();
    match s.on_event(&mut store, peer("them")).unwrap() {
        SessionAction::Send(ProtocolMessage::Sync { data, sender_id, target_id, .. }) => {
            assert_eq!(sender_id, "me");
            assert_eq!(target_id, "them");
            assert!(!data.is_empty());
            outbox.push(data);
        }
        other => panic!("Expected a message for a peer not met before, got {:?}", other),
    }
    for _ in 0..10 {
        for data in outbox.drain(..) {
            peer_store.apply_sync_message("me", data).unwrap();
        }
        let data = peer_store.generate_sync_message("me").unwrap();
        if data.is_empty() {
            break;
        }
        // what the peer sends is merged as a message from the peer, and
        // the answer to the peer is made from the same exchange
        s.on_event(&mut store, sync("bookmarks", "them", data)).unwrap();
        if let SessionAction::Send(ProtocolMessage::Sync { data, .. }) =
            s.on_event(&mut store, request("bookmarks", "them")).unwrap()
        {
            outbox.push(data);
        }
    }
    assert_eq!(titles(&peer_store), vec!["local", "one"]);
    assert_eq!(titles(&store), vec!["local", "one"]);
    assert!(s.sent() >= 2);
}

#[test]
fn test_a_peer_not_met_before_is_always_sent_something() {
    let mut store = store_with(&[]);
    assert!(!store.generate_sync_message("first").unwrap().is_empty());
    let mut store = store_with(&["one"]);
    assert!(!store.generate_sync_message("first").unwrap().is_empty());
    assert!(!store.generate_sync_message("second").unwrap().is_empty());
    // with nothing heard from the first peer since, there is nothing new for it
    assert!(store.generate_sync_message("first").unwrap().is_empty());
}

#[test]
fn test_start_keeps_room_to_count() {
    let mut s = SyncSession::new("me".to_string(), "bookmarks".to_string(), false);
    assert!(s.can_count());
    s.start();
    assert!(s.can_count());
}

#[test]
fn test_session_over_a_store_that_exchanges_nothing() {
    let mut store = automark::traits::MockBookmarkRepository::new();
    store.create(Bookmark::new("https://example.com", "one").unwrap()).unwrap();
    let before = store.find_all(None).unwrap();

    let mut s = live_session(false);
    // nothing to send to the peer, and a request is answered with nothing
    assert!(matches!(s.on_event(&mut store, peer("them")).unwrap(), SessionAction::Continue));
    assert_eq!(s.current_phase(), SessionPhase::Exchanging);
    assert!(matches!(
        s.on_event(&mut store, request("bookmarks", "them")).unwrap(),
        SessionAction::Continue
    ));
    assert_eq!(s.sent(), 0);
    // what arrives is counted and merged, which for this store changes nothing
    assert!(matches!(
        s.on_event(&mut store, sync("bookmarks", "them", vec![1, 2, 3])).unwrap(),
        SessionAction::Continue
    ));
    assert_eq!(s.received(), 1);
    assert_eq!(store.find_all(None).unwrap(), before);
    assert!(matches!(s.on_event(&mut store, SessionEvent::Closed).unwrap(), SessionAction::Stop));
}

#[test]
fn test_what_is_sent_is_what_the_store_generates() {
    let mut store = store_with(&["one"]);
    let mut twin = copy_of(&mut store);
    let expected = twin.generate_sync_message("them").unwrap();
    assert!(!expected.is_empty());

    let mut s = live_session(false);
    match s.on_event(&mut store, peer("them")).unwrap() {
        SessionAction::Send(ProtocolMessage::Sync { document_id, sender_id, target_id, data }) => {
            assert_eq!(document_id, "bookmarks");
            assert_eq!(sender_id, "me");
            assert_eq!(target_id, "them");
            assert_eq!(data, expected);
        }
        other => panic!("Expected a message, got {:?}", other),
    }
    // nothing was heard from the peer since: there is nothing new for it,
    // and nothing is sent
    assert!(store.generate_sync_message("them").unwrap().is_empty());
    assert!(matches!(
        s.on_event(&mut store, request("bookmarks", "them")).unwrap(),
        SessionAction::Continue
    ));
    assert_eq!(s.sent(), 1);
}
