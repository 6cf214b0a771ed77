use automark::bookmark::{Bookmark, BookmarkFilters, Note, ReadingStatus, SortBy, SortDirection};
use automark::errors::BookmarkError;
use automark::repository::AutomergeBookmarkRepository;
use automark::timestamp::Timestamp;
use automark::traits::BookmarkRepository;
use automerge::{AutoCommit, ReadDoc, ROOT};

fn create_test_repo() -> AutomergeBookmarkRepository {
    AutomergeBookmarkRepository::new(None).unwrap()
}

fn reopen(repo: &mut AutomergeBookmarkRepository) -> AutomergeBookmarkRepository {
    AutomergeBookmarkRepository::new(Some(repo.snapshot())).unwrap()
}

fn sorted_by_id(mut all: Vec<Bookmark>) -> Vec<Bookmark> {
    all.sort_by(|a, b| a.id.cmp(&b.id));
    all
}

#[test]
fn test_create_repository_with_new_file() {
    let repo = AutomergeBookmarkRepository::new(None);
    assert!(repo.is_ok());
    let repo = AutomergeBookmarkRepository::new(Some(Vec::new()));
    assert!(repo.is_ok());
    assert!(repo.unwrap().find_all(None).unwrap().is_empty());
}

#[test]
fn test_snapshot_of_an_empty_store() {
    let mut repo = create_test_repo();
    let bytes = repo.snapshot();
    assert!(!bytes.is_empty());
    let again = AutomergeBookmarkRepository::new(Some(bytes)).unwrap();
    assert!(again.find_all(None).unwrap().is_empty());
}

#[test]
fn test_open_on_bytes_that_are_no_document() {
    let repo = AutomergeBookmarkRepository::new(Some(vec![1, 2, 3, 4, 5]));
    assert!(matches!(repo, Err(BookmarkError::StorageError(_))));
}

#[test]
fn test_add_bookmark_and_save() {
    let mut repo = create_test_repo();
    let bookmark = Bookmark::new("https://example.com", "Example").unwrap();

    let result = repo.create(bookmark.clone());
    assert!(result.is_ok());
    assert_eq!(result.unwrap(), bookmark);

    // A snapshot can be taken after saving
    assert!(!repo.snapshot().is_empty());

    // Verify the bookmark was added
    let bookmarks = repo.find_all(None).unwrap();
    assert_eq!(bookmarks.len(), 1);
    assert_eq!(bookmarks[0].url, "https://example.com");
    assert_eq!(bookmarks[0].title, "Example");
}

#[test]
fn test_persistence_across_instances() {
    // Create bookmark in first instance
    let snapshot = {
        let mut repo = create_test_repo();
        let bookmark = Bookmark::new("https://example.com", "Example").unwrap();
        repo.create(bookmark).unwrap();
        repo.snapshot()
    };

    // Load in second instance and verify bookmark exists
    {
        let repo = AutomergeBookmarkRepository::new(Some(snapshot)).unwrap();
        let bookmarks = repo.find_all(None).unwrap();
        assert_eq!(bookmarks.len(), 1);
        assert_eq!(bookmarks[0].url, "https://example.com");
        assert_eq!(bookmarks[0].title, "Example");
    }
}

#[test]
fn test_reopen_reproduces_the_full_listing() {
    let mut repo = create_test_repo();
    for i in 0..5 {
        let mut b = Bookmark::new("https://example.com", "Example")
            .unwrap()
            .with_tags(vec![format!("tag{}", i), "All".to_string()])
            .with_priority(1 + i)
            .unwrap();
        b.author = Some(format!("Author {}", i));
        b.publish_date = Some(Timestamp { secs: 1_600_000_000 + i as i64, nanos: 5 });
        b.add_note("one");
        b.add_note("two");
        repo.create(b).unwrap();
    }
    let before = repo.find_all(None).unwrap();
    assert_eq!(before.len(), 5);
    let again = reopen(&mut repo);
    let after = again.find_all(None).unwrap();
    assert_eq!(before, after);
    // and once more, from the reopened store
    let mut again = again;
    let third = reopen(&mut again);
    assert_eq!(third.find_all(None).unwrap(), before);
}

#[test]
fn automerge_repo_test_find_all_empty() {
    let repo = create_test_repo();

    let bookmarks = repo.find_all(None).unwrap();
    assert!(bookmarks.is_empty());
}

#[test]
fn test_find_all_with_multiple_bookmarks() {
    let mut repo = create_test_repo();

    let bookmark1 = Bookmark::new("https://example.com", "Example").unwrap();
    let bookmark2 = Bookmark::new("https://test.com", "Test").unwrap();

    repo.create(bookmark1.clone()).unwrap();
    repo.create(bookmark2.clone()).unwrap();

    let bookmarks = repo.find_all(None).unwrap();
    assert_eq!(bookmarks.len(), 2);

    let urls: Vec<_> = bookmarks.iter().map(|b| &b.url).collect();
    assert!(urls.contains(&&"https://example.com".to_string()));
    assert!(urls.contains(&&"https://test.com".to_string()));
    assert_eq!(
        sorted_by_id(bookmarks),
        sorted_by_id(vec![bookmark1, bookmark2])
    );
}

#[test]
fn automerge_repo_test_delete_existing_bookmark() {
    let mut repo = create_test_repo();

    let bookmark = Bookmark::new("https://example.com", "Example").unwrap();
    let bookmark_id = bookmark.id.clone();

    repo.create(bookmark).unwrap();

    // Verify it exists
    let bookmarks = repo.find_all(None).unwrap();
    assert_eq!(bookmarks.len(), 1);

    // Delete it
    let result = repo.delete(&bookmark_id);
    assert!(result.is_ok());

    // Verify it's gone
    let bookmarks = repo.find_all(None).unwrap();
    assert!(bookmarks.is_empty());
}

#[test]
fn automerge_repo_test_delete_nonexistent_bookmark() {
    let mut repo = create_test_repo();

    let result = repo.delete("nonexistent-id");
    assert!(matches!(result, Err(BookmarkError::NotFound(_))));
    if let Err(BookmarkError::NotFound(id)) = result {
        assert_eq!(id, "nonexistent-id");
    }
}

#[test]
fn test_delete_persistence() {
    let (bookmark_id, snapshot) = {
        let mut repo = create_test_repo();
        let bookmark = Bookmark::new("https://example.com", "Example").unwrap();
        let id = bookmark.id.clone();
        repo.create(bookmark).unwrap();

        // Delete the bookmark
        repo.delete(&id).unwrap();
        (id, repo.snapshot())
    };

    // Verify deletion persisted
    {
        let repo = AutomergeBookmarkRepository::new(Some(snapshot)).unwrap();
        let bookmarks = repo.find_all(None).unwrap();
        assert!(bookmarks.is_empty());

        // Try to delete again - should fail
        let mut repo = repo;
        let result = repo.delete(&bookmark_id);
        assert!(matches!(result, Err(BookmarkError::NotFound(_))));
        assert!(matches!(repo.find_by_id(&bookmark_id), Err(BookmarkError::NotFound(_))));
    }
}

#[test]
fn test_deletion_is_terminal() {
    let mut repo = create_test_repo();
    let keep = Bookmark::new("https://keep.example", "Keep").unwrap();
    let gone = Bookmark::new("https://gone.example", "Gone").unwrap();
    repo.create(keep.clone()).unwrap();
    repo.create(gone.clone()).unwrap();

    assert!(repo.delete(&gone.id).is_ok());
    match repo.delete(&gone.id) {
        Err(BookmarkError::NotFound(id)) => assert_eq!(id, gone.id),
        _ => panic!("Expected NotFound"),
    }
    match repo.find_by_id(&gone.id) {
        Err(BookmarkError::NotFound(id)) => assert_eq!(id, gone.id),
        _ => panic!("Expected NotFound"),
    }
    assert_eq!(repo.find_by_id(&keep.id).unwrap(), keep);
    assert_eq!(repo.find_all(None).unwrap(), vec![keep.clone()]);

    let mut again = reopen(&mut repo);
    assert!(matches!(again.find_by_id(&gone.id), Err(BookmarkError::NotFound(_))));
    assert!(matches!(again.delete(&gone.id), Err(BookmarkError::NotFound(_))));
    assert_eq!(again.find_all(None).unwrap(), vec![keep]);
}

#[test]
fn test_snapshot_loads_as_a_document() {
    let mut repo = create_test_repo();

    let bookmark1 = Bookmark::new("https://example.com", "Example").unwrap();
    let bookmark2 = Bookmark::new("https://test.com", "Test").unwrap();

    repo.create(bookmark1.clone()).unwrap();
    repo.create(bookmark2.clone()).unwrap();

    let doc_bytes = repo.snapshot();
    assert!(!doc_bytes.is_empty());

    let loaded = AutomergeBookmarkRepository::new(Some(doc_bytes)).unwrap();
    assert_eq!(loaded.find_all(None).unwrap().len(), 2);
}

#[test]
fn test_bookmark_data_integrity() {
    let mut repo = create_test_repo();

    let original_bookmark = Bookmark::new("https://example.com", "Example Site").unwrap();
    let original_id = original_bookmark.id.clone();
    let original_date = original_bookmark.bookmarked_date;

    repo.create(original_bookmark).unwrap();

    let retrieved_bookmarks = repo.find_all(None).unwrap();
    assert_eq!(retrieved_bookmarks.len(), 1);

    let retrieved_bookmark = &retrieved_bookmarks[0];
    assert_eq!(retrieved_bookmark.id, original_id);
    assert_eq!(retrieved_bookmark.url, "https://example.com");
    assert_eq!(retrieved_bookmark.title, "Example Site");
    assert_eq!(retrieved_bookmark.bookmarked_date, original_date);
}

#[test]
fn test_enhanced_bookmark_with_all_fields() {
    let mut repo = create_test_repo();

    // Create bookmark with all fields
    let mut bookmark = Bookmark::new("https://example.com", "Example Site")
        .unwrap()
        .with_tags(vec!["rust".to_string(), "programming".to_string()])
        .with_priority(4)
        .unwrap();

    bookmark.author = Some("Test Author".to_string());
    bookmark.reading_status = ReadingStatus::Reading;

    // Add some notes
    let note_id1 = bookmark.add_note("First note");
    let note_id2 = bookmark.add_note("Second note");

    let bookmark_id = bookmark.id.clone();

    // Save bookmark
    repo.create(bookmark.clone()).unwrap();

    // Retrieve and verify all fields
    let retrieved = repo.find_by_id(&bookmark_id).unwrap();

    assert_eq!(retrieved.url, "https://example.com");
    assert_eq!(retrieved.title, "Example Site");
    assert_eq!(retrieved.author, Some("Test Author".to_string()));
    assert_eq!(retrieved.reading_status, ReadingStatus::Reading);
    assert_eq!(retrieved.priority_rating, Some(4));
    assert_eq!(retrieved.tags, vec!["rust", "programming"]);
    assert_eq!(retrieved.notes.len(), 2);
    assert_eq!(retrieved.notes[0].content, "First note");
    assert_eq!(retrieved.notes[1].content, "Second note");
    assert_eq!(retrieved.notes[0].id, note_id1);
    assert_eq!(retrieved.notes[1].id, note_id2);
    assert_eq!(retrieved, bookmark);
}

#[test]
fn test_round_trip_of_every_field_shape() {
    let mut repo = create_test_repo();
    let statuses = vec![ReadingStatus::Unread, ReadingStatus::Reading, ReadingStatus::Completed];
    let mut made = Vec::new();
    for (i, status) in statuses.into_iter().enumerate() {
        let mut b = Bookmark::new("https://example.com/a?b=c", "Tytuł ✓").unwrap();
        b.reading_status = status;
        b.bookmarked_date = Timestamp { secs: -62167219200 + i as i64, nanos: 1 };
        if i % 2 == 0 {
            b.author = Some("".to_string());
            b.publish_date = Some(Timestamp { secs: 253402300799, nanos: 999_999_999 });
            b.priority_rating = Some(255);
            b.tags = vec!["".to_string(), "Mixed Case".to_string(), "ß".to_string()];
            b.notes = vec![
                Note { id: "n1".to_string(), content: "".to_string(), created_at: Timestamp { secs: 0, nanos: 0 } },
                Note { id: "n1".to_string(), content: "same id".to_string(), created_at: Timestamp { secs: 1, nanos: 2 } },
            ];
        }
        repo.create(b.clone()).unwrap();
        assert_eq!(repo.find_by_id(&b.id).unwrap(), b);
        made.push(b);
    }
    assert_eq!(sorted_by_id(repo.find_all(None).unwrap()), sorted_by_id(made.clone()));
    let again = reopen(&mut repo);
    assert_eq!(sorted_by_id(again.find_all(None).unwrap()), sorted_by_id(made));
}

#[test]
fn test_create_with_a_date_that_cannot_be_written() {
    let mut repo = create_test_repo();
    let mut b = Bookmark::new("https://example.com", "Far").unwrap();
    b.bookmarked_date = Timestamp { secs: i64::MAX, nanos: 0 };
    assert!(matches!(repo.create(b.clone()), Err(BookmarkError::StorageError(_))));
    assert!(repo.find_all(None).unwrap().is_empty());
    assert!(matches!(repo.find_by_id(&b.id), Err(BookmarkError::NotFound(_))));

    let mut c = Bookmark::new("https://example.com", "Note far").unwrap();
    c.add_note("x");
    c.notes[0].created_at = Timestamp { secs: i64::MIN, nanos: 0 };
    assert!(matches!(repo.create(c), Err(BookmarkError::StorageError(_))));
    assert!(repo.find_all(None).unwrap().is_empty());
}

#[test]
fn test_create_under_an_id_that_is_taken_replaces_the_entry() {
    let mut repo = create_test_repo();
    let mut a = Bookmark::new("https://a.example", "A").unwrap();
    a.id = "same".to_string();
    a.tags = vec!["old".to_string()];
    let mut b = Bookmark::new("https://b.example", "B").unwrap();
    b.id = "same".to_string();
    repo.create(a).unwrap();
    repo.create(b.clone()).unwrap();
    assert_eq!(repo.find_all(None).unwrap(), vec![b.clone()]);
    assert_eq!(repo.find_by_id("same").unwrap(), b);
}

#[test]
fn test_search_by_text_functionality() {
    let mut repo = create_test_repo();

    // Create bookmarks with different content
    let bookmark1 = Bookmark::new("https://rust-lang.org", "Rust Programming Language")
        .unwrap()
        .with_tags(vec!["rust".to_string(), "programming".to_string()]);

    let mut bookmark2 = Bookmark::new("https://python.org", "Python Programming")
        .unwrap()
        .with_tags(vec!["python".to_string(), "programming".to_string()]);
    bookmark2.author = Some("Python Foundation".to_string());
    bookmark2.add_note("Great for data science");

    let bookmark3 = Bookmark::new("https://golang.org", "Go Language").unwrap();

    repo.create(bookmark1).unwrap();
    repo.create(bookmark2).unwrap();
    repo.create(bookmark3).unwrap();

    // Test search by title
    let results = repo.search_by_text("rust").unwrap();
    assert_eq!(results.len(), 1);
    assert_eq!(results[0].title, "Rust Programming Language");

    // Test search by URL
    let results = repo.search_by_text("python.org").unwrap();
    assert_eq!(results.len(), 1);
    assert_eq!(results[0].title, "Python Programming");

    // Test search by author
    let results = repo.search_by_text("Foundation").unwrap();
    assert_eq!(results.len(), 1);
    assert_eq!(results[0].author, Some("Python Foundation".to_string()));

    // Test search by note content
    let results = repo.search_by_text("data science").unwrap();
    assert_eq!(results.len(), 1);
    assert_eq!(results[0].title, "Python Programming");

    // Test search for common word
    let results = repo.search_by_text("programming").unwrap();
    assert_eq!(results.len(), 2);
}

#[test]
fn test_find_by_tags_functionality() {
    let mut repo = create_test_repo();

    let bookmark1 = Bookmark::new("https://example1.com", "Rust Web")
        .unwrap()
        .with_tags(vec!["rust".to_string(), "web".to_string(), "programming".to_string()]);

    let bookmark2 = Bookmark::new("https://example2.com", "Rust CLI")
        .unwrap()
        .with_tags(vec!["rust".to_string(), "cli".to_string(), "programming".to_string()]);

    let bookmark3 = Bookmark::new("https://example3.com", "Python Web")
        .unwrap()
        .with_tags(vec!["python".to_string(), "web".to_string(), "programming".to_string()]);

    repo.create(bookmark1).unwrap();
    repo.create(bookmark2).unwrap();
    repo.create(bookmark3).unwrap();

    // Test single tag
    let results = repo.find_by_tags(&["rust".to_string()]).unwrap();
    assert_eq!(results.len(), 2);

    // Test multiple tags (AND logic)
    let results = repo.find_by_tags(&["rust".to_string(), "web".to_string()]).unwrap();
    assert_eq!(results.len(), 1);
    assert_eq!(results[0].title, "Rust Web");

    // Test common tag
    let results = repo.find_by_tags(&["programming".to_string()]).unwrap();
    assert_eq!(results.len(), 3);

    // Test non-existent tag
    let results = repo.find_by_tags(&["nonexistent".to_string()]).unwrap();
    assert_eq!(results.len(), 0);
}

#[test]
fn test_add_remove_notes_crdt_semantics() {
    let mut repo = create_test_repo();

    let bookmark = Bookmark::new("https://example.com", "Test Bookmark").unwrap();
    let bookmark_id = bookmark.id.clone();

    repo.create(bookmark).unwrap();

    // Add notes using repository method
    let note_id1 = repo.add_note(&bookmark_id, "First note").unwrap();
    let note_id2 = repo.add_note(&bookmark_id, "Second note").unwrap();

    // Verify notes were added
    let retrieved = repo.find_by_id(&bookmark_id).unwrap();
    assert_eq!(retrieved.notes.len(), 2);
    assert_eq!(retrieved.notes[0].content, "First note");
    assert_eq!(retrieved.notes[1].content, "Second note");

    // Remove first note
    repo.remove_note(&bookmark_id, &note_id1).unwrap();

    // Verify note was removed
    let retrieved = repo.find_by_id(&bookmark_id).unwrap();
    assert_eq!(retrieved.notes.len(), 1);
    assert_eq!(retrieved.notes[0].id, note_id2);
    assert_eq!(retrieved.notes[0].content, "Second note");

    // Try to remove non-existent note
    let result = repo.remove_note(&bookmark_id, "nonexistent");
    assert!(matches!(result, Err(BookmarkError::NotFound(_))));
    if let Err(BookmarkError::NotFound(msg)) = result {
        assert_eq!(msg, "Note nonexistent not found");
    }
}

#[test]
fn test_insert_note_keeps_the_note_as_given() {
    let mut repo = create_test_repo();
    let mut bookmark = Bookmark::new("https://example.com", "Test Bookmark").unwrap();
    bookmark.add_note("already there");
    let first = bookmark.notes[0].clone();
    repo.create(bookmark.clone()).unwrap();

    let note = Note {
        id: "my-note".to_string(),
        content: "given".to_string(),
        created_at: Timestamp { secs: 1_234_567_890, nanos: 987_654_321 },
    };
    repo.insert_note(&bookmark.id, &note).unwrap();
    let stored = repo.find_by_id(&bookmark.id).unwrap();
    assert_eq!(stored.notes, vec![first, note.clone()]);

    // errors leave the store as it is
    assert!(matches!(repo.insert_note("nobody", &note), Err(BookmarkError::NotFound(_))));
    let far = Note { id: "x".to_string(), content: "y".to_string(), created_at: Timestamp { secs: i64::MAX, nanos: 0 } };
    assert!(matches!(repo.insert_note(&bookmark.id, &far), Err(BookmarkError::StorageError(_))));
    assert_eq!(repo.find_by_id(&bookmark.id).unwrap(), stored);
}

#[test]
fn test_notes_of_other_bookmarks_are_left_alone() {
    let mut repo = create_test_repo();
    let mut a = Bookmark::new("https://a.example", "A").unwrap();
    a.add_note("a1");
    let b = Bookmark::new("https://b.example", "B").unwrap();
    repo.create(a.clone()).unwrap();
    repo.create(b.clone()).unwrap();
    let id = repo.add_note(&b.id, "b1").unwrap();
    assert_eq!(repo.find_by_id(&a.id).unwrap(), a);
    assert_eq!(repo.find_by_id(&b.id).unwrap().notes.len(), 1);
    assert!(matches!(repo.remove_note(&a.id, &id), Err(BookmarkError::NotFound(_))));
    repo.remove_note(&b.id, &id).unwrap();
    assert_eq!(repo.find_by_id(&b.id).unwrap(), b);
    assert_eq!(repo.find_by_id(&a.id).unwrap(), a);
}

#[test]
fn test_note_errors_for_missing_bookmark() {
    let mut repo = create_test_repo();
    match repo.add_note("nobody", "x") {
        Err(BookmarkError::NotFound(id)) => assert_eq!(id, "nobody"),
        _ => panic!("Expected NotFound"),
    }
    match repo.remove_note("nobody", "n") {
        Err(BookmarkError::NotFound(id)) => assert_eq!(id, "nobody"),
        _ => panic!("Expected NotFound"),
    }
    let b = Bookmark::new("https://b.example", "B").unwrap();
    repo.create(b.clone()).unwrap();
    match repo.remove_note(&b.id, "n") {
        Err(BookmarkError::NotFound(msg)) => assert_eq!(msg, "Note n not found"),
        _ => panic!("Expected NotFound"),
    }
}

#[test]
fn test_field_level_updates() {
    let mut repo = create_test_repo();

    // Create initial bookmark
    let mut bookmark = Bookmark::new("https://example.com", "Original Title").unwrap();
    let bookmark_id = bookmark.id.clone();

    repo.create(bookmark.clone()).unwrap();

    // Update fields
    bookmark.title = "Updated Title".to_string();
    bookmark.author = Some("New Author".to_string());
    bookmark.reading_status = ReadingStatus::Completed;
    bookmark.priority_rating = Some(5);
    bookmark.tags = vec!["updated".to_string(), "test".to_string()];

    // Perform field-level update
    repo.update(bookmark.clone()).unwrap();

    // Verify all fields were updated
    let retrieved = repo.find_by_id(&bookmark_id).unwrap();
    assert_eq!(retrieved.title, "Updated Title");
    assert_eq!(retrieved.author, Some("New Author".to_string()));
    assert_eq!(retrieved.reading_status, ReadingStatus::Completed);
    assert_eq!(retrieved.priority_rating, Some(5));
    assert_eq!(retrieved.tags, vec!["updated", "test"]);

    // URL and ID should remain unchanged
    assert_eq!(retrieved.url, "https://example.com");
    assert_eq!(retrieved.id, bookmark_id);
}

#[test]
fn test_update_clears_what_is_absent_and_replaces_lists() {
    let mut repo = create_test_repo();
    let mut full = Bookmark::new("https://example.com", "Full")
        .unwrap()
        .with_tags(vec!["a".to_string(), "b".to_string()])
        .with_priority(3)
        .unwrap();
    full.author = Some("Someone".to_string());
    full.publish_date = Some(Timestamp { secs: 1_000, nanos: 0 });
    full.add_note("n1");
    full.add_note("n2");
    let other = Bookmark::new("https://other.example", "Other").unwrap().with_tags(vec!["keep".to_string()]);
    repo.create(full.clone()).unwrap();
    repo.create(other.clone()).unwrap();

    let mut bare = full.clone();
    bare.url = "https://changed.example".to_string();
    bare.author = None;
    bare.publish_date = None;
    bare.priority_rating = None;
    bare.tags = Vec::new();
    bare.notes = vec![full.notes[1].clone()];
    bare.bookmarked_date = Timestamp { secs: 7, nanos: 8 };
    assert_eq!(repo.update(bare.clone()).unwrap(), bare);
    assert_eq!(repo.find_by_id(&full.id).unwrap(), bare);
    assert_eq!(repo.find_by_id(&other.id).unwrap(), other);

    // and back again
    assert_eq!(repo.update(full.clone()).unwrap(), full);
    assert_eq!(repo.find_by_id(&full.id).unwrap(), full);
    let again = reopen(&mut repo);
    assert_eq!(again.find_by_id(&full.id).unwrap(), full);
    assert_eq!(again.find_by_id(&other.id).unwrap(), other);
}

#[test]
fn test_update_nonexistent_leaves_the_store_unchanged() {
    let mut repo = create_test_repo();
    let a = Bookmark::new("https://a.example", "A").unwrap().with_tags(vec!["x".to_string()]);
    repo.create(a.clone()).unwrap();
    let before = repo.find_all(None).unwrap();
    let bytes_before = repo.snapshot();

    let stranger = Bookmark::new("https://s.example", "S").unwrap();
    match repo.update(stranger.clone()) {
        Err(BookmarkError::NotFound(id)) => assert_eq!(id, stranger.id),
        _ => panic!("Expected NotFound"),
    }
    assert_eq!(repo.find_all(None).unwrap(), before);
    assert_eq!(repo.find_all(None).unwrap().len(), 1);
    assert_eq!(repo.snapshot(), bytes_before);
}

#[test]
fn test_update_with_a_date_that_cannot_be_written() {
    let mut repo = create_test_repo();
    let a = Bookmark::new("https://a.example", "A").unwrap();
    repo.create(a.clone()).unwrap();
    let mut bad = a.clone();
    bad.title = "changed".to_string();
    bad.publish_date = Some(Timestamp { secs: i64::MAX, nanos: 0 });
    assert!(matches!(repo.update(bad), Err(BookmarkError::StorageError(_))));
    assert_eq!(repo.find_by_id(&a.id).unwrap(), a);
}

#[test]
fn test_find_all_with_filters_and_order() {
    let mut repo = create_test_repo();
    let titles = vec!["delta", "alpha", "charlie", "bravo"];
    for (i, t) in titles.iter().enumerate() {
        let mut b = Bookmark::new("https://example.com", t).unwrap();
        b.priority_rating = if i == 2 { None } else { Some(1 + i as u8) };
        repo.create(b).unwrap();
    }
    let filters = BookmarkFilters {
        sort_by: Some(SortBy::Title),
        sort_order: Some(SortDirection::Ascending),
        ..Default::default()
    };
    let found = repo.find_all(Some(filters)).unwrap();
    let got: Vec<&str> = found.iter().map(|b| b.title.as_str()).collect();
    assert_eq!(got, vec!["alpha", "bravo", "charlie", "delta"]);

    let filters = BookmarkFilters {
        priority_range: Some((1, 5)),
        sort_by: Some(SortBy::Priority),
        sort_order: None,
        ..Default::default()
    };
    let found = repo.find_all(Some(filters)).unwrap();
    let got: Vec<&str> = found.iter().map(|b| b.title.as_str()).collect();
    assert_eq!(got, vec!["bravo", "alpha", "delta"]);
}

#[test]
fn test_store_through_the_interface() {
    fn exercise<R: BookmarkRepository>(repo: &mut R) {
        let b = Bookmark::new("https://example.com", "Example").unwrap();
        assert_eq!(repo.create(b.clone()).unwrap(), b);
        assert_eq!(repo.find_by_id(&b.id).unwrap(), b);
        assert_eq!(repo.find_all(None).unwrap(), vec![b.clone()]);
        assert_eq!(repo.search_by_text("EXAMPLE").unwrap().len(), 1);
        assert_eq!(repo.find_by_tags(&["none".to_string()]).unwrap().len(), 0);
        let note = repo.add_note(&b.id, "n").unwrap();
        assert_eq!(repo.find_by_id(&b.id).unwrap().notes.len(), 1);
        repo.remove_note(&b.id, &note).unwrap();
        let mut c = b.clone();
        c.title = "Changed".to_string();
        assert_eq!(repo.update(c.clone()).unwrap(), c);
        assert_eq!(repo.find_by_id(&b.id).unwrap(), c);
        repo.delete(&b.id).unwrap();
        assert!(repo.find_all(None).unwrap().is_empty());
    }
    let mut real = create_test_repo();
    exercise(&mut real);
    let mut fake = automark::traits::MockBookmarkRepository::new();
    exercise(&mut fake);
}

#[test]
fn test_automerge_document_structure() {
    let mut repo = create_test_repo();

    // Add some bookmarks
    let bookmark1 = Bookmark::new("https://example.com", "Example").unwrap();
    let bookmark2 = Bookmark::new("https://test.com", "Test").unwrap();

    repo.create(bookmark1.clone()).unwrap();
    repo.create(bookmark2.clone()).unwrap();

    // Verify the document structure
    let doc_bytes = repo.snapshot();
    assert!(!doc_bytes.is_empty());

    // Verify we can load the document
    let loaded_doc = AutoCommit::load(&doc_bytes).unwrap();
    assert!(loaded_doc.get(ROOT, "bookmarks").unwrap().is_some());

    // Verify list length
    let (_, bookmarks_list) = loaded_doc.get(ROOT, "bookmarks").unwrap().unwrap();
    assert_eq!(loaded_doc.length(&bookmarks_list), 2);

    // each bookmark is a map under its id; lists are only there once
    // they hold something
    let (_, record) = loaded_doc.get(&bookmarks_list, bookmark1.id.as_str()).unwrap().unwrap();
    let (title, _) = loaded_doc.get(&record, "title").unwrap().unwrap();
    assert_eq!(title.as_str(), Some("Example"));
    assert!(loaded_doc.get(&record, "tags").unwrap().is_none());
    assert!(loaded_doc.get(&record, "notes").unwrap().is_none());
}

#[test]
fn test_a_snapshot_that_is_none_is_a_storage_error() {
    for bytes in [vec![1u8, 2, 3], b"not a document".to_vec(), vec![0u8; 64]] {
        match AutomergeBookmarkRepository::new(Some(bytes)) {
            Err(BookmarkError::StorageError(_)) => {}
            Err(other) => panic!("Expected a storage error, got {:?}", other),
            Ok(_) => panic!("Expected a storage error, got a store"),
        }
    }
}

#[test]
fn test_queries_on_one_store_agree() {
    let mut repo = create_test_repo();
    for (i, title) in ["delta", "alpha", "charlie", "bravo"].iter().enumerate() {
        let b = Bookmark::new(&format!("https://example.com/{}", i), title)
            .unwrap()
            .with_tags(vec!["t".to_string()]);
        repo.create(b).unwrap();
    }
    let all = repo.find_all(None).unwrap();
    assert_eq!(repo.find_all(None).unwrap(), all);
    assert_eq!(repo.list_all(), all);
    assert_eq!(repo.find_all(Some(BookmarkFilters::default())).unwrap(), all);
    assert_eq!(repo.find_by_tags(&["T".to_string()]).unwrap(), all);
    assert_eq!(repo.search_by_text("example.com").unwrap(), all);
    // every listed bookmark stands under its own id
    for b in &all {
        assert_eq!(&repo.find_by_id(&b.id).unwrap(), b);
    }
}

#[test]
fn test_a_deleted_bookmark_is_not_listed() {
    let mut repo = create_test_repo();
    let a = repo.create(Bookmark::new("https://example.com/a", "a").unwrap()).unwrap();
    let b = repo.create(Bookmark::new("https://example.com/b", "b").unwrap()).unwrap();
    repo.delete(&a.id).unwrap();
    assert!(repo.find_all(None).unwrap().iter().all(|x| x.id != a.id));
    let again = reopen(&mut repo);
    assert!(again.find_all(None).unwrap().iter().all(|x| x.id != a.id));
    assert_eq!(again.find_all(None).unwrap(), vec![b]);
}

#[test]
fn test_add_note_succeeds_on_every_bookmark() {
    let mut repo = create_test_repo();
    let plain = repo.create(Bookmark::new("https://example.com/a", "a").unwrap()).unwrap();
    let mut noted = Bookmark::new("https://example.com/b", "b").unwrap();
    noted.add_note("earlier");
    let noted = repo.create(noted).unwrap();

    let first = repo.add_note(&plain.id, "first").unwrap();
    let second = repo.add_note(&noted.id, "second").unwrap();
    let third = repo.add_note(&noted.id, "").unwrap();

    let plain_now = repo.find_by_id(&plain.id).unwrap();
    assert_eq!(plain_now.notes.len(), 1);
    assert_eq!(plain_now.notes[0].id, first);
    assert_eq!(plain_now.notes[0].content, "first");
    let noted_now = repo.find_by_id(&noted.id).unwrap();
    assert_eq!(noted_now.notes.len(), 3);
    assert_eq!(noted_now.notes[0], noted.notes[0]);
    assert_eq!(noted_now.notes[1].id, second);
    assert_eq!(noted_now.notes[2].id, third);
    assert_eq!(noted_now.notes[2].content, "");
    assert_ne!(second, third);
    // nothing else of the bookmark changed
    let mut expected = noted.clone();
    expected.notes = noted_now.notes.clone();
    assert_eq!(noted_now, expected);
}
