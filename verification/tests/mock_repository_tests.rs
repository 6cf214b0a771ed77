use automark::bookmark::{Bookmark, BookmarkFilters, ReadingStatus};
use automark::errors::BookmarkError;
use automark::traits::MockBookmarkRepository;

#[test]
fn test_create_bookmark() {
    let mut repo = MockBookmarkRepository::new();
    let bookmark = Bookmark::new("https://example.com", "Example").unwrap();
    let original_id = bookmark.id.clone();

    let result = repo.create(bookmark).unwrap();

    assert_eq!(result.id, original_id);
    assert_eq!(result.url, "https://example.com");
    assert_eq!(result.title, "Example");
}

#[test]
fn repository_test_find_all_empty() {
    let repo = MockBookmarkRepository::new();

    let bookmarks = repo.find_all(None).unwrap();

    assert!(bookmarks.is_empty());
}

#[test]
fn test_find_all_with_bookmarks() {
    let mut repo = MockBookmarkRepository::new();
    let bookmark1 = Bookmark::new("https://example.com", "Example 1").unwrap();
    let bookmark2 = Bookmark::new("https://test.com", "Test").unwrap();

    repo.create(bookmark1.clone()).unwrap();
    repo.create(bookmark2.clone()).unwrap();

    let bookmarks = repo.find_all(None).unwrap();

    assert_eq!(bookmarks.len(), 2);
    assert!(bookmarks.contains(&bookmark1));
    assert!(bookmarks.contains(&bookmark2));
    assert_eq!(bookmarks, vec![bookmark1, bookmark2]);
}

#[test]
fn repository_test_delete_existing_bookmark() {
    let mut repo = MockBookmarkRepository::new();
    let bookmark = Bookmark::new("https://example.com", "Example").unwrap();
    let bookmark_id = bookmark.id.clone();

    repo.create(bookmark).unwrap();

    // Verify it exists
    let bookmarks = repo.find_all(None).unwrap();
    assert_eq!(bookmarks.len(), 1);

    // Delete it
    let result = repo.delete(&bookmark_id);
    assert!(result.is_ok());

    // Verify it's gone
    let bookmarks = repo.find_all(None).unwrap();
    assert!(bookmarks.is_empty());
}

#[test]
fn repository_test_delete_nonexistent_bookmark() {
    let mut repo = MockBookmarkRepository::new();

    let result = repo.delete("nonexistent-id");

    assert!(matches!(result, Err(BookmarkError::NotFound(_))));
    if let Err(BookmarkError::NotFound(id)) = result {
        assert_eq!(id, "nonexistent-id");
    }
}

#[test]
fn test_repository_state_persistence() {
    let mut repo = MockBookmarkRepository::new();

    // Add bookmark
    let bookmark = Bookmark::new("https://example.com", "Example").unwrap();
    let bookmark_id = bookmark.id.clone();
    repo.create(bookmark).unwrap();

    // Verify it persists across operations
    let bookmarks = repo.find_all(None).unwrap();
    assert_eq!(bookmarks.len(), 1);

    // Add another
    let bookmark2 = Bookmark::new("https://test.com", "Test").unwrap();
    repo.create(bookmark2).unwrap();

    // Verify both exist
    let bookmarks = repo.find_all(None).unwrap();
    assert_eq!(bookmarks.len(), 2);

    // Delete first one
    repo.delete(&bookmark_id).unwrap();

    // Verify only one remains
    let bookmarks = repo.find_all(None).unwrap();
    assert_eq!(bookmarks.len(), 1);
    assert_eq!(bookmarks[0].url, "https://test.com");
}

#[test]
fn test_find_by_id_existing() {
    let mut repo = MockBookmarkRepository::new();
    let bookmark = Bookmark::new("https://example.com", "Example").unwrap();
    let bookmark_id = bookmark.id.clone();

    repo.create(bookmark.clone()).unwrap();

    let found = repo.find_by_id(&bookmark_id).unwrap();
    assert_eq!(found, bookmark);
}

#[test]
fn test_find_by_id_nonexistent() {
    let repo = MockBookmarkRepository::new();

    let result = repo.find_by_id("nonexistent");
    assert!(matches!(result, Err(BookmarkError::NotFound(_))));
}

#[test]
fn test_update_existing_bookmark() {
    let mut repo = MockBookmarkRepository::new();
    let mut bookmark = Bookmark::new("https://example.com", "Original Title").unwrap();
    let bookmark_id = bookmark.id.clone();

    repo.create(bookmark.clone()).unwrap();

    // Update the bookmark
    bookmark.title = "Updated Title".to_string();
    let updated = repo.update(bookmark.clone()).unwrap();

    assert_eq!(updated.title, "Updated Title");

    // Verify it's persisted
    let found = repo.find_by_id(&bookmark_id).unwrap();
    assert_eq!(found.title, "Updated Title");
}

#[test]
fn test_update_nonexistent_bookmark() {
    let mut repo = MockBookmarkRepository::new();
    let bookmark = Bookmark::new("https://example.com", "Test").unwrap();

    let result = repo.update(bookmark);
    assert!(matches!(result, Err(BookmarkError::NotFound(_))));
    assert!(repo.find_all(None).unwrap().is_empty());
}

#[test]
fn test_search_by_text_in_title() {
    let mut repo = MockBookmarkRepository::new();
    let bookmark1 = Bookmark::new("https://example.com", "Rust Programming").unwrap();
    let bookmark2 = Bookmark::new("https://test.com", "Python Guide").unwrap();

    repo.create(bookmark1.clone()).unwrap();
    repo.create(bookmark2).unwrap();

    let results = repo.search_by_text("rust").unwrap();
    assert_eq!(results.len(), 1);
    assert_eq!(results[0].title, "Rust Programming");
}

#[test]
fn test_search_by_text_in_url() {
    let mut repo = MockBookmarkRepository::new();
    let bookmark1 = Bookmark::new("https://rust-lang.org", "Programming").unwrap();
    let bookmark2 = Bookmark::new("https://python.org", "Programming").unwrap();

    repo.create(bookmark1.clone()).unwrap();
    repo.create(bookmark2).unwrap();

    let results = repo.search_by_text("rust-lang").unwrap();
    assert_eq!(results.len(), 1);
    assert_eq!(results[0].url, "https://rust-lang.org");
}

#[test]
fn test_search_by_text_case_insensitive() {
    let mut repo = MockBookmarkRepository::new();
    let bookmark = Bookmark::new("https://example.com", "RUST Programming").unwrap();

    repo.create(bookmark.clone()).unwrap();

    let results = repo.search_by_text("rust").unwrap();
    assert_eq!(results.len(), 1);

    let results = repo.search_by_text("PROGRAMMING").unwrap();
    assert_eq!(results.len(), 1);
}

#[test]
fn test_search_by_text_in_notes() {
    let mut repo = MockBookmarkRepository::new();
    let mut bookmark = Bookmark::new("https://example.com", "Test").unwrap();
    bookmark.add_note("This is about Rust programming");

    let created = repo.create(bookmark).unwrap();

    let results = repo.search_by_text("rust programming").unwrap();
    assert_eq!(results.len(), 1);
    assert_eq!(results[0].id, created.id);
}

#[test]
fn test_find_by_tags_single_tag() {
    let mut repo = MockBookmarkRepository::new();
    let bookmark1 = Bookmark::new("https://example.com", "Rust")
        .unwrap()
        .with_tags(vec!["programming".to_string(), "rust".to_string()]);
    let bookmark2 = Bookmark::new("https://test.com", "Python")
        .unwrap()
        .with_tags(vec!["programming".to_string(), "python".to_string()]);

    repo.create(bookmark1.clone()).unwrap();
    repo.create(bookmark2).unwrap();

    let results = repo.find_by_tags(&["rust".to_string()]).unwrap();
    assert_eq!(results.len(), 1);
    assert_eq!(results[0].title, "Rust");
}

#[test]
fn test_find_by_tags_multiple_tags_and_logic() {
    let mut repo = MockBookmarkRepository::new();
    let bookmark1 = Bookmark::new("https://example.com", "Rust Web")
        .unwrap()
        .with_tags(vec!["programming".to_string(), "rust".to_string(), "web".to_string()]);
    let bookmark2 = Bookmark::new("https://test.com", "Rust CLI")
        .unwrap()
        .with_tags(vec!["programming".to_string(), "rust".to_string()]);

    repo.create(bookmark1.clone()).unwrap();
    repo.create(bookmark2).unwrap();

    // Should find only the bookmark with both rust AND web tags
    let results = repo.find_by_tags(&["rust".to_string(), "web".to_string()]).unwrap();
    assert_eq!(results.len(), 1);
    assert_eq!(results[0].title, "Rust Web");
}

#[test]
fn test_find_by_tags_case_insensitive() {
    let mut repo = MockBookmarkRepository::new();
    let bookmark = Bookmark::new("https://example.com", "Test")
        .unwrap()
        .with_tags(vec!["PROGRAMMING".to_string(), "Rust".to_string()]);

    repo.create(bookmark.clone()).unwrap();

    let results = repo.find_by_tags(&["programming".to_string()]).unwrap();
    assert_eq!(results.len(), 1);

    let results = repo.find_by_tags(&["rust".to_string()]).unwrap();
    assert_eq!(results.len(), 1);
}

#[test]
fn test_add_note_to_existing_bookmark() {
    let mut repo = MockBookmarkRepository::new();
    let bookmark = Bookmark::new("https://example.com", "Test").unwrap();
    let bookmark_id = bookmark.id.clone();

    repo.create(bookmark).unwrap();

    let note_id = repo.add_note(&bookmark_id, "Test note content").unwrap();
    assert!(!note_id.is_empty());

    // Verify note was added
    let found = repo.find_by_id(&bookmark_id).unwrap();
    assert_eq!(found.notes.len(), 1);
    assert_eq!(found.notes[0].content, "Test note content");
    assert_eq!(found.notes[0].id, note_id);
}

#[test]
fn test_add_note_to_nonexistent_bookmark() {
    let mut repo = MockBookmarkRepository::new();

    let result = repo.add_note("nonexistent", "Test note");
    assert!(matches!(result, Err(BookmarkError::NotFound(_))));
}

#[test]
fn test_remove_note_from_bookmark() {
    let mut repo = MockBookmarkRepository::new();
    let bookmark = Bookmark::new("https://example.com", "Test").unwrap();
    let bookmark_id = bookmark.id.clone();

    repo.create(bookmark).unwrap();

    // Add a note
    let note_id = repo.add_note(&bookmark_id, "Test note").unwrap();

    // Verify it exists
    let found = repo.find_by_id(&bookmark_id).unwrap();
    assert_eq!(found.notes.len(), 1);

    // Remove the note
    let result = repo.remove_note(&bookmark_id, &note_id);
    assert!(result.is_ok());

    // Verify it's gone
    let found = repo.find_by_id(&bookmark_id).unwrap();
    assert_eq!(found.notes.len(), 0);
}

#[test]
fn test_remove_note_nonexistent_note() {
    let mut repo = MockBookmarkRepository::new();
    let bookmark = Bookmark::new("https://example.com", "Test").unwrap();
    let bookmark_id = bookmark.id.clone();

    repo.create(bookmark).unwrap();

    let result = repo.remove_note(&bookmark_id, "nonexistent");
    assert!(matches!(result, Err(BookmarkError::NotFound(_))));
    if let Err(BookmarkError::NotFound(msg)) = result {
        assert_eq!(msg, "Note nonexistent not found");
    }
}

#[test]
fn test_remove_note_nonexistent_bookmark() {
    let mut repo = MockBookmarkRepository::new();

    let result = repo.remove_note("nonexistent", "note_id");
    assert!(matches!(result, Err(BookmarkError::NotFound(_))));
}

#[test]
fn test_find_all_with_text_filter() {
    let mut repo = MockBookmarkRepository::new();
    let bookmark1 = Bookmark::new("https://example.com", "Rust Programming").unwrap();
    let bookmark2 = Bookmark::new("https://test.com", "Python Guide").unwrap();

    repo.create(bookmark1).unwrap();
    repo.create(bookmark2).unwrap();

    let filters = BookmarkFilters { text_query: Some("rust".to_string()), ..Default::default() };

    let results = repo.find_all(Some(filters)).unwrap();
    assert_eq!(results.len(), 1);
    assert_eq!(results[0].title, "Rust Programming");
}

#[test]
fn test_find_all_with_tags_filter() {
    let mut repo = MockBookmarkRepository::new();
    let bookmark1 = Bookmark::new("https://example.com", "Rust")
        .unwrap()
        .with_tags(vec!["programming".to_string(), "rust".to_string()]);
    let bookmark2 = Bookmark::new("https://test.com", "Python")
        .unwrap()
        .with_tags(vec!["programming".to_string(), "python".to_string()]);

    repo.create(bookmark1).unwrap();
    repo.create(bookmark2).unwrap();

    let filters = BookmarkFilters { tags: Some(vec!["rust".to_string()]), ..Default::default() };

    let results = repo.find_all(Some(filters)).unwrap();
    assert_eq!(results.len(), 1);
    assert_eq!(results[0].title, "Rust");
}

#[test]
fn test_find_all_with_reading_status_filter() {
    let mut repo = MockBookmarkRepository::new();
    let mut bookmark1 = Bookmark::new("https://example.com", "Read Article").unwrap();
    bookmark1.reading_status = ReadingStatus::Completed;
    let bookmark2 = Bookmark::new("https://test.com", "Unread Article").unwrap();

    repo.create(bookmark1).unwrap();
    repo.create(bookmark2).unwrap();

    let filters =
        BookmarkFilters { reading_status: Some(ReadingStatus::Completed), ..Default::default() };

    let results = repo.find_all(Some(filters)).unwrap();
    assert_eq!(results.len(), 1);
    assert_eq!(results[0].title, "Read Article");
}

#[test]
fn test_find_all_with_priority_range_filter() {
    let mut repo = MockBookmarkRepository::new();
    let bookmark1 =
        Bookmark::new("https://example.com", "High Priority").unwrap().with_priority(5).unwrap();
    let bookmark2 =
        Bookmark::new("https://test.com", "Low Priority").unwrap().with_priority(2).unwrap();

    repo.create(bookmark1).unwrap();
    repo.create(bookmark2).unwrap();

    let filters = BookmarkFilters { priority_range: Some((4, 5)), ..Default::default() };

    let results = repo.find_all(Some(filters)).unwrap();
    assert_eq!(results.len(), 1);
    assert_eq!(results[0].title, "High Priority");
}

#[test]
fn test_find_all_with_multiple_filters() {
    let mut repo = MockBookmarkRepository::new();
    let mut bookmark1 = Bookmark::new("https://example.com", "Rust Programming")
        .unwrap()
        .with_tags(vec!["programming".to_string(), "rust".to_string()])
        .with_priority(5)
        .unwrap();
    bookmark1.reading_status = ReadingStatus::Completed;

    let mut bookmark2 = Bookmark::new("https://test.com", "Rust Guide")
        .unwrap()
        .with_tags(vec!["programming".to_string(), "rust".to_string()])
        .with_priority(3)
        .unwrap();
    bookmark2.reading_status = ReadingStatus::Unread;

    repo.create(bookmark1).unwrap();
    repo.create(bookmark2).unwrap();

    let filters = BookmarkFilters {
        text_query: Some("rust".to_string()),
        tags: Some(vec!["programming".to_string()]),
        reading_status: Some(ReadingStatus::Completed),
        priority_range: Some((4, 5)),
        bookmarked_since: None,
        bookmarked_until: None,
        published_since: None,
        published_until: None,
        sort_by: None,
        sort_order: None,
    };

    let results = repo.find_all(Some(filters)).unwrap();
    assert_eq!(results.len(), 1);
    assert_eq!(results[0].title, "Rust Programming");
}

#[test]
fn test_find_all_empty_filters_returns_all() {
    let mut repo = MockBookmarkRepository::new();
    let bookmark1 = Bookmark::new("https://example.com", "Test 1").unwrap();
    let bookmark2 = Bookmark::new("https://test.com", "Test 2").unwrap();

    repo.create(bookmark1).unwrap();
    repo.create(bookmark2).unwrap();

    let filters = BookmarkFilters::default();
    let results = repo.find_all(Some(filters)).unwrap();
    assert_eq!(results.len(), 2);
}

#[test]
fn test_mock_create_replaces_in_place() {
    let mut repo = MockBookmarkRepository::new();
    let a = Bookmark::new("https://a.example", "A").unwrap();
    let b = Bookmark::new("https://b.example", "B").unwrap();
    repo.create(a.clone()).unwrap();
    repo.create(b.clone()).unwrap();
    let mut a2 = a.clone();
    a2.title = "A again".to_string();
    repo.create(a2.clone()).unwrap();
    assert_eq!(repo.find_all(None).unwrap(), vec![a2, b]);
}

#[test]
fn test_mock_sync_does_nothing() {
    let mut repo = MockBookmarkRepository::new();
    let a = Bookmark::new("https://a.example", "A").unwrap();
    repo.create(a.clone()).unwrap();
    assert_eq!(repo.generate_sync_message("peer").unwrap(), Vec::<u8>::new());
    assert_eq!(repo.apply_sync_message("peer", vec![1, 2, 3]).unwrap(), false);
    assert_eq!(repo.find_all(None).unwrap(), vec![a]);
}
