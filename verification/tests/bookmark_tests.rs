use automark::bookmark::{
    Bookmark, BookmarkFilters, ExtractedMetadata, Note, ReadingStatus, SortBy, SortDirection,
};
use automark::errors::BookmarkError;
use automark::timestamp::Timestamp;

#[test]
fn test_enhanced_bookmark_creation() {
    let bookmark = Bookmark::new("https://example.com", "Example Site").unwrap();

    assert_eq!(bookmark.url, "https://example.com");
    assert_eq!(bookmark.title, "Example Site");
    assert_eq!(bookmark.author, None);
    assert_eq!(bookmark.tags, Vec::<String>::new());
    assert_eq!(bookmark.publish_date, None);
    assert_eq!(bookmark.notes, Vec::<Note>::new());
    assert_eq!(bookmark.reading_status, ReadingStatus::Unread);
    assert_eq!(bookmark.priority_rating, None);
}

#[test]
fn test_tag_normalization() {
    let bookmark = Bookmark::new("https://example.com", "Test")
        .unwrap()
        .with_tags(vec!["Rust".to_string(), "PROGRAMMING".to_string(), "Web".to_string()]);

    assert_eq!(bookmark.tags, vec!["rust", "programming", "web"]);
}

#[test]
fn test_priority_validation() {
    let bookmark = Bookmark::new("https://example.com", "Test").unwrap();

    // Valid priorities
    assert!(bookmark.clone().with_priority(1).is_ok());
    assert!(bookmark.clone().with_priority(3).is_ok());
    assert!(bookmark.clone().with_priority(5).is_ok());

    // Invalid priorities
    assert!(bookmark.clone().with_priority(0).is_err());
    assert!(bookmark.clone().with_priority(6).is_err());
}

#[test]
fn test_priority_error_message() {
    let bookmark = Bookmark::new("https://example.com", "Test").unwrap();
    match bookmark.clone().with_priority(6) {
        Err(BookmarkError::InvalidId(msg)) => {
            assert_eq!(msg, "Priority must be between 1 and 5, got 6")
        }
        _ => panic!("Expected InvalidId"),
    }
    match bookmark.clone().with_priority(200) {
        Err(BookmarkError::InvalidId(msg)) => {
            assert_eq!(msg, "Priority must be between 1 and 5, got 200")
        }
        _ => panic!("Expected InvalidId"),
    }
    assert_eq!(bookmark.with_priority(4).unwrap().priority_rating, Some(4));
}

#[test]
fn test_note_immutability() {
    let mut bookmark = Bookmark::new("https://example.com", "Test").unwrap();

    // Add notes
    let note_id1 = bookmark.add_note("First note");
    let _note_id2 = bookmark.add_note("Second note");

    assert_eq!(bookmark.notes.len(), 2);
    assert_eq!(bookmark.notes[0].content, "First note");
    assert_eq!(bookmark.notes[1].content, "Second note");

    // Remove a note
    assert!(bookmark.remove_note(&note_id1));
    assert_eq!(bookmark.notes.len(), 1);
    assert_eq!(bookmark.notes[0].content, "Second note");

    // Try to remove non-existent note
    assert!(!bookmark.remove_note("non-existent"));
}

#[test]
fn test_remove_note_takes_the_first_of_equal_ids() {
    let mut bookmark = Bookmark::new("https://example.com", "Test").unwrap();
    bookmark.add_note("a");
    bookmark.add_note("b");
    bookmark.add_note("c");
    bookmark.notes[1].id = "same".to_string();
    bookmark.notes[2].id = "same".to_string();
    assert!(bookmark.remove_note("same"));
    assert_eq!(bookmark.notes.len(), 2);
    assert_eq!(bookmark.notes[0].content, "a");
    assert_eq!(bookmark.notes[1].content, "c");
}

#[test]
fn test_note_creation() {
    let note = Note::new("Test content");

    assert_eq!(note.content, "Test content");
    assert!(!note.id.is_empty());
    assert_eq!(note.id.len(), 36);
    assert!(note.created_at <= Timestamp::now());
}

#[test]
fn test_bookmark_filters_creation() {
    let filters = BookmarkFilters {
        text_query: Some("rust".to_string()),
        tags: Some(vec!["programming".to_string()]),
        reading_status: Some(ReadingStatus::Unread),
        priority_range: Some((3, 5)),
        bookmarked_since: None,
        bookmarked_until: None,
        published_since: None,
        published_until: None,
        sort_by: Some(SortBy::BookmarkedDate),
        sort_order: Some(SortDirection::Descending),
    };

    assert_eq!(filters.text_query, Some("rust".to_string()));
    assert_eq!(filters.tags, Some(vec!["programming".to_string()]));
    assert_eq!(filters.reading_status, Some(ReadingStatus::Unread));
    assert_eq!(filters.priority_range, Some((3, 5)));
    assert_eq!(filters.sort_by, Some(SortBy::BookmarkedDate));
    assert_eq!(filters.sort_order, Some(SortDirection::Descending));
}

#[test]
fn test_extended_bookmark_filters() {
    let now = Timestamp::now();
    let one_day_ago = Timestamp { secs: now.secs - 86400, nanos: now.nanos };

    let filters = BookmarkFilters {
        text_query: None,
        tags: None,
        reading_status: None,
        priority_range: None,
        bookmarked_since: Some(one_day_ago),
        bookmarked_until: Some(now),
        published_since: Some(one_day_ago),
        published_until: Some(now),
        sort_by: Some(SortBy::Title),
        sort_order: Some(SortDirection::Ascending),
    };

    assert_eq!(filters.bookmarked_since, Some(one_day_ago));
    assert_eq!(filters.bookmarked_until, Some(now));
    assert_eq!(filters.published_since, Some(one_day_ago));
    assert_eq!(filters.published_until, Some(now));
    assert_eq!(filters.sort_by, Some(SortBy::Title));
    assert_eq!(filters.sort_order, Some(SortDirection::Ascending));
}

#[test]
fn test_default_filters_are_empty() {
    let filters = BookmarkFilters::default();
    assert!(filters.text_query.is_none());
    assert!(filters.tags.is_none());
    assert!(filters.reading_status.is_none());
    assert!(filters.priority_range.is_none());
    assert!(filters.bookmarked_since.is_none());
    assert!(filters.bookmarked_until.is_none());
    assert!(filters.published_since.is_none());
    assert!(filters.published_until.is_none());
    assert!(filters.sort_by.is_none());
    assert!(filters.sort_order.is_none());
}

#[test]
fn test_sort_enums() {
    // Test SortBy variants
    assert_eq!(SortBy::BookmarkedDate, SortBy::BookmarkedDate);
    assert_eq!(SortBy::PublishDate, SortBy::PublishDate);
    assert_eq!(SortBy::Title, SortBy::Title);
    assert_eq!(SortBy::Priority, SortBy::Priority);

    // Test SortDirection variants
    assert_eq!(SortDirection::Ascending, SortDirection::Ascending);
    assert_eq!(SortDirection::Descending, SortDirection::Descending);
}

#[test]
fn test_extracted_metadata_creation() {
    let metadata = ExtractedMetadata {
        title: Some("Test Title".to_string()),
        author: Some("Test Author".to_string()),
        publish_date: Some(Timestamp::now()),
    };

    assert_eq!(metadata.title, Some("Test Title".to_string()));
    assert_eq!(metadata.author, Some("Test Author".to_string()));
    assert!(metadata.publish_date.is_some());
}

#[test]
fn test_create_valid_bookmark() {
    let bookmark = Bookmark::new("https://example.com", "Example Site").unwrap();

    assert_eq!(bookmark.url, "https://example.com");
    assert_eq!(bookmark.title, "Example Site");
    assert!(!bookmark.id.is_empty());
    assert!(bookmark.bookmarked_date <= Timestamp::now());
}

#[test]
fn test_reject_invalid_url() {
    let result = Bookmark::new("not-a-url", "Title");

    assert!(matches!(result, Err(BookmarkError::InvalidUrl(_))));
    if let Err(BookmarkError::InvalidUrl(url)) = result {
        assert_eq!(url, "not-a-url");
    }
}

#[test]
fn test_reject_empty_title() {
    let result = Bookmark::new("https://example.com", "");

    assert!(matches!(result, Err(BookmarkError::EmptyTitle)));
}

#[test]
fn test_reject_whitespace_only_title() {
    let result = Bookmark::new("https://example.com", "   ");

    assert!(matches!(result, Err(BookmarkError::EmptyTitle)));
}

#[test]
fn test_empty_title_goes_before_invalid_url() {
    let result = Bookmark::new("not-a-url", " \t\n");
    assert!(matches!(result, Err(BookmarkError::EmptyTitle)));
}

#[test]
fn test_trim_title_whitespace() {
    let bookmark = Bookmark::new("https://example.com", "  Title  ").unwrap();

    assert_eq!(bookmark.title, "Title");
}

#[test]
fn test_trim_title_unicode_whitespace() {
    let bookmark = Bookmark::new("https://example.com", "\u{3000}\u{a0}Inner  space\u{2003}\n").unwrap();
    assert_eq!(bookmark.title, "Inner  space");
}

#[test]
fn test_id_uniqueness() {
    let bookmark1 = Bookmark::new("https://example.com", "Title 1").unwrap();
    let bookmark2 = Bookmark::new("https://example.com", "Title 2").unwrap();

    assert_ne!(bookmark1.id, bookmark2.id);
    assert_eq!(bookmark1.id.len(), 36);
}

#[test]
fn bookmark_test_various_valid_urls() {
    let test_cases = vec![
        "https://www.example.com",
        "http://example.com",
        "https://subdomain.example.com/path",
        "https://example.com:8080/path?query=value",
    ];

    for url in test_cases {
        let result = Bookmark::new(url, "Test Title");
        assert!(result.is_ok(), "Failed to create bookmark for URL: {}", url);
    }
}

#[test]
fn test_bookmark_with_all_fields() {
    let mut bookmark = Bookmark::new("https://example.com", "Test Bookmark").unwrap();
    bookmark.tags = vec!["test".to_string(), "example".to_string()];
    bookmark.reading_status = ReadingStatus::Reading;
    bookmark.priority_rating = Some(4);
    bookmark.author = Some("Test Author".to_string());

    assert_eq!(bookmark.title, "Test Bookmark");
    assert_eq!(bookmark.url, "https://example.com");
    assert_eq!(bookmark.tags.len(), 2);
    assert_eq!(bookmark.reading_status, ReadingStatus::Reading);
    assert_eq!(bookmark.priority_rating, Some(4));
    assert_eq!(bookmark.author, Some("Test Author".to_string()));
}

#[test]
fn test_bookmark_with_notes() {
    let mut bookmark = Bookmark::new("https://example.com", "Test Bookmark").unwrap();
    let note_id = bookmark.add_note("This is a test note");

    assert_eq!(bookmark.notes.len(), 1);
    assert_eq!(bookmark.notes[0].content, "This is a test note");
    assert_eq!(bookmark.notes[0].id, note_id);
}

#[test]
fn test_clone_is_equal() {
    let mut bookmark = Bookmark::new("https://example.com", "Test")
        .unwrap()
        .with_tags(vec!["A".to_string()])
        .with_priority(2)
        .unwrap();
    bookmark.add_note("n");
    bookmark.author = Some("x".to_string());
    bookmark.publish_date = Some(Timestamp { secs: 5, nanos: 6 });
    assert_eq!(bookmark.clone(), bookmark);
}
