use automark::bookmark::{Bookmark, BookmarkFilters, ReadingStatus, SortBy, SortDirection};
use automark::filter::{
    apply_filters, matches_all_tags, matches_filters, matches_tag, matches_text, may_precede,
    retain_matching, sort_bookmarks,
};
use automark::timestamp::Timestamp;

fn at(secs: i64) -> Timestamp {
    Timestamp { secs, nanos: 0 }
}

fn book(title: &str, tags: &[&str], priority: Option<u8>, bookmarked: i64, published: Option<i64>) -> Bookmark {
    let mut b = Bookmark::new("https://example.com", title).unwrap();
    b.tags = tags.iter().map(|t| t.to_string()).collect();
    b.priority_rating = priority;
    b.bookmarked_date = at(bookmarked);
    b.publish_date = published.map(at);
    b
}

fn titles(all: &[Bookmark]) -> Vec<&str> {
    all.iter().map(|b| b.title.as_str()).collect()
}

#[test]
fn test_tag_filter_is_and_and_ignores_case() {
    let first = book("first", &["rust", "web"], None, 0, None);
    let second = book("second", &["rust", "cli"], None, 0, None);
    let all = vec![first.clone(), second.clone()];

    let f = BookmarkFilters { tags: Some(vec!["rust".to_string(), "web".to_string()]), ..Default::default() };
    assert_eq!(apply_filters(all.clone(), &f), vec![first.clone()]);

    let f = BookmarkFilters { tags: Some(vec!["RUST".to_string(), "Web".to_string()]), ..Default::default() };
    assert_eq!(apply_filters(all.clone(), &f), vec![first.clone()]);

    let f = BookmarkFilters { tags: Some(vec!["rust".to_string()]), ..Default::default() };
    assert_eq!(apply_filters(all.clone(), &f), vec![first.clone(), second.clone()]);

    let f = BookmarkFilters { tags: Some(vec![]), ..Default::default() };
    assert_eq!(apply_filters(all.clone(), &f), all);

    let shouting = book("shouting", &["RUST", "WEB"], None, 0, None);
    assert!(matches_tag(&shouting, "rust"));
    assert!(matches_all_tags(&shouting, &vec!["web".to_string(), "Rust".to_string()]));
    assert!(!matches_all_tags(&shouting, &vec!["web".to_string(), "cli".to_string()]));
    assert!(!matches_tag(&shouting, "rus"));
}

#[test]
fn test_priority_range_excludes_unrated() {
    let unrated = book("unrated", &[], None, 0, None);
    let three = book("three", &[], Some(3), 0, None);
    let five = book("five", &[], Some(5), 0, None);
    let all = vec![unrated.clone(), three.clone(), five.clone()];

    let f = BookmarkFilters { priority_range: Some((1, 5)), ..Default::default() };
    assert_eq!(apply_filters(all.clone(), &f), vec![three.clone(), five.clone()]);
    assert!(!matches_filters(&unrated, &f));

    let f = BookmarkFilters { priority_range: Some((0, 255)), ..Default::default() };
    assert_eq!(apply_filters(all.clone(), &f), vec![three.clone(), five.clone()]);

    let f = BookmarkFilters { priority_range: Some((3, 3)), ..Default::default() };
    assert_eq!(apply_filters(all.clone(), &f), vec![three.clone()]);

    let f = BookmarkFilters { priority_range: Some((4, 2)), ..Default::default() };
    assert!(apply_filters(all.clone(), &f).is_empty());
}

#[test]
fn test_text_query_looks_everywhere_without_case() {
    let mut b = Bookmark::new("https://Example.com/Path", "A Title").unwrap();
    b.author = Some("Grace Hopper".to_string());
    b.add_note("remember the MOTH");
    assert!(matches_text(&b, "title"));
    assert!(matches_text(&b, "EXAMPLE.COM/path"));
    assert!(matches_text(&b, "hopper"));
    assert!(matches_text(&b, "moth"));
    assert!(matches_text(&b, ""));
    assert!(!matches_text(&b, "absent"));
    assert!(!matches_text(&b, "titlex"));
    b.author = None;
    assert!(!matches_text(&b, "hopper"));
}

#[test]
fn test_reading_status_filter() {
    let mut a = book("a", &[], None, 0, None);
    a.reading_status = ReadingStatus::Reading;
    let b = book("b", &[], None, 0, None);
    let f = BookmarkFilters { reading_status: Some(ReadingStatus::Reading), ..Default::default() };
    assert_eq!(apply_filters(vec![a.clone(), b.clone()], &f), vec![a]);
    let f = BookmarkFilters { reading_status: Some(ReadingStatus::Unread), ..Default::default() };
    assert!(matches_filters(&b, &f));
}

#[test]
fn test_bookmarked_date_bounds_are_inclusive() {
    let early = book("early", &[], None, 100, None);
    let mid = book("mid", &[], None, 200, None);
    let late = book("late", &[], None, 300, None);
    let all = vec![early.clone(), mid.clone(), late.clone()];

    let f = BookmarkFilters { bookmarked_since: Some(at(200)), ..Default::default() };
    assert_eq!(titles(&apply_filters(all.clone(), &f)), vec!["mid", "late"]);
    let f = BookmarkFilters { bookmarked_until: Some(at(200)), ..Default::default() };
    assert_eq!(titles(&apply_filters(all.clone(), &f)), vec!["early", "mid"]);
    let f = BookmarkFilters {
        bookmarked_since: Some(at(200)),
        bookmarked_until: Some(at(200)),
        ..Default::default()
    };
    assert_eq!(titles(&apply_filters(all.clone(), &f)), vec!["mid"]);
    let f = BookmarkFilters {
        bookmarked_since: Some(Timestamp { secs: 200, nanos: 1 }),
        bookmarked_until: Some(at(300)),
        ..Default::default()
    };
    assert_eq!(titles(&apply_filters(all.clone(), &f)), vec!["late"]);
}

#[test]
fn test_published_bounds_exclude_undated() {
    let undated = book("undated", &[], None, 0, None);
    let old = book("old", &[], None, 0, Some(100));
    let new = book("new", &[], None, 0, Some(300));
    let all = vec![undated.clone(), old.clone(), new.clone()];

    let f = BookmarkFilters::default();
    assert_eq!(apply_filters(all.clone(), &f), all);
    let f = BookmarkFilters { published_until: Some(at(1_000)), ..Default::default() };
    assert_eq!(titles(&apply_filters(all.clone(), &f)), vec!["old", "new"]);
    let f = BookmarkFilters { published_since: Some(at(-1_000)), ..Default::default() };
    assert_eq!(titles(&apply_filters(all.clone(), &f)), vec!["old", "new"]);
    let f = BookmarkFilters { published_since: Some(at(100)), published_until: Some(at(299)), ..Default::default() };
    assert_eq!(titles(&apply_filters(all.clone(), &f)), vec!["old"]);
}

#[test]
fn test_filters_are_conjunctive() {
    let a = book("rust book", &["rust"], Some(5), 100, None);
    let b = book("rust blog", &["rust"], Some(1), 100, None);
    let c = book("go book", &["go"], Some(5), 100, None);
    let f = BookmarkFilters {
        text_query: Some("book".to_string()),
        tags: Some(vec!["rust".to_string()]),
        priority_range: Some((4, 5)),
        ..Default::default()
    };
    assert_eq!(retain_matching(&vec![a.clone(), b, c], &f), vec![a]);
}

#[test]
fn test_sort_by_title() {
    let all = vec![
        book("pear", &[], None, 0, None),
        book("Apple", &[], None, 0, None),
        book("apple", &[], None, 0, None),
        book("blank", &[], None, 0, None),
        book("app", &[], None, 0, None),
        book("żuraw", &[], None, 0, None),
    ];
    // titles are set directly: an empty one cannot be made through `new`
    let mut all = all;
    all[3].title = "".to_string();
    let up = sort_bookmarks(&all, SortBy::Title, SortDirection::Ascending);
    assert_eq!(titles(&up), vec!["", "Apple", "app", "apple", "pear", "żuraw"]);
    let down = sort_bookmarks(&all, SortBy::Title, SortDirection::Descending);
    assert_eq!(titles(&down), vec!["żuraw", "pear", "apple", "app", "Apple", ""]);
}

#[test]
fn test_sort_is_stable_in_both_directions() {
    let all = vec![
        book("a", &[], Some(2), 0, None),
        book("b", &[], Some(1), 0, None),
        book("c", &[], Some(2), 0, None),
        book("d", &[], Some(1), 0, None),
        book("e", &[], Some(2), 0, None),
    ];
    let up = sort_bookmarks(&all, SortBy::Priority, SortDirection::Ascending);
    assert_eq!(titles(&up), vec!["b", "d", "a", "c", "e"]);
    let down = sort_bookmarks(&all, SortBy::Priority, SortDirection::Descending);
    assert_eq!(titles(&down), vec!["a", "c", "e", "b", "d"]);
}

#[test]
fn test_missing_sort_field_counts_as_smallest() {
    let all = vec![
        book("rated3", &[], Some(3), 0, Some(30)),
        book("bare1", &[], None, 0, None),
        book("rated1", &[], Some(1), 0, Some(10)),
        book("bare2", &[], None, 0, None),
    ];
    assert_eq!(
        titles(&sort_bookmarks(&all, SortBy::Priority, SortDirection::Ascending)),
        vec!["bare1", "bare2", "rated1", "rated3"]
    );
    assert_eq!(
        titles(&sort_bookmarks(&all, SortBy::Priority, SortDirection::Descending)),
        vec!["rated3", "rated1", "bare1", "bare2"]
    );
    assert_eq!(
        titles(&sort_bookmarks(&all, SortBy::PublishDate, SortDirection::Ascending)),
        vec!["bare1", "bare2", "rated1", "rated3"]
    );
    assert_eq!(
        titles(&sort_bookmarks(&all, SortBy::PublishDate, SortDirection::Descending)),
        vec!["rated3", "rated1", "bare1", "bare2"]
    );
}

#[test]
fn test_sort_by_bookmarked_date() {
    let mut all = vec![
        book("third", &[], None, 30, None),
        book("first", &[], None, 10, None),
        book("second", &[], None, 10, None),
    ];
    all[2].bookmarked_date = Timestamp { secs: 10, nanos: 1 };
    assert_eq!(
        titles(&sort_bookmarks(&all, SortBy::BookmarkedDate, SortDirection::Ascending)),
        vec!["first", "second", "third"]
    );
    assert_eq!(
        titles(&sort_bookmarks(&all, SortBy::BookmarkedDate, SortDirection::Descending)),
        vec!["third", "second", "first"]
    );
    assert!(sort_bookmarks(&Vec::new(), SortBy::Title, SortDirection::Ascending).is_empty());
}

#[test]
fn test_apply_filters_sorts_what_is_kept() {
    let all = vec![
        book("b", &["x"], Some(2), 0, None),
        book("c", &[], Some(3), 0, None),
        book("a", &["x"], Some(1), 0, None),
    ];
    let f = BookmarkFilters {
        tags: Some(vec!["x".to_string()]),
        sort_by: Some(SortBy::Title),
        sort_order: Some(SortDirection::Ascending),
        ..Default::default()
    };
    assert_eq!(titles(&apply_filters(all.clone(), &f)), vec!["a", "b"]);
    // without a direction the order is descending
    let f = BookmarkFilters { sort_by: Some(SortBy::Title), ..Default::default() };
    assert_eq!(titles(&apply_filters(all.clone(), &f)), vec!["c", "b", "a"]);
    // without a field the order is that of the input, whatever the direction
    let f = BookmarkFilters { sort_order: Some(SortDirection::Ascending), ..Default::default() };
    assert_eq!(titles(&apply_filters(all.clone(), &f)), vec!["b", "c", "a"]);
}

#[test]
fn test_may_precede() {
    let a = book("a", &[], Some(1), 0, None);
    let b = book("b", &[], Some(1), 5, None);
    assert!(may_precede(&a, &b, SortBy::Title, SortDirection::Ascending));
    assert!(!may_precede(&b, &a, SortBy::Title, SortDirection::Ascending));
    assert!(may_precede(&b, &a, SortBy::Title, SortDirection::Descending));
    assert!(may_precede(&a, &b, SortBy::Priority, SortDirection::Ascending));
    assert!(may_precede(&b, &a, SortBy::Priority, SortDirection::Ascending));
    assert!(!may_precede(&a, &b, SortBy::BookmarkedDate, SortDirection::Descending));
}
