use automark::bookmark::{Bookmark, SortBy, SortDirection};
use automark::commands::{DeleteArgs, DeleteCommand, SearchArgs, SearchCommand};
use automark::errors::BookmarkError;
use automark::filter::{matches_text, may_precede};
use automark::render::{bookmark_info, priority_words};
use automark::text::{
    find_char, find_text, insert_char, join_texts, joined, prefix_of, remove_char, stands_at,
    trim_text,
};

fn titled(title: &str) -> Bookmark {
    let mut b = Bookmark::new("https://example.com", "x").unwrap();
    b.title = title.to_string();
    b
}

fn trimmed(title: &str) -> Option<String> {
    Bookmark::new("https://example.com", title).ok().map(|b| b.title)
}

fn before(a: &str, b: &str) -> bool {
    !may_precede(&titled(b), &titled(a), SortBy::Title, SortDirection::Ascending)
}

fn range(s: &str) -> Result<(u8, u8), String> {
    let command = SearchCommand::new(SearchArgs {
        query: None,
        tags: None,
        status: None,
        priority: None,
        since: None,
        until: None,
        published_since: None,
        published_until: None,
        sort_by: None,
        sort_order: SortDirection::Descending,
    });
    match command.parse_priority_range(s) {
        Ok(r) => Ok(r),
        Err(BookmarkError::InvalidId(m)) => Err(m),
        Err(other) => panic!("Expected InvalidId, got {:?}", other),
    }
}

#[test]
fn test_substring_search_in_a_query() {
    let mut b = titled("hello world");
    b.url = "u".to_string();
    assert!(matches_text(&b, "lo w"));
    assert!(matches_text(&b, ""));
    assert!(matches_text(&b, "hello world"));
    assert!(!matches_text(&b, "hello world!"));
    assert!(!matches_text(&b, "worlds"));
    b.title = "".to_string();
    b.url = "".to_string();
    assert!(matches_text(&b, ""));
    assert!(!matches_text(&b, "a"));
}

#[test]
fn test_prefix_search_among_ids() {
    let mut b = titled("t");
    b.id = "hello".to_string();
    let find = |id: &str| {
        DeleteCommand::new(DeleteArgs { id: id.to_string() }).find_bookmark_by_id(&vec![b.clone()]).is_ok()
    };
    assert!(find("he"));
    assert!(find(""));
    assert!(find("hello"));
    assert!(!find("el"));
    assert!(!find("hellos"));
}

#[test]
fn test_lowercase_of_tags() {
    let b = titled("t").with_tags(vec!["Rust ÄÖ İ".to_string(), "PROGRAMMING".to_string(), "".to_string()]);
    assert_eq!(b.tags, vec!["Rust ÄÖ İ".to_lowercase(), "programming".to_string(), "".to_string()]);
    assert_eq!(b.tags[0], "rust äö i\u{307}");
}

#[test]
fn test_trim_of_titles() {
    assert_eq!(trimmed("  a b  "), Some("a b".to_string()));
    assert_eq!(
        trimmed("\t\n\r\u{b}\u{c} x \u{85}\u{a0}\u{1680}\u{2000}\u{200a}\u{2028}\u{2029}\u{202f}\u{205f}\u{3000}"),
        Some("x".to_string())
    );
    assert_eq!(trimmed("\u{200b}x\u{feff}"), Some("\u{200b}x\u{feff}".to_string()));
    assert_eq!(trimmed("\u{1c}x\u{1f}"), Some("\u{1c}x\u{1f}".to_string()));
    assert_eq!(trimmed("   "), None);
    assert_eq!(trimmed(""), None);
}

#[test]
fn test_order_of_titles() {
    assert!(before("a", "b"));
    assert!(before("", "a"));
    assert!(before("a", "ab"));
    assert!(before("Z", "a"));
    assert!(before("z", "é"));
    assert!(before("\u{ffff}", "\u{10000}"));
    assert!(!before("a", "a"));
    assert!(!before("b", "a"));
    assert!(!before("", ""));
}

#[test]
fn test_small_numbers_in_words() {
    assert_eq!(priority_words(Some(0)), "Priority: 0/5");
    assert_eq!(priority_words(Some(7)), "Priority: 7/5");
    assert_eq!(priority_words(Some(10)), "Priority: 10/5");
    assert_eq!(priority_words(Some(99)), "Priority: 99/5");
    assert_eq!(priority_words(Some(100)), "Priority: 100/5");
    assert_eq!(priority_words(Some(205)), "Priority: 205/5");
    assert_eq!(priority_words(Some(255)), "Priority: 255/5");
    for n in 0..=255u8 {
        assert_eq!(priority_words(Some(n)), format!("Priority: {}/5", n));
    }
}

#[test]
fn test_small_numbers_read() {
    for n in 0..=255u8 {
        let text = format!("{}", n);
        if (1..=5).contains(&n) {
            assert_eq!(range(&text), Ok((n, n)));
        } else {
            assert_eq!(range(&text), Err(format!("Priority must be between 1 and 5, got {}", n)));
        }
    }
    assert_eq!(range("+5"), Ok((5, 5)));
    assert_eq!(range("005"), Ok((5, 5)));
    assert_eq!(range("0000000000000000000000255"), Err("Priority must be between 1 and 5, got 255".to_string()));
    for bad in ["256", "999", "+", "", "++1", "1+", " 1", "1 ", "1_0", "١", "0x1", "1.0"] {
        assert_eq!(range(bad), Err(format!("Invalid priority: {}", bad)), "{:?}", bad);
    }
    assert_eq!(range("-1"), Err("Invalid priority minimum: ".to_string()));
}

#[test]
fn test_counts_in_words() {
    assert_eq!(bookmark_info(0, None), "0 bookmarks");
    assert_eq!(bookmark_info(1234, Some(56)), "Showing 56 of 1234 bookmarks");
    assert_eq!(bookmark_info(usize::MAX, None), format!("{} bookmarks", usize::MAX));
}

#[test]
fn test_joining() {
    assert_eq!(joined("ab", "cd"), "abcd");
    assert_eq!(joined("", ""), "");
    assert_eq!(join_texts(&vec![], ", "), "");
    assert_eq!(join_texts(&vec!["a".to_string()], ", "), "a");
    assert_eq!(join_texts(&vec!["a".to_string(), "".to_string(), "c".to_string()], ", "), "a, , c");
}

#[test]
fn test_searching() {
    assert_eq!(find_char("a-b-c", '-'), Some(1));
    assert_eq!(find_char("é-b", '-'), Some(1));
    assert_eq!(find_char("abc", '-'), None);
    assert_eq!(find_char("", '-'), None);
    assert_eq!(find_text("a://b://c", "://"), Some(1));
    assert_eq!(find_text("é://b", "://"), Some(1));
    assert_eq!(find_text("abc", ""), Some(0));
    assert_eq!(find_text("", ""), Some(0));
    assert_eq!(find_text("ab", "abc"), None);
    assert_eq!(find_text("aab", "ab"), Some(1));
    assert!(stands_at("hello", "lo", 3));
    assert!(!stands_at("hello", "lo", 4));
    assert!(!stands_at("hello", "lo", 40));
    assert!(stands_at("hello", "", 5));
    assert!(!stands_at("hello", "", 6));
}

#[test]
fn test_editing() {
    assert_eq!(insert_char("héllo", 2, 'X'), "héXllo");
    assert_eq!(insert_char("", 0, 'ß'), "ß");
    assert_eq!(insert_char("ab", 9, 'X'), "abX");
    assert_eq!(remove_char("héllo", 1), "hllo");
    assert_eq!(remove_char("ab", 2), "ab");
    assert_eq!(remove_char("", 0), "");
    assert_eq!(prefix_of("abcdefghij", 8), "abcdefgh");
    assert_eq!(prefix_of("abc", 8), "abc");
    assert_eq!(prefix_of("ééééééééé", 8), "éééééééé");
}

#[test]
fn test_white_space_is_what_unicode_lists() {
    let listed = |c: char| {
        let n = c as u32;
        (0x09..=0x0d).contains(&n)
            || n == 0x20
            || n == 0x85
            || n == 0xa0
            || n == 0x1680
            || (0x2000..=0x200a).contains(&n)
            || n == 0x2028
            || n == 0x2029
            || n == 0x202f
            || n == 0x205f
            || n == 0x3000
    };
    let mut probe = String::new();
    for n in 0..=0x10ffffu32 {
        if let Some(c) = char::from_u32(n) {
            assert_eq!(c.is_whitespace(), listed(c), "U+{:04X}", n);
            if listed(c) || n < 0x3100 {
                probe.clear();
                probe.push(c);
                assert_eq!(trim_text(&probe).is_empty(), listed(c), "U+{:04X}", n);
            }
        }
    }
    assert_eq!(trim_text("\u{2003}a b\u{3000}\n"), "a b");
}
