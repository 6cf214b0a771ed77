//! Fetching what a page says of itself.
//!
//! The fetching itself is not done here: a [`MetadataExtractor`] stands for
//! whatever does it.

use crate::bookmark::{ExtractedMetadata, is_valid_url, url_is_valid};
use crate::errors::ExtractorError;
use crate::text::{copy_opt_text, opt_text, trim_text, trimmed};
use crate::timestamp::{Timestamp, plain_datetime_value, rfc2822_value, rfc3339_value};
use vstd::prelude::*;
use vstd::string::*;

verus! {

/// Something that can fetch the metadata of a page.
pub trait MetadataExtractor {
    /// `r` is an answer that the extractor may give when asked for the
    /// page at `url` with `timeout_secs` seconds to fetch it.
    spec fn may_answer(
        &self,
        url: Seq<char>,
        timeout_secs: u64,
        r: Result<ExtractedMetadata, ExtractorError>,
    ) -> bool;

    /// The metadata of the page at `url`, fetched within `timeout_secs`
    /// seconds.
    fn extract_metadata(&self, url: &str, timeout_secs: u64) -> (r: Result<
        ExtractedMetadata,
        ExtractorError,
    >)
        ensures
            self.may_answer(url@, timeout_secs, r),
    ;
}

/// An extractor that fetches nothing and answers as it was told to.
#[derive(Debug)]
pub struct MockMetadataExtractor {
    pub should_fail: bool,
    pub extracted_title: Option<String>,
    pub extracted_author: Option<String>,
}

impl MockMetadataExtractor {
    /// An extractor that answers with a title and an author.
    pub fn new() -> (r: MockMetadataExtractor)
        ensures
            !r.should_fail,
            opt_text(r.extracted_title) == Some("Extracted Title"@),
            opt_text(r.extracted_author) == Some("Extracted Author"@),
    {
        MockMetadataExtractor {
            should_fail: false,
            extracted_title: Some(String::from_str("Extracted Title")),
            extracted_author: Some(String::from_str("Extracted Author")),
        }
    }

    /// An extractor that fails.
    pub fn with_failure() -> (r: MockMetadataExtractor)
        ensures
            r.should_fail,
            r.extracted_title is None,
            r.extracted_author is None,
    {
        MockMetadataExtractor { should_fail: true, extracted_title: None, extracted_author: None }
    }

    /// An extractor that answers with the given title and no author.
    pub fn with_title(title: &str) -> (r: MockMetadataExtractor)
        ensures
            !r.should_fail,
            opt_text(r.extracted_title) == Some(title@),
            r.extracted_author is None,
    {
        MockMetadataExtractor {
            should_fail: false,
            extracted_title: Some(String::from_str(title)),
            extracted_author: None,
        }
    }

    /// An extractor that answers with the given title and author. It never
    /// answers with a publish date, whatever is given here.
    pub fn with_metadata(
        title: Option<String>,
        author: Option<String>,
        _publish_date: Option<Timestamp>,
    ) -> (r: MockMetadataExtractor)
        ensures
            !r.should_fail,
            r.extracted_title == title,
            r.extracted_author == author,
    {
        MockMetadataExtractor { should_fail: false, extracted_title: title, extracted_author: author }
    }
}

impl MetadataExtractor for MockMetadataExtractor {
    /// Whatever the URL and the time: the failure it was told to give, or
    /// the title and the author it was given, without a publish date.
    open spec fn may_answer(
        &self,
        url: Seq<char>,
        timeout_secs: u64,
        r: Result<ExtractedMetadata, ExtractorError>,
    ) -> bool {
        if self.should_fail {
            r matches Err(ExtractorError::NetworkError(m)) && m@ == "Mock network error"@
        } else {
            r matches Ok(m) && opt_text(m.title) == opt_text(self.extracted_title) && opt_text(
                m.author,
            ) == opt_text(self.extracted_author) && m.publish_date is None
        }
    }

    fn extract_metadata(&self, _url: &str, _timeout_secs: u64) -> (r: Result<
        ExtractedMetadata,
        ExtractorError,
    >) {
        if self.should_fail {
            return Err(ExtractorError::NetworkError(String::from_str("Mock network error")));
        }
        Ok(
            ExtractedMetadata {
                title: copy_opt_text(&self.extracted_title),
                author: copy_opt_text(&self.extracted_author),
                publish_date: None,
            },
        )
    }
}

/// The text inside the first element of a page that a CSS selector
/// matches, where there is such an element.
pub uninterp spec fn element_text(html: Seq<char>, selector: Seq<char>) -> Option<Seq<char>>;

/// The value of an attribute of the first element of a page that a CSS
/// selector matches, where there is such an element with that attribute.
pub uninterp spec fn element_attribute(
    html: Seq<char>,
    selector: Seq<char>,
    attribute: Seq<char>,
) -> Option<Seq<char>>;

/// The text of the first `title` element of a page, where it has one.
pub open spec fn page_title(html: Seq<char>) -> Option<Seq<char>> {
    element_text(html, "title"@)
}

/// The `content` attribute of the first element of a page that a CSS
/// selector matches, where there is such an element with that attribute.
pub open spec fn page_meta(html: Seq<char>, selector: Seq<char>) -> Option<Seq<char>> {
    element_attribute(html, selector, "content"@)
}

/// `scraper`: the page parsed by `Html::parse_document`, the selector by
/// `Selector::parse`, and the text of the first element that `Html::select`
/// gives.
#[verifier::external_body]
fn html_text(html: &str, selector: &str) -> (r: Option<String>)
    ensures
        opt_text(r) == element_text(html@, selector@),
{
    let page = scraper::Html::parse_document(html);
    let chosen = scraper::Selector::parse(selector).ok()?;
    page.select(&chosen).next().map(|element| element.text().collect::<String>())
}

/// `scraper`: the page parsed by `Html::parse_document`, the selector by
/// `Selector::parse`, and the named attribute of the first element that
/// `Html::select` gives.
#[verifier::external_body]
fn html_attribute(html: &str, selector: &str, attribute: &str) -> (r: Option<String>)
    ensures
        opt_text(r) == element_attribute(html@, selector@, attribute@),
{
    let page = scraper::Html::parse_document(html);
    let chosen = scraper::Selector::parse(selector).ok()?;
    page.select(&chosen).next()?.value().attr(attribute).map(|c| c.to_string())
}

fn html_title(html: &str) -> (r: Option<String>)
    ensures
        opt_text(r) == page_title(html@),
{
    html_text(html, "title")
}

fn html_meta(html: &str, selector: &str) -> (r: Option<String>)
    ensures
        opt_text(r) == page_meta(html@, selector@),
{
    html_attribute(html, selector, "content")
}

/// A text trimmed, or nothing where it is blank or absent.
pub open spec fn filled(t: Option<Seq<char>>) -> Option<Seq<char>> {
    match t {
        Some(s) => if trimmed(s).len() > 0 {
            Some(trimmed(s))
        } else {
            None
        },
        None => None,
    }
}

fn fill(t: Option<String>) -> (r: Option<String>)
    ensures
        opt_text(r) == filled(opt_text(t)),
{
    match t {
        Some(s) => {
            let clean = trim_text(s.as_str());
            if clean.as_str().unicode_len() > 0 {
                Some(clean)
            } else {
                None
            }
        },
        None => None,
    }
}

/// The title of a page: the text of its first `title` element, trimmed,
/// where that is not blank.
pub fn extract_title(html: &str) -> (r: Option<String>)
    ensures
        opt_text(r) == filled(page_title(html@)),
{
    fill(html_title(html))
}

/// The selectors under which the author of a page is looked for, in order.
pub open spec fn author_selectors() -> Seq<Seq<char>> {
    seq![
        "meta[name='author']"@,
        "meta[property='article:author']"@,
        "meta[name='article:author']"@,
        "meta[property='author']"@,
    ]
}

/// The selectors under which the publish date of a page is looked for, in order.
pub open spec fn date_selectors() -> Seq<Seq<char>> {
    seq![
        "meta[property='article:published_time']"@,
        "meta[name='article:published_time']"@,
        "meta[property='published_time']"@,
        "meta[name='published_time']"@,
        "meta[property='article:published']"@,
        "meta[name='publish_date']"@,
    ]
}

/// The first filled content among those that the selectors find, from
/// the selector at `from` on.
pub open spec fn first_filled(html: Seq<char>, selectors: Seq<Seq<char>>, from: int) -> Option<
    Seq<char>,
>
    decreases selectors.len() - from,
{
    if from < 0 || from >= selectors.len() {
        None
    } else {
        match filled(page_meta(html, selectors[from])) {
            Some(t) => Some(t),
            None => first_filled(html, selectors, from + 1),
        }
    }
}

/// The instant that a text denotes: as RFC 3339, else as RFC 2822, else
/// as a plain date and time in UTC.
pub open spec fn date_value(t: Seq<char>) -> Option<Timestamp> {
    match rfc3339_value(t) {
        Some(d) => Some(d),
        None => match rfc2822_value(t) {
            Some(d) => Some(d),
            None => plain_datetime_value(t),
        },
    }
}

/// The first readable date among the contents that the selectors find,
/// from the selector at `from` on.
pub open spec fn first_date(html: Seq<char>, selectors: Seq<Seq<char>>, from: int) -> Option<
    Timestamp,
>
    decreases selectors.len() - from,
{
    if from < 0 || from >= selectors.len() {
        None
    } else {
        match page_meta(html, selectors[from]) {
            Some(t) => match date_value(t) {
                Some(d) => Some(d),
                None => first_date(html, selectors, from + 1),
            },
            None => first_date(html, selectors, from + 1),
        }
    }
}

fn selector_list(kind_is_author: bool) -> (r: Vec<&'static str>)
    ensures
        r.len() == (if kind_is_author {
            author_selectors().len()
        } else {
            date_selectors().len()
        }),
        forall|i: int|
            0 <= i < r.len() ==> (#[trigger] r[i])@ == (if kind_is_author {
                author_selectors()[i]
            } else {
                date_selectors()[i]
            }),
{
    let mut out: Vec<&'static str> = Vec::new();
    if kind_is_author {
        out.push("meta[name='author']");
        out.push("meta[property='article:author']");
        out.push("meta[name='article:author']");
        out.push("meta[property='author']");
    } else {
        out.push("meta[property='article:published_time']");
        out.push("meta[name='article:published_time']");
        out.push("meta[property='published_time']");
        out.push("meta[name='published_time']");
        out.push("meta[property='article:published']");
        out.push("meta[name='publish_date']");
    }
    out
}

/// The author of a page: the first content that is not blank, trimmed,
/// among those of its author tags.
pub fn extract_author(html: &str) -> (r: Option<String>)
    ensures
        opt_text(r) == first_filled(html@, author_selectors(), 0),
{
    let selectors = selector_list(true);
    let mut i: usize = 0;
    while i < selectors.len()
        invariant
            i <= selectors.len(),
            selectors.len() == author_selectors().len(),
            forall|k: int| 0 <= k < selectors.len() ==> (#[trigger] selectors[k])@ == author_selectors()[k],
            first_filled(html@, author_selectors(), 0) == first_filled(
                html@,
                author_selectors(),
                i as int,
            ),
        decreases selectors.len() - i,
    {
        match fill(html_meta(html, selectors[i])) {
            Some(author) => {
                return Some(author);
            },
            None => {},
        }
        i = i + 1;
    }
    None
}

/// The instant that a text denotes: as RFC 3339, else as RFC 2822, else
/// as a plain date and time in UTC.
pub fn parse_publish_date(text: &str) -> (r: Option<Timestamp>)
    ensures
        r == date_value(text@),
{
    match Timestamp::parse_rfc3339(text) {
        Some(d) => Some(d),
        None => match Timestamp::parse_rfc2822(text) {
            Some(d) => Some(d),
            None => Timestamp::parse_plain_datetime(text),
        },
    }
}

/// The publish date of a page: the first readable date among the contents
/// of its date tags.
pub fn extract_publish_date(html: &str) -> (r: Option<Timestamp>)
    ensures
        r == first_date(html@, date_selectors(), 0),
{
    let selectors = selector_list(false);
    let mut i: usize = 0;
    while i < selectors.len()
        invariant
            i <= selectors.len(),
            selectors.len() == date_selectors().len(),
            forall|k: int| 0 <= k < selectors.len() ==> (#[trigger] selectors[k])@ == date_selectors()[k],
            first_date(html@, date_selectors(), 0) == first_date(html@, date_selectors(), i as int),
        decreases selectors.len() - i,
    {
        match html_meta(html, selectors[i]) {
            Some(content) => match parse_publish_date(content.as_str()) {
                Some(d) => {
                    return Some(d);
                },
                None => {},
            },
            None => {},
        }
        i = i + 1;
    }
    None
}

/// What a page says of itself.
pub fn extract_from_html(html: &str) -> (r: ExtractedMetadata)
    ensures
        opt_text(r.title) == filled(page_title(html@)),
        opt_text(r.author) == first_filled(html@, author_selectors(), 0),
        r.publish_date == first_date(html@, date_selectors(), 0),
{
    ExtractedMetadata {
        title: extract_title(html),
        author: extract_author(html),
        publish_date: extract_publish_date(html),
    }
}

/// Why a page cannot be fetched before it was asked for: its URL does not
/// parse.
pub fn check_url(url: &str) -> (r: Result<(), ExtractorError>)
    ensures
        is_valid_url(url@) ==> r is Ok,
        !is_valid_url(url@) ==> (r matches Err(ExtractorError::InvalidUrl(u)) && u@ == url@),
{
    if url_is_valid(url) {
        Ok(())
    } else {
        Err(ExtractorError::InvalidUrl(String::from_str(url)))
    }
}

} // verus!
