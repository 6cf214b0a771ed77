//! The commands of the application: their arguments and what they decide.
//!
//! Reading arguments, talking to the user and printing are not done here.

use crate::bookmark::{
    Bookmark, BookmarkFilters, BookmarkView, ExtractedMetadata, FiltersView, ReadingStatus, SortBy,
    SortDirection, bookmark_views, is_valid_url,
};
use crate::config::Config;
use crate::errors::{BookmarkError, BookmarkResult, ExtractorError};
use crate::filter::selects;
use crate::extractor::MetadataExtractor;
use crate::repository::in_common_era;
use crate::sync::SyncArgs;
use crate::traits::BookmarkRepository;
use crate::text::{
    copy_opt_text, copy_texts, decimal_of, find_char, first_index, join_texts, joined, joined_with,
    lemma_first_index_from, lemma_trimmed_twice, opt_text, parse_small_number, prefix_of, same_text, small_number,
    small_number_text, starts_with_text, texts, trim_text, trimmed,
};
use crate::timestamp::{Timestamp, calendar_date_value};
use vstd::prelude::*;
use vstd::string::*;

verus! {

/// How results are shown.
#[derive(Debug, Clone, Copy, PartialEq, Eq, Structural)]
pub enum OutputFormat {
    Human,
    Json,
}

/// How results are shown, as given on the command line.
#[derive(Debug, Clone, Copy, PartialEq, Eq, Structural)]
pub enum OutputFormatArg {
    Human,
    Json,
}

impl From<OutputFormatArg> for OutputFormat {
    fn from(arg: OutputFormatArg) -> (r: OutputFormat) {
        match arg {
            OutputFormatArg::Human => OutputFormat::Human,
            OutputFormatArg::Json => OutputFormat::Json,
        }
    }
}

impl vstd::std_specs::convert::FromSpecImpl<OutputFormatArg> for OutputFormat {
    open spec fn obeys_from_spec() -> bool {
        true
    }

    open spec fn from_spec(arg: OutputFormatArg) -> OutputFormat {
        match arg {
            OutputFormatArg::Human => OutputFormat::Human,
            OutputFormatArg::Json => OutputFormat::Json,
        }
    }
}

/// The arguments of `add`.
#[derive(Debug)]
pub struct AddArgs {
    pub url: String,
    /// The title; taken from the page if absent.
    pub title: Option<String>,
    /// The author; taken from the page if absent.
    pub author: Option<String>,
    pub tags: Vec<String>,
    /// Do not fetch the page.
    pub no_fetch: bool,
}

/// The arguments of `delete`.
#[derive(Debug)]
pub struct DeleteArgs {
    /// The id of the bookmark, or the start of it.
    pub id: String,
}

/// The arguments of `search`.
#[derive(Debug)]
pub struct SearchArgs {
    pub query: Option<String>,
    pub tags: Option<Vec<String>>,
    pub status: Option<ReadingStatus>,
    /// `min-max`, or one number.
    pub priority: Option<String>,
    /// `MM-DD-YYYY`.
    pub since: Option<String>,
    /// `MM-DD-YYYY`.
    pub until: Option<String>,
    /// `MM-DD-YYYY`.
    pub published_since: Option<String>,
    /// `MM-DD-YYYY`.
    pub published_until: Option<String>,
    pub sort_by: Option<SortBy>,
    pub sort_order: SortDirection,
}

/// The arguments of `tui`: none.
#[derive(Debug, Clone, Copy)]
pub struct TuiArgs {}

/// The commands.
#[derive(Debug)]
pub enum Commands {
    Add(AddArgs),
    List,
    Delete(DeleteArgs),
    Search(SearchArgs),
    Sync(SyncArgs),
    Tui(TuiArgs),
}

/// The command line.
#[derive(Debug)]
pub struct Cli {
    pub command: Commands,
    pub output: OutputFormatArg,
}

impl Clone for AddArgs {
    fn clone(&self) -> (r: AddArgs)
        ensures
            r.url@ == self.url@,
            opt_text(r.title) == opt_text(self.title),
            opt_text(r.author) == opt_text(self.author),
            texts(r.tags@) == texts(self.tags@),
            r.no_fetch == self.no_fetch,
    {
        AddArgs {
            url: self.url.clone(),
            title: copy_opt_text(&self.title),
            author: copy_opt_text(&self.author),
            tags: copy_texts(&self.tags),
            no_fetch: self.no_fetch,
        }
    }
}

impl Clone for DeleteArgs {
    fn clone(&self) -> (r: DeleteArgs)
        ensures
            r.id@ == self.id@,
    {
        DeleteArgs { id: self.id.clone() }
    }
}

/// What of the fetched metadata is reported.
#[derive(Debug)]
pub struct ExtractedMetadataInfo {
    pub title: Option<String>,
    pub author: Option<String>,
    pub publish_date: Option<String>,
}

/// How fetching the metadata went.
#[derive(Debug)]
pub enum ExtractionStatus {
    Success,
    Skipped,
    Failed(String),
    Timeout,
}

/// The report of `add`.
#[derive(Debug)]
pub struct AddResponse {
    pub bookmark: Bookmark,
    pub metadata_extracted: bool,
    pub extraction_time_ms: Option<u64>,
    pub extracted_metadata: Option<ExtractedMetadataInfo>,
    pub extraction_status: ExtractionStatus,
}

/// The report of `delete`.
#[derive(Debug)]
pub struct DeleteResponse {
    pub deleted_bookmark: Bookmark,
    pub operation_status: String,
    pub affected_count: u32,
}

/// The report of `list`.
#[derive(Debug)]
pub struct ListResponse {
    pub bookmarks: Vec<Bookmark>,
    pub total_count: usize,
    pub page: Option<u32>,
    pub per_page: Option<u32>,
}

/// What a search asked for, in words.
#[derive(Debug)]
pub struct QuerySummary {
    pub text_query: Option<String>,
    pub tags_filter: Option<Vec<String>>,
    pub status_filter: Option<ReadingStatus>,
    pub priority_filter: Option<String>,
    pub date_range: Option<String>,
    pub sort_info: Option<String>,
}

/// The report of `search`.
#[derive(Debug)]
pub struct SearchResponse {
    pub results: Vec<Bookmark>,
    pub total_count: usize,
    pub query_summary: QuerySummary,
}

/// The `add` command.
#[derive(Debug)]
pub struct AddCommand {
    pub args: AddArgs,
}

impl AddCommand {
    pub fn new(args: AddArgs) -> (r: AddCommand)
        ensures
            r.args == args,
    {
        AddCommand { args }
    }
}

/// Whether the page is to be fetched for its metadata: not where the
/// arguments forbid it, not where title and author are both given, and
/// otherwise as the configuration says.
pub open spec fn should_extract(args: AddArgs, config: Config) -> bool {
    !args.no_fetch && !(args.title is Some && args.author is Some) && config.metadata.enabled
}

/// Whether the page is to be fetched for its metadata.
pub fn should_extract_metadata(args: &AddArgs, config: &Config) -> (r: bool)
    ensures
        r == should_extract(*args, *config),
{
    if args.no_fetch {
        return false;
    }
    if args.title.is_some() && args.author.is_some() {
        return false;
    }
    config.metadata.enabled
}

/// How one attempt to fetch the metadata ended.
#[derive(Debug)]
pub enum AttemptOutcome {
    Fetched(ExtractedMetadata),
    Failed(ExtractorError),
    TimedOut,
}

/// What follows an attempt to fetch the metadata.
#[derive(Debug)]
pub enum AttemptStep {
    /// The metadata are there.
    Done(ExtractedMetadata),
    /// Wait this many milliseconds, then try again.
    RetryAfter(u64),
    /// Give up with this error.
    GiveUp(BookmarkError),
}

/// What follows the attempt with the given number, counted from zero: a
/// failure is retried while attempts are left; a timeout is not.
pub fn after_attempt(attempt: u32, outcome: AttemptOutcome, config: &Config) -> (r: AttemptStep)
    ensures
        match outcome {
            AttemptOutcome::Fetched(m) => r == AttemptStep::Done(m),
            AttemptOutcome::Failed(e) => if attempt < config.metadata.retry_attempts {
                r == AttemptStep::RetryAfter(config.metadata.retry_delay_ms)
            } else {
                r == AttemptStep::GiveUp(BookmarkError::MetadataExtraction(e))
            },
            AttemptOutcome::TimedOut => r == AttemptStep::GiveUp(
                BookmarkError::MetadataExtraction(ExtractorError::Timeout),
            ),
        },
{
    match outcome {
        AttemptOutcome::Fetched(m) => AttemptStep::Done(m),
        AttemptOutcome::Failed(e) => {
            if attempt < config.metadata.retry_attempts {
                AttemptStep::RetryAfter(config.metadata.retry_delay_ms)
            } else {
                AttemptStep::GiveUp(BookmarkError::MetadataExtraction(e))
            }
        },
        AttemptOutcome::TimedOut => AttemptStep::GiveUp(
            BookmarkError::MetadataExtraction(ExtractorError::Timeout),
        ),
    }
}

/// The title of a new bookmark: the given one, else the fetched one, trimmed.
pub open spec fn chosen_title(given: Option<Seq<char>>, fetched: Option<Option<Seq<char>>>) -> Option<
    Seq<char>,
> {
    match given {
        Some(t) => Some(trimmed(t)),
        None => match fetched {
            Some(Some(t)) => Some(trimmed(t)),
            _ => None,
        },
    }
}

/// The texts trimmed, without those that are empty then.
pub open spec fn clean_tags(tags: Seq<Seq<char>>) -> Seq<Seq<char>>
    decreases tags.len(),
{
    if tags.len() == 0 {
        Seq::empty()
    } else if trimmed(tags.last()).len() > 0 {
        clean_tags(tags.drop_last()).push(trimmed(tags.last()))
    } else {
        clean_tags(tags.drop_last())
    }
}

/// What was fetched, where anything was.
pub open spec fn fetched_from(extracted: Option<&ExtractedMetadata>) -> Option<ExtractedMetadata> {
    match extracted {
        Some(m) => Some(*m),
        None => None,
    }
}

/// The title that `add` gives a bookmark: the chosen one, which must not
/// be empty.
pub open spec fn add_title(args: AddArgs, extracted: Option<ExtractedMetadata>) -> Option<Seq<char>> {
    match chosen_title(
        opt_text(args.title),
        match extracted {
            Some(m) => Some(opt_text(m.title)),
            None => None,
        },
    ) {
        Some(t) => if t.len() == 0 {
            None
        } else {
            Some(t)
        },
        None => None,
    }
}

/// `add` can make a bookmark of the arguments and of what was fetched:
/// there is a title, and the URL parses.
pub open spec fn addable(args: AddArgs, extracted: Option<ExtractedMetadata>) -> bool {
    add_title(args, extracted) is Some && is_valid_url(args.url@)
}

/// `b` is a bookmark as `add` makes it of the arguments and of what was
/// fetched: unread, unrated and without notes, under an id of its own and
/// the current time, which can be written as text. The author is the given one, trimmed, else the fetched one.
/// The publish date is the fetched one. The tags are the given ones,
/// trimmed, without the empty ones.
pub open spec fn made_of(args: AddArgs, extracted: Option<ExtractedMetadata>, b: BookmarkView) -> bool {
    addable(args, extracted) && b.bookmarked_date.writable() && b == (BookmarkView {
        id: b.id,
        url: args.url@,
        title: add_title(args, extracted)->Some_0,
        bookmarked_date: b.bookmarked_date,
        author: match args.author {
            Some(a) => Some(trimmed(a@)),
            None => match extracted {
                Some(m) => opt_text(m.author),
                None => None,
            },
        },
        tags: clean_tags(texts(args.tags@)),
        publish_date: match extracted {
            Some(m) => m.publish_date,
            None => None,
        },
        notes: Seq::empty(),
        reading_status: ReadingStatus::Unread,
        priority_rating: None,
    })
}

/// The answer of `add` where it can make no bookmark: that the title is
/// empty, else that the URL is invalid.
pub open spec fn refused<T>(args: AddArgs, extracted: Option<ExtractedMetadata>, r: BookmarkResult<T>) -> bool {
    if add_title(args, extracted) is None {
        r matches Err(BookmarkError::EmptyTitle)
    } else {
        r matches Err(BookmarkError::InvalidUrl(u)) && u@ == args.url@
    }
}

/// The bookmark that `add` stores: the given title, author and tags go
/// before what was fetched from the page.
///
/// The title is the given one, else the fetched one, trimmed, and must not
/// be empty; the URL must parse.
pub fn create_bookmark_with_metadata(args: &AddArgs, extracted: Option<&ExtractedMetadata>) -> (r:
    BookmarkResult<Bookmark>)
    ensures
        addable(*args, fetched_from(extracted)) ==> (r matches Ok(b) && made_of(
            *args,
            fetched_from(extracted),
            b@,
        )),
        !addable(*args, fetched_from(extracted)) ==> refused(*args, fetched_from(extracted), r),
{
    let title = match &args.title {
        Some(t) => trim_text(t.as_str()),
        None => match extracted {
            Some(m) => match &m.title {
                Some(t) => trim_text(t.as_str()),
                None => {
                    return Err(BookmarkError::EmptyTitle);
                },
            },
            None => {
                return Err(BookmarkError::EmptyTitle);
            },
        },
    };
    proof {
        lemma_trimmed_twice(opt_text(args.title)->Some_0);
        if extracted is Some {
            lemma_trimmed_twice(opt_text(extracted->Some_0.title)->Some_0);
        }
    }
    let mut bookmark = Bookmark::new(args.url.as_str(), title.as_str())?;
    match &args.author {
        Some(a) => {
            bookmark.author = Some(trim_text(a.as_str()));
        },
        None => match extracted {
            Some(m) => {
                bookmark.author = copy_opt_text(&m.author);
            },
            None => {},
        },
    }
    match extracted {
        Some(m) => {
            bookmark.publish_date = m.publish_date;
        },
        None => {},
    }
    let ghost all = texts(args.tags@);
    let mut tags: Vec<String> = Vec::new();
    let mut i: usize = 0;
    assert(texts(tags@) =~= clean_tags(all.subrange(0, 0)));
    while i < args.tags.len()
        invariant
            i <= args.tags.len(),
            all == texts(args.tags@),
            texts(tags@) == clean_tags(all.subrange(0, i as int)),
        decreases args.tags.len() - i,
    {
        assert(all.subrange(0, i + 1).drop_last() =~= all.subrange(0, i as int));
        assert(all.subrange(0, i + 1).last() == args.tags[i as int]@);
        let clean = trim_text(args.tags[i].as_str());
        let ghost before = tags@;
        if clean.as_str().unicode_len() > 0 {
            tags.push(clean);
            assert(texts(tags@) =~= texts(before).push(trimmed(args.tags[i as int]@)));
        }
        i = i + 1;
    }
    assert(all.subrange(0, args.tags.len() as int) =~= all);
    bookmark.tags = tags;
    Ok(bookmark)
}

/// The `delete` command.
#[derive(Debug)]
pub struct DeleteCommand {
    args: DeleteArgs,
}

/// The position of the first bookmark with exactly the given id.
pub open spec fn first_with_id(all: Seq<BookmarkView>, id: Seq<char>, from: int) -> Option<int>
    decreases all.len() - from,
{
    if from < 0 || from >= all.len() {
        None
    } else if all[from].id == id {
        Some(from)
    } else {
        first_with_id(all, id, from + 1)
    }
}

/// The bookmarks whose id starts with the given text, in their order.
pub open spec fn with_prefix(all: Seq<BookmarkView>, prefix: Seq<char>) -> Seq<BookmarkView>
    decreases all.len(),
{
    if all.len() == 0 {
        Seq::empty()
    } else if prefix.is_prefix_of(all.last().id) {
        with_prefix(all.drop_last(), prefix).push(all.last())
    } else {
        with_prefix(all.drop_last(), prefix)
    }
}

/// The first eight characters of a text, or all of it where it is shorter.
pub open spec fn short_id(id: Seq<char>) -> Seq<char> {
    id.subrange(0, if id.len() >= 8 { 8 } else { id.len() as int })
}

/// The short ids of the bookmarks.
pub open spec fn short_ids(all: Seq<BookmarkView>) -> Seq<Seq<char>> {
    all.map_values(|b: BookmarkView| short_id(b.id))
}

/// The text of the error for an id that several bookmarks start with.
pub open spec fn ambiguous_text(id: Seq<char>, matching: Seq<BookmarkView>) -> Seq<char> {
    "Ambiguous ID '"@ + id + "' matches multiple bookmarks: "@ + joined_with(
        short_ids(matching),
        ", "@,
    ) + ". Use a longer ID prefix."@
}

/// What an id given on the command line resolves to.
pub enum Resolution {
    Exactly(BookmarkView),
    Missing,
    Ambiguous(Seq<char>),
}

/// What the id resolves to among the bookmarks: the first bookmark with
/// exactly that id; else, for an id of at most eight bytes, the one
/// bookmark whose id starts with it, where there is exactly one.
pub open spec fn resolution(all: Seq<BookmarkView>, id: Seq<char>) -> Resolution {
    match first_with_id(all, id, 0) {
        Some(i) => Resolution::Exactly(all[i]),
        None => if vstd::utf8::encode_utf8(id).len() <= 8 {
            let matching: Seq<BookmarkView> = with_prefix(all, id);
            if matching.len() == 0 {
                Resolution::Missing
            } else if matching.len() == 1 {
                Resolution::Exactly(matching[0])
            } else {
                Resolution::Ambiguous(ambiguous_text(id, matching))
            }
        } else {
            Resolution::Missing
        },
    }
}

/// The text that confirms a deletion.
pub open spec fn deletion_text(b: BookmarkView) -> Seq<char> {
    "Deleted bookmark: "@ + b.title + "\n  URL: "@ + b.url + "\n  ID: "@ + b.id
}

impl DeleteCommand {
    pub fn new(args: DeleteArgs) -> (r: DeleteCommand)
        ensures
            r.id() == args.id@,
    {
        DeleteCommand { args }
    }

    /// The id that the command was given.
    pub closed spec fn id(&self) -> Seq<char> {
        self.args.id@
    }

    /// The bookmark that the given id stands for among `all`.
    ///
    /// An id that no bookmark has or starts with is `NotFound`; one that
    /// several bookmarks start with is `InvalidId`, naming them.
    pub fn find_bookmark_by_id(&self, all: &Vec<Bookmark>) -> (r: BookmarkResult<Bookmark>)
        ensures
            match resolution(bookmark_views(all@), self.id()) {
                Resolution::Exactly(v) => r matches Ok(b) && b@ == v,
                Resolution::Missing => r matches Err(BookmarkError::NotFound(m)) && m@ == self.id(),
                Resolution::Ambiguous(text) => r matches Err(BookmarkError::InvalidId(m)) && m@
                    == text,
            },
    {
        let ghost views = bookmark_views(all@);
        let id = self.args.id.as_str();
        let mut i: usize = 0;
        while i < all.len()
            invariant
                i <= all.len(),
                views == bookmark_views(all@),
                id@ == self.id(),
                first_with_id(views, id@, 0) == first_with_id(views, id@, i as int),
            decreases all.len() - i,
        {
            assert(views[i as int] == all[i as int]@);
            if same_text(all[i].id.as_str(), id) {
                return Ok(all[i].clone());
            }
            i = i + 1;
        }
        assert(first_with_id(views, id@, all.len() as int) is None);
        let bytes = id.as_bytes();
        if bytes.len() > 8 {
            return Err(BookmarkError::NotFound(self.args.id.clone()));
        }
        let mut matching: Vec<usize> = Vec::new();
        let mut shorts: Vec<String> = Vec::new();
        let mut k: usize = 0;
        assert(views.subrange(0, 0) =~= Seq::<BookmarkView>::empty());
        assert(texts(shorts@) =~= short_ids(with_prefix(views.subrange(0, 0), id@)));
        while k < all.len()
            invariant
                k <= all.len(),
                views == bookmark_views(all@),
                id@ == self.id(),
                first_with_id(views, id@, 0) is None,
                vstd::utf8::encode_utf8(id@).len() <= 8,
                shorts.len() == matching.len(),
                matching.len() == with_prefix(views.subrange(0, k as int), id@).len(),
                forall|j: int|
                    0 <= j < matching.len() ==> (#[trigger] matching[j]) < all.len()
                        && views[matching[j] as int] == with_prefix(
                        views.subrange(0, k as int),
                        id@,
                    )[j],
                texts(shorts@) == short_ids(with_prefix(views.subrange(0, k as int), id@)),
            decreases all.len() - k,
        {
            assert(views.subrange(0, k + 1).drop_last() =~= views.subrange(0, k as int));
            assert(views.subrange(0, k + 1).last() == all[k as int]@);
            let ghost before = shorts@;
            let ghost found = with_prefix(views.subrange(0, k as int), id@);
            if starts_with_text(all[k].id.as_str(), id) {
                matching.push(k);
                shorts.push(prefix_of(all[k].id.as_str(), 8));
                assert(texts(shorts@) =~= texts(before).push(short_id(all[k as int]@.id)));
                assert(short_ids(found.push(all[k as int]@)) =~= short_ids(found).push(
                    short_id(all[k as int]@.id),
                ));
            }
            k = k + 1;
        }
        assert(views.subrange(0, all.len() as int) =~= views);
        if matching.len() == 0 {
            Err(BookmarkError::NotFound(self.args.id.clone()))
        } else if matching.len() == 1 {
            Ok(all[matching[0]].clone())
        } else {
            let listed = join_texts(&shorts, ", ");
            let a = joined("Ambiguous ID '", id);
            let b = joined(a.as_str(), "' matches multiple bookmarks: ");
            let c = joined(b.as_str(), listed.as_str());
            Err(BookmarkError::InvalidId(joined(c.as_str(), ". Use a longer ID prefix.")))
        }
    }

    /// The text that confirms the deletion of the bookmark.
    pub fn format_deletion_confirmation(&self, bookmark: &Bookmark) -> (r: String)
        ensures
            r@ == deletion_text(bookmark@),
    {
        let a = joined("Deleted bookmark: ", bookmark.title.as_str());
        let b = joined(a.as_str(), "\n  URL: ");
        let c = joined(b.as_str(), bookmark.url.as_str());
        let d = joined(c.as_str(), "\n  ID: ");
        joined(d.as_str(), bookmark.id.as_str())
    }
}

/// The `list` command.
#[derive(Debug)]
pub struct ListCommand;

impl ListCommand {
    pub fn new() -> (r: ListCommand) {
        ListCommand
    }
}

/// The `search` command.
#[derive(Debug)]
pub struct SearchCommand {
    args: SearchArgs,
}

/// A priority range as text, read: the range, or the message of the error.
pub enum RangeReading {
    Range(u8, u8),
    Bad(Seq<char>),
}

/// A rating lies between 1 and 5.
pub open spec fn is_rating(n: u8) -> bool {
    1 <= n && n <= 5
}

/// What a priority range as text reads as.
///
/// With a dash, the text before the first dash and the text after it must
/// each be a number, both between 1 and 5, the first no greater than the
/// second. Without a dash the text must be one number between 1 and 5,
/// which is then both ends of the range.
pub open spec fn range_reading(s: Seq<char>) -> RangeReading {
    match first_index(s, '-') {
        Some(dash) => {
            let low: Seq<char> = s.subrange(0, dash);
            let high: Seq<char> = s.subrange(dash + 1, s.len() as int);
            match small_number(low) {
                None => RangeReading::Bad("Invalid priority minimum: "@ + low),
                Some(min) => match small_number(high) {
                    None => RangeReading::Bad("Invalid priority maximum: "@ + high),
                    Some(max) => if is_rating(min) && is_rating(max) && min <= max {
                        RangeReading::Range(min, max)
                    } else {
                        RangeReading::Bad(
                            "Priority range must be 1-5 with min <= max, got "@ + decimal_of(min)
                                + "-"@ + decimal_of(max),
                        )
                    },
                },
            }
        },
        None => match small_number(s) {
            None => RangeReading::Bad("Invalid priority: "@ + s),
            Some(p) => if is_rating(p) {
                RangeReading::Range(p, p)
            } else {
                RangeReading::Bad("Priority must be between 1 and 5, got "@ + decimal_of(p))
            },
        },
    }
}

/// The words for the dates a search was bounded by.
pub open spec fn date_range_text(since: Option<Seq<char>>, until: Option<Seq<char>>) -> Option<
    Seq<char>,
> {
    match (since, until) {
        (Some(s), Some(u)) => Some(s + " to "@ + u),
        (Some(s), None) => Some("since "@ + s),
        (None, Some(u)) => Some("until "@ + u),
        (None, None) => None,
    }
}

/// The name of a field to order by.
pub open spec fn sort_by_name(by: SortBy) -> Seq<char> {
    match by {
        SortBy::BookmarkedDate => "BookmarkedDate"@,
        SortBy::PublishDate => "PublishDate"@,
        SortBy::Title => "Title"@,
        SortBy::Priority => "Priority"@,
    }
}

/// The name of a direction.
pub open spec fn direction_name(dir: SortDirection) -> Seq<char> {
    match dir {
        SortDirection::Ascending => "Ascending"@,
        SortDirection::Descending => "Descending"@,
    }
}

/// The words for the order a search asked for.
pub open spec fn sort_info_text(by: Option<SortBy>, dir: SortDirection) -> Option<Seq<char>> {
    match by {
        Some(b) => Some(sort_by_name(b) + " "@ + direction_name(dir)),
        None => None,
    }
}

/// The text of the error for a date that does not read.
pub open spec fn bad_date_text(s: Seq<char>) -> Seq<char> {
    "Invalid date format '"@ + s + "'. Use MM-DD-YYYY format (e.g., 01-15-2023)"@
}

/// An optional date as text, read: the date, nothing, or an error.
pub open spec fn optional_date(s: Option<Seq<char>>) -> Result<Option<Timestamp>, Seq<char>> {
    match s {
        None => Ok(None),
        Some(t) => match calendar_date_value(t) {
            Some(d) => Ok(Some(d)),
            None => Err(bad_date_text(t)),
        },
    }
}

/// An optional priority range as text, read: the range, nothing, or the
/// message of the error.
pub open spec fn optional_range(s: Option<Seq<char>>) -> Result<Option<(u8, u8)>, Seq<char>> {
    match s {
        None => Ok(None),
        Some(t) => match range_reading(t) {
            RangeReading::Range(min, max) => Ok(Some((min, max))),
            RangeReading::Bad(text) => Err(text),
        },
    }
}

/// The filters that the arguments of a search stand for, or the message of
/// the first argument that does not read, in the order priority, since,
/// until, published since, published until.
pub open spec fn filters_for(args: SearchArgs) -> Result<FiltersView, Seq<char>> {
    match optional_range(opt_text(args.priority)) {
        Err(m) => Err(m),
        Ok(priority_range) => match optional_date(opt_text(args.since)) {
            Err(m) => Err(m),
            Ok(bookmarked_since) => match optional_date(opt_text(args.until)) {
                Err(m) => Err(m),
                Ok(bookmarked_until) => match optional_date(opt_text(args.published_since)) {
                    Err(m) => Err(m),
                    Ok(published_since) => match optional_date(opt_text(args.published_until)) {
                        Err(m) => Err(m),
                        Ok(published_until) => Ok(
                            FiltersView {
                                text_query: opt_text(args.query),
                                tags: match args.tags {
                                    Some(t) => Some(texts(t@)),
                                    None => None,
                                },
                                reading_status: args.status,
                                priority_range: priority_range,
                                bookmarked_since: bookmarked_since,
                                bookmarked_until: bookmarked_until,
                                published_since: published_since,
                                published_until: published_until,
                                sort_by: args.sort_by,
                                sort_order: Some(args.sort_order),
                            },
                        ),
                    },
                },
            },
        },
    }
}

impl SearchCommand {
    pub fn new(args: SearchArgs) -> (r: SearchCommand)
        ensures
            r.args() == args,
    {
        SearchCommand { args }
    }

    /// The arguments that the command was given.
    pub closed spec fn args(&self) -> SearchArgs {
        self.args
    }

    /// The priority range that the text stands for.
    pub fn parse_priority_range(&self, priority_str: &str) -> (r: BookmarkResult<(u8, u8)>)
        ensures
            match range_reading(priority_str@) {
                RangeReading::Range(min, max) => r == Ok::<(u8, u8), BookmarkError>((min, max)),
                RangeReading::Bad(text) => r matches Err(BookmarkError::InvalidId(m)) && m@ == text,
            },
    {
        match find_char(priority_str, '-') {
            Some(dash) => {
                proof {
                    lemma_first_index_from(priority_str@, '-', 0);
                }
                let n = priority_str.unicode_len();
                let low = priority_str.substring_char(0, dash);
                let high = priority_str.substring_char(dash + 1, n);
                let min = match parse_small_number(low) {
                    Some(v) => v,
                    None => {
                        return Err(
                            BookmarkError::InvalidId(joined("Invalid priority minimum: ", low)),
                        );
                    },
                };
                let max = match parse_small_number(high) {
                    Some(v) => v,
                    None => {
                        return Err(
                            BookmarkError::InvalidId(joined("Invalid priority maximum: ", high)),
                        );
                    },
                };
                if min < 1 || min > 5 || max < 1 || max > 5 || min > max {
                    let shown_min = small_number_text(min);
                    let shown_max = small_number_text(max);
                    let a = joined(
                        "Priority range must be 1-5 with min <= max, got ",
                        shown_min.as_str(),
                    );
                    let b = joined(a.as_str(), "-");
                    return Err(BookmarkError::InvalidId(joined(b.as_str(), shown_max.as_str())));
                }
                Ok((min, max))
            },
            None => {
                let p = match parse_small_number(priority_str) {
                    Some(v) => v,
                    None => {
                        return Err(
                            BookmarkError::InvalidId(joined("Invalid priority: ", priority_str)),
                        );
                    },
                };
                if p < 1 || p > 5 {
                    let shown = small_number_text(p);
                    return Err(
                        BookmarkError::InvalidId(
                            joined("Priority must be between 1 and 5, got ", shown.as_str()),
                        ),
                    );
                }
                Ok((p, p))
            },
        }
    }

    /// Midnight UTC of the day that the `MM-DD-YYYY` text stands for.
    pub fn parse_date(&self, date_str: &str) -> (r: BookmarkResult<Timestamp>)
        ensures
            match calendar_date_value(date_str@) {
                Some(d) => r == Ok::<Timestamp, BookmarkError>(d),
                None => r matches Err(BookmarkError::InvalidId(m)) && m@ == bad_date_text(
                    date_str@,
                ),
            },
    {
        match Timestamp::parse_calendar_date(date_str) {
            Some(d) => Ok(d),
            None => {
                let a = joined("Invalid date format '", date_str);
                Err(
                    BookmarkError::InvalidId(
                        joined(a.as_str(), "'. Use MM-DD-YYYY format (e.g., 01-15-2023)"),
                    ),
                )
            },
        }
    }

    fn parse_optional_date(&self, date: &Option<String>) -> (r: BookmarkResult<Option<Timestamp>>)
        ensures
            match optional_date(opt_text(*date)) {
                Ok(d) => r == Ok::<Option<Timestamp>, BookmarkError>(d),
                Err(text) => r matches Err(BookmarkError::InvalidId(m)) && m@ == text,
            },
    {
        match date {
            Some(s) => match self.parse_date(s.as_str()) {
                Ok(d) => Ok(Some(d)),
                Err(e) => Err(e),
            },
            None => Ok(None),
        }
    }

    fn parse_optional_range(&self, priority: &Option<String>) -> (r: BookmarkResult<Option<(u8, u8)>>)
        ensures
            match optional_range(opt_text(*priority)) {
                Ok(range) => r == Ok::<Option<(u8, u8)>, BookmarkError>(range),
                Err(text) => r matches Err(BookmarkError::InvalidId(m)) && m@ == text,
            },
    {
        match priority {
            Some(p) => match self.parse_priority_range(p.as_str()) {
                Ok(range) => Ok(Some(range)),
                Err(e) => Err(e),
            },
            None => Ok(None),
        }
    }

    /// The filters that the arguments stand for. The first argument that
    /// does not read, in the order priority, since, until, published since,
    /// published until, is the error.
    pub fn build_filters(&self) -> (r: BookmarkResult<BookmarkFilters>)
        ensures
            match filters_for(self.args()) {
                Ok(f) => r matches Ok(built) && built@ == f,
                Err(text) => r matches Err(BookmarkError::InvalidId(m)) && m@ == text,
            },
    {
        let priority_range = self.parse_optional_range(&self.args.priority)?;
        let bookmarked_since = self.parse_optional_date(&self.args.since)?;
        let bookmarked_until = self.parse_optional_date(&self.args.until)?;
        let published_since = self.parse_optional_date(&self.args.published_since)?;
        let published_until = self.parse_optional_date(&self.args.published_until)?;
        Ok(
            BookmarkFilters {
                text_query: copy_opt_text(&self.args.query),
                tags: match &self.args.tags {
                    Some(t) => Some(copy_texts(t)),
                    None => None,
                },
                reading_status: self.args.status,
                priority_range,
                bookmarked_since,
                bookmarked_until,
                published_since,
                published_until,
                sort_by: self.args.sort_by,
                sort_order: Some(self.args.sort_order),
            },
        )
    }

    /// What the search asked for, in words.
    pub fn generate_query_summary(&self) -> (r: QuerySummary)
        ensures
            opt_text(r.text_query) == opt_text(self.args().query),
            match self.args().tags {
                Some(t) => r.tags_filter matches Some(f) && texts(f@) == texts(t@),
                None => r.tags_filter is None,
            },
            r.status_filter == self.args().status,
            opt_text(r.priority_filter) == opt_text(self.args().priority),
            opt_text(r.date_range) == date_range_text(
                opt_text(self.args().since),
                opt_text(self.args().until),
            ),
            opt_text(r.sort_info) == sort_info_text(self.args().sort_by, self.args().sort_order),
    {
        let date_range = match (&self.args.since, &self.args.until) {
            (Some(since), Some(until)) => {
                let a = joined(since.as_str(), " to ");
                Some(joined(a.as_str(), until.as_str()))
            },
            (Some(since), None) => Some(joined("since ", since.as_str())),
            (None, Some(until)) => Some(joined("until ", until.as_str())),
            (None, None) => None,
        };
        let sort_info = match self.args.sort_by {
            Some(by) => {
                let a = joined(name_of_sort_by(by), " ");
                Some(joined(a.as_str(), name_of_direction(self.args.sort_order)))
            },
            None => None,
        };
        QuerySummary {
            text_query: copy_opt_text(&self.args.query),
            tags_filter: match &self.args.tags {
                Some(t) => Some(copy_texts(t)),
                None => None,
            },
            status_filter: self.args.status,
            priority_filter: copy_opt_text(&self.args.priority),
            date_range,
            sort_info,
        }
    }
}

/// The name of a field to order by.
pub fn name_of_sort_by(by: SortBy) -> (r: &'static str)
    ensures
        r@ == sort_by_name(by),
{
    match by {
        SortBy::BookmarkedDate => "BookmarkedDate",
        SortBy::PublishDate => "PublishDate",
        SortBy::Title => "Title",
        SortBy::Priority => "Priority",
    }
}

/// The name of a direction.
pub fn name_of_direction(dir: SortDirection) -> (r: &'static str)
    ensures
        r@ == direction_name(dir),
{
    match dir {
        SortDirection::Ascending => "Ascending",
        SortDirection::Descending => "Descending",
    }
}

/// The store takes the bookmark that `add` makes of the arguments and of
/// what was fetched, whatever id and current time it gets.
pub open spec fn takes_made<R: BookmarkRepository>(
    store: R,
    args: AddArgs,
    extracted: Option<ExtractedMetadata>,
) -> bool {
    forall|b: BookmarkView| #[trigger] made_of(args, extracted, b) ==> store.accepts(b)
}

/// The store takes the bookmark that `add` makes of the arguments,
/// whatever the extractor answers for the page.
pub open spec fn takes_fetched<R: BookmarkRepository, E: MetadataExtractor>(
    store: R,
    extractor: E,
    args: AddArgs,
    timeout_secs: u64,
) -> bool {
    forall|extracted: Option<ExtractedMetadata>|
        (extracted matches Some(m) ==> extractor.may_answer(
            args.url@,
            timeout_secs,
            Ok::<ExtractedMetadata, ExtractorError>(m),
        )) ==> #[trigger] takes_made(store, args, extracted)
}

/// The arguments alone make a bookmark, whatever is fetched: they give a
/// title that is not blank and a URL that parses.
pub open spec fn addable_as_given(args: AddArgs) -> bool {
    args.title is Some && addable(args, None)
}

/// Stores the bookmark that `add` makes of its arguments and of what was
/// fetched from the page, and returns it. It succeeds where a bookmark can
/// be made and the store takes it.
pub fn add_bookmark<R: BookmarkRepository>(
    args: &AddArgs,
    repository: &mut R,
    extracted: Option<&ExtractedMetadata>,
) -> (r: BookmarkResult<Bookmark>)
    requires
        old(repository).usable(),
    ensures
        final(repository).usable(),
        !addable(*args, fetched_from(extracted)) ==> refused(*args, fetched_from(extracted), r)
            && *final(repository) == *old(repository),
        addable(*args, fetched_from(extracted)) && takes_made(
            *old(repository),
            *args,
            fetched_from(extracted),
        ) ==> r is Ok,
        r matches Ok(b) ==> made_of(*args, fetched_from(extracted), b@) && final(repository).holds(
            b@.id,
        ) && (in_common_era(b@) ==> final(repository).kept(b@.id) == Some(b@)),
{
    let bookmark = create_bookmark_with_metadata(args, extracted)?;
    repository.create(bookmark)
}

/// `info` is what is reported of the fetched metadata: title and author
/// as they are, and the publish date as its text, where it has one.
pub open spec fn reports(metadata: ExtractedMetadata, info: ExtractedMetadataInfo) -> bool {
    &&& opt_text(info.title) == opt_text(metadata.title)
    &&& opt_text(info.author) == opt_text(metadata.author)
    &&& match metadata.publish_date {
        Some(d) => match opt_text(info.publish_date) {
            Some(t) => d.writable() && t == d.written(),
            None => !d.writable(),
        },
        None => info.publish_date is None,
    }
}

/// What is reported of the fetched metadata.
pub fn metadata_info(metadata: &ExtractedMetadata) -> (r: ExtractedMetadataInfo)
    ensures
        reports(*metadata, r),
{
    ExtractedMetadataInfo {
        title: copy_opt_text(&metadata.title),
        author: copy_opt_text(&metadata.author),
        publish_date: match &metadata.publish_date {
            Some(d) => d.to_rfc3339(),
            None => None,
        },
    }
}

/// What `delete` comes to once the store has listed its bookmarks as
/// `listing`. Where the given id stands for no bookmark of the listing, or
/// for more than one, that is the answer and the store is not touched.
/// Where it stands for one, the store is asked to delete that one: what is
/// reported is that bookmark, which the store then holds no longer; and
/// where the store fails although it held no entry under the bookmark's
/// id, the failure says so.
pub open spec fn delete_outcome<R: BookmarkRepository>(
    before: R,
    listing: Seq<BookmarkView>,
    id: Seq<char>,
    after: R,
    r: BookmarkResult<DeleteResponse>,
) -> bool {
    match resolution(listing, id) {
        Resolution::Missing => (r matches Err(BookmarkError::NotFound(m)) && m@ == id) && after
            == before,
        Resolution::Ambiguous(text) => (r matches Err(BookmarkError::InvalidId(m)) && m@ == text)
            && after == before,
        Resolution::Exactly(b) => match r {
            Ok(response) => response.deleted_bookmark@ == b && response.affected_count == 1
                && response.operation_status@ == "success"@ && !after.holds(b.id),
            Err(e) => !before.holds(b.id) ==> (e matches BookmarkError::NotFound(m) && m@ == b.id),
        },
    }
}

/// Deletes the bookmark that the given id stands for and reports it.
///
/// The store lists its bookmarks, the id is resolved among them, and the
/// store deletes the bookmark found. A store that cannot list fails the
/// command before anything is resolved.
pub fn handle_delete_command<R: BookmarkRepository>(args: DeleteArgs, repository: &mut R) -> (r:
    BookmarkResult<DeleteResponse>)
    requires
        old(repository).usable(),
    ensures
        final(repository).usable(),
        old(repository).readable() || r is Ok ==> exists|listing: Seq<BookmarkView>| #[trigger]
            old(repository).lists(listing) && delete_outcome(
                *old(repository),
                listing,
                args.id@,
                *final(repository),
                r,
            ),
        r matches Ok(response) ==> forall|id: Seq<char>|
            id != response.deleted_bookmark@.id ==> final(repository).holds(id) == old(
                repository,
            ).holds(id),
        r is Err ==> forall|id: Seq<char>| final(repository).holds(id) == old(repository).holds(id),
{
    let command = DeleteCommand::new(args);
    let all = repository.find_all(None)?;
    assert(repository.lists(bookmark_views(all@)));
    let bookmark = command.find_bookmark_by_id(&all)?;
    repository.delete(bookmark.id.as_str())?;
    Ok(
        DeleteResponse {
            deleted_bookmark: bookmark,
            operation_status: String::from_str("success"),
            affected_count: 1,
        },
    )
}

/// Lists the bookmarks of the store. It fails only where the store fails
/// to list them.
pub fn handle_list_command<R: BookmarkRepository>(repository: &R) -> (r: BookmarkResult<ListResponse>)
    requires
        repository.usable(),
    ensures
        repository.readable() ==> r is Ok,
        r matches Ok(response) ==> response.total_count == response.bookmarks.len()
            && response.page is None && response.per_page is None && repository.lists(
            bookmark_views(response.bookmarks@),
        ),
{
    let bookmarks = repository.find_all(None)?;
    Ok(ListResponse { total_count: bookmarks.len(), bookmarks, page: None, per_page: None })
}

/// Searches the store as the arguments say.
pub fn handle_search_command<R: BookmarkRepository>(args: SearchArgs, repository: &R) -> (r:
    BookmarkResult<SearchResponse>)
    requires
        repository.usable(),
    ensures
        filters_for(args) matches Err(text) ==> (r matches Err(BookmarkError::InvalidId(m)) && m@
            == text),
        r matches Ok(response) ==> response.total_count == response.results.len() && (filters_for(
            args,
        ) matches Ok(f) && exists|listing: Seq<BookmarkView>| #[trigger]
            repository.lists(listing) && selects(listing, f, bookmark_views(response.results@))),
{
    let command = SearchCommand::new(args);
    let filters = command.build_filters()?;
    let results = repository.find_all(Some(filters))?;
    Ok(
        SearchResponse {
            total_count: results.len(),
            query_summary: command.generate_query_summary(),
            results,
        },
    )
}

/// How fetching the metadata for `add` ended.
#[derive(Debug)]
pub enum Extraction {
    /// The page was not to be fetched.
    Skipped,
    Fetched(ExtractedMetadata),
    Failed(BookmarkError),
}

/// What was fetched, where the extraction came to anything.
pub open spec fn fetched_by(extraction: Extraction) -> Option<ExtractedMetadata> {
    match extraction {
        Extraction::Fetched(m) => Some(m),
        _ => None,
    }
}

/// Whether the status says what the extraction came to.
pub open spec fn status_of(extraction: Extraction, status: ExtractionStatus) -> bool {
    match extraction {
        Extraction::Skipped => status is Skipped,
        Extraction::Fetched(_) => status is Success,
        Extraction::Failed(e) => status matches ExtractionStatus::Failed(m) && m@ == e.text(),
    }
}

/// Stores the bookmark that `add` makes of its arguments and of what was
/// fetched, and reports it together with how the fetching went. A failed
/// fetch is reported and otherwise passed over.
pub fn add_with_extraction<R: BookmarkRepository>(
    args: &AddArgs,
    repository: &mut R,
    extraction: Extraction,
    extraction_time_ms: u64,
) -> (r: BookmarkResult<AddResponse>)
    requires
        old(repository).usable(),
    ensures
        final(repository).usable(),
        !addable(*args, fetched_by(extraction)) ==> refused(*args, fetched_by(extraction), r)
            && *final(repository) == *old(repository),
        addable(*args, fetched_by(extraction)) && takes_made(
            *old(repository),
            *args,
            fetched_by(extraction),
        ) ==> r is Ok,
        r matches Ok(response) ==> made_of(*args, fetched_by(extraction), response.bookmark@)
            && final(repository).holds(response.bookmark@.id) && (in_common_era(response.bookmark@)
            ==> final(repository).kept(response.bookmark@.id) == Some(response.bookmark@)),
        r matches Ok(response) ==> response.metadata_extracted == (extraction is Fetched),
        r matches Ok(response) ==> response.extraction_time_ms == (if extraction is Skipped {
            None
        } else {
            Some(extraction_time_ms)
        }),
        r matches Ok(response) ==> status_of(extraction, response.extraction_status),
        r matches Ok(response) ==> match extraction {
            Extraction::Fetched(m) => (response.extracted_metadata matches Some(info) && reports(
                m,
                info,
            )),
            _ => response.extracted_metadata is None,
        },
{
    let (status, info, fetched, time) = match extraction {
        Extraction::Skipped => (ExtractionStatus::Skipped, None, None, None),
        Extraction::Fetched(m) => (
            ExtractionStatus::Success,
            Some(metadata_info(&m)),
            Some(m),
            Some(extraction_time_ms),
        ),
        Extraction::Failed(e) => (
            ExtractionStatus::Failed(e.to_string()),
            None,
            None,
            Some(extraction_time_ms),
        ),
    };
    let bookmark = match &fetched {
        Some(m) => add_bookmark(args, repository, Some(m))?,
        None => add_bookmark(args, repository, None)?,
    };
    Ok(
        AddResponse {
            bookmark,
            metadata_extracted: fetched.is_some(),
            extraction_time_ms: time,
            extracted_metadata: info,
            extraction_status: status,
        },
    )
}

/// `r` is what fetching with the extractor comes to: an answer that the
/// extractor may give for the URL within the time that the configuration
/// allows, a failure as a failure of the extraction.
pub open spec fn fetched_with<E: MetadataExtractor>(
    extractor: E,
    url: Seq<char>,
    config: Config,
    r: Result<ExtractedMetadata, BookmarkError>,
) -> bool {
    match r {
        Ok(m) => extractor.may_answer(
            url,
            config.metadata.timeout_secs,
            Ok::<ExtractedMetadata, ExtractorError>(m),
        ),
        Err(BookmarkError::MetadataExtraction(e)) => extractor.may_answer(
            url,
            config.metadata.timeout_secs,
            Err::<ExtractedMetadata, ExtractorError>(e),
        ),
        Err(_) => false,
    }
}

/// Fetches the metadata of a page, trying again at once after a failure
/// while the configuration allows attempts: the first success, or the
/// failure of the last attempt.
pub fn fetch_with_retries<E: MetadataExtractor>(extractor: &E, url: &str, config: &Config) -> (r:
    Result<ExtractedMetadata, BookmarkError>)
    ensures
        fetched_with(*extractor, url@, *config, r),
{
    let mut attempt: u32 = 0;
    loop
        invariant
            attempt <= config.metadata.retry_attempts,
        decreases config.metadata.retry_attempts - attempt,
    {
        let outcome = match extractor.extract_metadata(url, config.metadata.timeout_secs) {
            Ok(m) => AttemptOutcome::Fetched(m),
            Err(e) => AttemptOutcome::Failed(e),
        };
        match after_attempt(attempt, outcome, config) {
            AttemptStep::Done(m) => {
                return Ok(m);
            },
            AttemptStep::RetryAfter(_) => {
                attempt = attempt + 1;
            },
            AttemptStep::GiveUp(e) => {
                return Err(e);
            },
        }
    }
}

/// Adds a bookmark: fetches the metadata of the page where that is wanted,
/// and stores the bookmark made of the arguments and of what was fetched.
pub fn handle_add_command_with_extractor_and_config<R: BookmarkRepository, E: MetadataExtractor>(
    args: AddArgs,
    repository: &mut R,
    extractor: &E,
    config: &Config,
) -> (r: BookmarkResult<AddResponse>)
    requires
        old(repository).usable(),
    ensures
        final(repository).usable(),
        !should_extract(args, *config) && !addable(args, None) ==> refused(args, None, r)
            && *final(repository) == *old(repository),
        args.title is Some && !addable(args, None) ==> refused(args, None, r) && *final(repository)
            == *old(repository),
        !should_extract(args, *config) && addable(args, None) && takes_made(
            *old(repository),
            args,
            None,
        ) ==> r is Ok,
        addable_as_given(args) && takes_fetched(
            *old(repository),
            *extractor,
            args,
            config.metadata.timeout_secs,
        ) ==> r is Ok,
        !is_valid_url(args.url@) || (args.title matches Some(t) && trimmed(t@).len() == 0) ==> r is Err
            && *final(repository) == *old(repository),
        r matches Ok(response) ==> if should_extract(args, *config) {
            !(response.extraction_status is Skipped) && exists|extracted: Option<ExtractedMetadata>| #[trigger]
                made_of(args, extracted, response.bookmark@) && (extracted is Some
                    <==> response.metadata_extracted) && (extracted matches Some(m)
                    ==> extractor.may_answer(
                    args.url@,
                    config.metadata.timeout_secs,
                    Ok::<ExtractedMetadata, ExtractorError>(m),
                ))
        } else {
            response.extraction_status is Skipped && !response.metadata_extracted
                && response.extraction_time_ms is None && response.extracted_metadata is None
                && made_of(args, None, response.bookmark@)
        },
        r matches Ok(response) ==> final(repository).holds(response.bookmark@.id) && (
        in_common_era(response.bookmark@) ==> final(repository).kept(response.bookmark@.id) == Some(
            response.bookmark@,
        )),
{
    let extraction = if should_extract_metadata(&args, config) {
        match fetch_with_retries(extractor, args.url.as_str(), config) {
            Ok(m) => Extraction::Fetched(m),
            Err(e) => Extraction::Failed(e),
        }
    } else {
        Extraction::Skipped
    };
    add_with_extraction(&args, repository, extraction, 0)
}

/// Whether `add` fetches the page under the default configuration: it
/// does unless the arguments forbid it or give both title and author.
pub open spec fn fetches_by_default(args: AddArgs) -> bool {
    !args.no_fetch && !(args.title is Some && args.author is Some)
}

/// Adds a bookmark under the default configuration: the page is fetched
/// unless the arguments forbid it or give both title and author, with ten
/// seconds for each attempt, and the bookmark made of the arguments and of
/// what was fetched is stored.
pub fn handle_add_command_with_extractor<R: BookmarkRepository, E: MetadataExtractor>(
    args: AddArgs,
    repository: &mut R,
    extractor: &E,
) -> (r: BookmarkResult<AddResponse>)
    requires
        old(repository).usable(),
    ensures
        final(repository).usable(),
        !fetches_by_default(args) && !addable(args, None) ==> refused(args, None, r)
            && *final(repository) == *old(repository),
        args.title is Some && !addable(args, None) ==> refused(args, None, r) && *final(repository)
            == *old(repository),
        !fetches_by_default(args) && addable(args, None) && takes_made(
            *old(repository),
            args,
            None,
        ) ==> r is Ok,
        addable_as_given(args) && takes_fetched(*old(repository), *extractor, args, 10) ==> r is Ok,
        !is_valid_url(args.url@) || (args.title matches Some(t) && trimmed(t@).len() == 0) ==> r is Err
            && *final(repository) == *old(repository),
        r matches Ok(response) ==> if fetches_by_default(args) {
            !(response.extraction_status is Skipped) && exists|extracted: Option<ExtractedMetadata>| #[trigger]
                made_of(args, extracted, response.bookmark@) && (extracted is Some
                    <==> response.metadata_extracted) && (extracted matches Some(m)
                    ==> extractor.may_answer(
                    args.url@,
                    10,
                    Ok::<ExtractedMetadata, ExtractorError>(m),
                ))
        } else {
            response.extraction_status is Skipped && !response.metadata_extracted
                && response.extraction_time_ms is None && response.extracted_metadata is None
                && made_of(args, None, response.bookmark@)
        },
        r matches Ok(response) ==> final(repository).holds(response.bookmark@.id) && (
        in_common_era(response.bookmark@) ==> final(repository).kept(response.bookmark@.id) == Some(
            response.bookmark@,
        )),
{
    let config = Config::default();
    handle_add_command_with_extractor_and_config(args, repository, extractor, &config)
}

} // verus!
