//! The error types of the library and the text each one shows.

use crate::text::joined;
use vstd::prelude::*;

verus! {

/// Why a page's metadata could not be fetched.
#[derive(Debug)]
pub enum ExtractorError {
    NetworkError(String),
    Timeout,
    InvalidUrl(String),
}

impl ExtractorError {
    /// The message of this error.
    pub open spec fn text(self) -> Seq<char> {
        match self {
            ExtractorError::NetworkError(s) => "Network request failed: "@ + s@,
            ExtractorError::Timeout => "Request timed out"@,
            ExtractorError::InvalidUrl(s) => "Invalid URL: "@ + s@,
        }
    }

    /// The message of this error.
    pub fn to_string(&self) -> (r: String)
        ensures
            r@ == self.text(),
    {
        match self {
            ExtractorError::NetworkError(s) => joined("Network request failed: ", s.as_str()),
            ExtractorError::Timeout => String::from_str("Request timed out"),
            ExtractorError::InvalidUrl(s) => joined("Invalid URL: ", s.as_str()),
        }
    }
}

/// Why an operation on bookmarks failed.
#[derive(Debug)]
pub enum BookmarkError {
    /// A malformed URL.
    InvalidUrl(String),
    NotFound(String),
    EmptyTitle,
    InvalidId(String),
    MetadataExtraction(ExtractorError),
    SyncError(String),
    TerminalError(String),
    /// A failure of the storage layer: a snapshot or a record that cannot
    /// be read or written.
    StorageError(String),
}

pub type BookmarkResult<T> = Result<T, BookmarkError>;

impl BookmarkError {
    /// The message of this error.
    pub open spec fn text(self) -> Seq<char> {
        match self {
            BookmarkError::InvalidUrl(s) => "Invalid URL format: "@ + s@,
            BookmarkError::NotFound(s) => "Bookmark not found: "@ + s@,
            BookmarkError::EmptyTitle => "Title cannot be empty"@,
            BookmarkError::InvalidId(s) => "Invalid or ambiguous ID: "@ + s@,
            BookmarkError::MetadataExtraction(e) => "Metadata extraction failed: "@ + e.text(),
            BookmarkError::SyncError(s) => "Sync failed: "@ + s@,
            BookmarkError::TerminalError(s) => "Terminal I/O error: "@ + s@,
            BookmarkError::StorageError(s) => "Storage error: "@ + s@,
        }
    }

    /// The machine-readable code of this error.
    pub open spec fn code(self) -> Seq<char> {
        match self {
            BookmarkError::InvalidUrl(_) => "INVALID_URL"@,
            BookmarkError::NotFound(_) => "NOT_FOUND"@,
            BookmarkError::EmptyTitle => "EMPTY_TITLE"@,
            BookmarkError::InvalidId(_) => "INVALID_ID"@,
            BookmarkError::MetadataExtraction(_) => "METADATA_EXTRACTION_ERROR"@,
            BookmarkError::SyncError(_) => "SYNC_ERROR"@,
            BookmarkError::TerminalError(_) => "TERMINAL_ERROR"@,
            BookmarkError::StorageError(_) => "STORAGE_ERROR"@,
        }
    }

    /// The process exit status that reports this error.
    pub open spec fn exit_status(self) -> u8 {
        match self {
            BookmarkError::InvalidUrl(_) => 2,
            BookmarkError::NotFound(_) => 3,
            BookmarkError::EmptyTitle => 2,
            BookmarkError::InvalidId(_) => 3,
            BookmarkError::MetadataExtraction(_) => 4,
            BookmarkError::SyncError(_) => 5,
            BookmarkError::TerminalError(_) => 6,
            BookmarkError::StorageError(_) => 7,
        }
    }

    /// The message of this error.
    pub fn to_string(&self) -> (r: String)
        ensures
            r@ == self.text(),
    {
        match self {
            BookmarkError::InvalidUrl(s) => joined("Invalid URL format: ", s.as_str()),
            BookmarkError::NotFound(s) => joined("Bookmark not found: ", s.as_str()),
            BookmarkError::EmptyTitle => String::from_str("Title cannot be empty"),
            BookmarkError::InvalidId(s) => joined("Invalid or ambiguous ID: ", s.as_str()),
            BookmarkError::MetadataExtraction(e) => {
                let inner = e.to_string();
                joined("Metadata extraction failed: ", inner.as_str())
            },
            BookmarkError::SyncError(s) => joined("Sync failed: ", s.as_str()),
            BookmarkError::TerminalError(s) => joined("Terminal I/O error: ", s.as_str()),
            BookmarkError::StorageError(s) => joined("Storage error: ", s.as_str()),
        }
    }

    /// The process exit status that reports this error.
    pub fn exit_code(&self) -> (r: u8)
        ensures
            r == self.exit_status(),
    {
        match self {
            BookmarkError::InvalidUrl(_) => 2,
            BookmarkError::NotFound(_) => 3,
            BookmarkError::EmptyTitle => 2,
            BookmarkError::InvalidId(_) => 3,
            BookmarkError::MetadataExtraction(_) => 4,
            BookmarkError::SyncError(_) => 5,
            BookmarkError::TerminalError(_) => 6,
            BookmarkError::StorageError(_) => 7,
        }
    }
}

impl From<ExtractorError> for BookmarkError {
    fn from(e: ExtractorError) -> (r: BookmarkError) {
        BookmarkError::MetadataExtraction(e)
    }
}

impl vstd::std_specs::convert::FromSpecImpl<ExtractorError> for BookmarkError {
    open spec fn obeys_from_spec() -> bool {
        true
    }

    open spec fn from_spec(e: ExtractorError) -> BookmarkError {
        BookmarkError::MetadataExtraction(e)
    }
}

/// The code and the message under which an error is reported in JSON.
pub fn error_to_json_fields(error: &BookmarkError) -> (r: (&'static str, String))
    ensures
        r.0@ == error.code(),
        r.1@ == error.text(),
{
    let message = error.to_string();
    match error {
        BookmarkError::InvalidUrl(_) => ("INVALID_URL", message),
        BookmarkError::EmptyTitle => ("EMPTY_TITLE", message),
        BookmarkError::NotFound(_) => ("NOT_FOUND", message),
        BookmarkError::InvalidId(_) => ("INVALID_ID", message),
        BookmarkError::MetadataExtraction(_) => ("METADATA_EXTRACTION_ERROR", message),
        BookmarkError::SyncError(_) => ("SYNC_ERROR", message),
        BookmarkError::TerminalError(_) => ("TERMINAL_ERROR", message),
        BookmarkError::StorageError(_) => ("STORAGE_ERROR", message),
    }
}

/// Why the configuration could not be used.
#[derive(Debug)]
pub enum ConfigError {
    FileError(String),
    ValidationError(String),
    PathError(String),
}

pub type ConfigResult<T> = Result<T, ConfigError>;

impl ConfigError {
    /// The message of this error.
    pub open spec fn text(self) -> Seq<char> {
        match self {
            ConfigError::FileError(s) => "Configuration file error: "@ + s@,
            ConfigError::ValidationError(s) => "Invalid configuration: "@ + s@,
            ConfigError::PathError(s) => "Path error: "@ + s@,
        }
    }

    /// The message of this error.
    pub fn to_string(&self) -> (r: String)
        ensures
            r@ == self.text(),
    {
        match self {
            ConfigError::FileError(s) => joined("Configuration file error: ", s.as_str()),
            ConfigError::ValidationError(s) => joined("Invalid configuration: ", s.as_str()),
            ConfigError::PathError(s) => joined("Path error: ", s.as_str()),
        }
    }
}

} // verus!
