//! The configuration of the application and the places it keeps its files.
//!
//! Paths are handled as text. Where the home directory is, which paths are
//! absolute and how two paths join is for the machine to say: those
//! answers come from `dirs` and `std::path`, nothing is assumed of them, and
//! the functions that decide on them take them as arguments.

use crate::errors::{ConfigError, ConfigResult};
use crate::text::joined;
use vstd::prelude::*;
use vstd::string::*;

verus! {

/// Where the bookmark data is kept.
#[derive(Debug, PartialEq)]
pub struct StorageConfig {
    /// The data directory; a leading `~` stands for the home directory.
    pub data_dir: String,
}

/// How the store is synchronised.
#[derive(Debug, PartialEq)]
pub struct SyncConfig {
    pub enabled: bool,
    pub server_url: String,
    pub timeout_secs: u64,
    pub auto_sync: bool,
    pub show_progress: bool,
}

/// How the metadata of a page is fetched.
#[derive(Debug, PartialEq)]
pub struct MetadataConfig {
    pub enabled: bool,
    pub timeout_secs: u64,
    pub retry_attempts: u32,
    pub retry_delay_ms: u64,
}

/// The configuration of the application.
#[derive(Debug, PartialEq)]
pub struct Config {
    pub storage: StorageConfig,
    pub sync: SyncConfig,
    pub metadata: MetadataConfig,
}

impl Clone for StorageConfig {
    fn clone(&self) -> (r: StorageConfig)
        ensures
            r.data_dir@ == self.data_dir@,
    {
        StorageConfig { data_dir: self.data_dir.clone() }
    }
}

impl Clone for SyncConfig {
    fn clone(&self) -> (r: SyncConfig)
        ensures
            r.enabled == self.enabled,
            r.server_url@ == self.server_url@,
            r.timeout_secs == self.timeout_secs,
            r.auto_sync == self.auto_sync,
            r.show_progress == self.show_progress,
    {
        SyncConfig {
            enabled: self.enabled,
            server_url: self.server_url.clone(),
            timeout_secs: self.timeout_secs,
            auto_sync: self.auto_sync,
            show_progress: self.show_progress,
        }
    }
}

impl Clone for MetadataConfig {
    fn clone(&self) -> (r: MetadataConfig)
        ensures
            r == *self,
    {
        MetadataConfig {
            enabled: self.enabled,
            timeout_secs: self.timeout_secs,
            retry_attempts: self.retry_attempts,
            retry_delay_ms: self.retry_delay_ms,
        }
    }
}

impl Clone for Config {
    fn clone(&self) -> (r: Config) {
        Config {
            storage: self.storage.clone(),
            sync: self.sync.clone(),
            metadata: self.metadata.clone(),
        }
    }
}

/// The default configuration file, with comments.
pub const DEFAULT_TOML: &'static str = "# Automark Configuration File\n# This file contains configuration settings for the automark bookmark manager.\n\n[storage]\n# Directory where bookmark data is stored\n# Use ~ for home directory, which will be expanded automatically\ndata_dir = \"~/.local/share/automark\"\n\n[sync]\n# Enable or disable sync functionality\nenabled = true\n\n# Default sync server URL\n# The Automerge community server is for development/prototyping only\nserver_url = \"wss://sync.automerge.org\"\n\n# Connection timeout in seconds\ntimeout_secs = 30\n\n# Automatically sync after operations (add, delete, etc.)\n# Set to true for seamless collaboration\nauto_sync = false\n\n# Show sync progress messages in human output mode\nshow_progress = true\n";

impl Default for StorageConfig {
    fn default() -> (r: StorageConfig)
        ensures
            r.data_dir@ == "~/.local/share/automark"@,
    {
        StorageConfig { data_dir: String::from_str("~/.local/share/automark") }
    }
}

impl Default for SyncConfig {
    fn default() -> (r: SyncConfig)
        ensures
            r.enabled,
            r.server_url@ == "wss://sync.automerge.org"@,
            r.timeout_secs == 30,
            !r.auto_sync,
            r.show_progress,
    {
        SyncConfig {
            enabled: true,
            server_url: String::from_str("wss://sync.automerge.org"),
            timeout_secs: 30,
            auto_sync: false,
            show_progress: true,
        }
    }
}

impl Default for MetadataConfig {
    fn default() -> (r: MetadataConfig)
        ensures
            r == (MetadataConfig {
                enabled: true,
                timeout_secs: 10,
                retry_attempts: 2,
                retry_delay_ms: 1000,
            }),
    {
        MetadataConfig { enabled: true, timeout_secs: 10, retry_attempts: 2, retry_delay_ms: 1000 }
    }
}

/// The configuration is the default one.
pub open spec fn is_default_config(c: Config) -> bool {
    &&& c.metadata == (MetadataConfig {
        enabled: true,
        timeout_secs: 10,
        retry_attempts: 2,
        retry_delay_ms: 1000,
    })
    &&& c.storage.data_dir@ == "~/.local/share/automark"@
    &&& c.sync.enabled
    &&& c.sync.server_url@ == "wss://sync.automerge.org"@
    &&& c.sync.timeout_secs == 30
    &&& !c.sync.auto_sync
    &&& c.sync.show_progress
}

impl Default for Config {
    fn default() -> (r: Config)
        ensures
            is_default_config(r),
    {
        Config {
            storage: StorageConfig::default(),
            sync: SyncConfig::default(),
            metadata: MetadataConfig::default(),
        }
    }
}

/// The shapes of a path with regard to the home directory.
pub enum PathForm {
    /// `~`: the home directory itself.
    Home,
    /// `~/rest`: a path under the home directory.
    UnderHome(String),
    /// `~` followed by anything else, which is not supported.
    OtherUser,
    /// A path that does not start with `~`.
    Plain,
}

/// The shape of a path, as a mathematical value.
pub enum PathFormView {
    Home,
    UnderHome(Seq<char>),
    OtherUser,
    Plain,
}

impl View for PathForm {
    type V = PathFormView;

    open spec fn view(&self) -> PathFormView {
        match self {
            PathForm::Home => PathFormView::Home,
            PathForm::UnderHome(rest) => PathFormView::UnderHome(rest@),
            PathForm::OtherUser => PathFormView::OtherUser,
            PathForm::Plain => PathFormView::Plain,
        }
    }
}

/// The shape of the path `p`.
pub open spec fn path_form(p: Seq<char>) -> PathFormView {
    if p.len() == 0 || p[0] != '~' {
        PathFormView::Plain
    } else if p.len() == 1 {
        PathFormView::Home
    } else if p[1] == '/' {
        PathFormView::UnderHome(p.subrange(2, p.len() as int))
    } else {
        PathFormView::OtherUser
    }
}

/// The shape of a path with regard to the home directory.
pub fn classify_path(path: &str) -> (r: PathForm)
    ensures
        r@ == path_form(path@),
{
    let n = path.unicode_len();
    if n == 0 || path.get_char(0) != '~' {
        PathForm::Plain
    } else if n == 1 {
        PathForm::Home
    } else if path.get_char(1) == '/' {
        PathForm::UnderHome(String::from_str(path.substring_char(2, n)))
    } else {
        PathForm::OtherUser
    }
}

/// The text of the error for a path of an unsupported shape.
pub open spec fn unsupported_path_text(path: Seq<char>) -> Seq<char> {
    "Unsupported path format: "@ + path + ". Only ~ and ~/ are supported."@
}

/// `dirs::home_dir`, as text. Nothing is promised: the environment decides.
#[verifier::external_body]
fn home_dir_text() -> Option<String> {
    dirs::home_dir().map(|p| p.to_string_lossy().into_owned())
}

/// `dirs::config_dir`, as text. Nothing is promised: the environment decides.
#[verifier::external_body]
fn config_dir_text() -> Option<String> {
    dirs::config_dir().map(|p| p.to_string_lossy().into_owned())
}

/// `Path::join`, on text. Nothing is promised: the platform's path rules decide.
#[verifier::external_body]
fn join_path(base: &str, rest: &str) -> String {
    std::path::Path::new(base).join(rest).to_string_lossy().into_owned()
}

/// `Path::is_absolute`, on text. Nothing is promised: the platform's path
/// rules decide.
#[verifier::external_body]
fn is_absolute_path(path: &str) -> bool {
    std::path::Path::new(path).is_absolute()
}

/// The path with a leading `~` replaced by the given home directory.
///
/// A path that does not start with `~` is returned as it is. One that does
/// needs the home directory, and must be `~` alone or start with `~/`.
pub fn expand_path_in(path: &str, home: Option<String>) -> (r: ConfigResult<String>)
    ensures
        match path_form(path@) {
            PathFormView::Plain => r matches Ok(p) && p@ == path@,
            _ => match home {
                None => r matches Err(ConfigError::PathError(m)) && m@
                    == "Could not determine home directory"@,
                Some(h) => match path_form(path@) {
                    PathFormView::Home => r matches Ok(p) && p@ == h@,
                    PathFormView::UnderHome(_) => r is Ok,
                    _ => r matches Err(ConfigError::PathError(m)) && m@ == unsupported_path_text(
                        path@,
                    ),
                },
            },
        },
{
    let form = classify_path(path);
    match form {
        PathForm::Plain => Ok(String::from_str(path)),
        _ => {
            let home_dir = match home {
                Some(h) => h,
                None => {
                    return Err(
                        ConfigError::PathError(String::from_str("Could not determine home directory")),
                    );
                },
            };
            match form {
                PathForm::Home => Ok(home_dir),
                PathForm::UnderHome(rest) => Ok(join_path(home_dir.as_str(), rest.as_str())),
                _ => {
                    let head = joined("Unsupported path format: ", path);
                    Err(
                        ConfigError::PathError(
                            joined(head.as_str(), ". Only ~ and ~/ are supported."),
                        ),
                    )
                },
            }
        },
    }
}

/// The answer to a path that cannot be expanded: that there is no home
/// directory, or that the shape of the path is not supported.
pub open spec fn expansion_failed<T>(path: Seq<char>, r: ConfigResult<T>) -> bool {
    r matches Err(ConfigError::PathError(m)) && (m@ == "Could not determine home directory"@ || (
    path_form(path) is OtherUser && m@ == unsupported_path_text(path)))
}

/// The path with a leading `~` replaced by the home directory of the user.
/// A path without one is returned as it is; one that names another user
/// is refused; the others are refused only where no home directory is
/// known.
pub fn expand_path(path: &str) -> (r: ConfigResult<String>)
    ensures
        path_form(path@) is Plain ==> (r matches Ok(p) && p@ == path@),
        path_form(path@) is OtherUser ==> r is Err,
        r is Err ==> expansion_failed(path@, r),
{
    match classify_path(path) {
        PathForm::Plain => expand_path_in(path, None),
        _ => expand_path_in(path, home_dir_text()),
    }
}

/// The text of the error for a data directory that is not absolute.
pub open spec fn relative_path_text(path: Seq<char>) -> Seq<char> {
    "Data directory must be an absolute path: "@ + path
}

/// Accepts a data directory that is absolute and rejects one that is not.
pub fn check_absolute(path: &str, absolute: bool) -> (r: ConfigResult<()>)
    ensures
        absolute ==> r is Ok,
        !absolute ==> (r matches Err(ConfigError::ValidationError(m)) && m@ == relative_path_text(
            path@,
        )),
{
    if absolute {
        Ok(())
    } else {
        Err(ConfigError::ValidationError(joined("Data directory must be an absolute path: ", path)))
    }
}

impl Config {
    /// The default configuration.
    pub fn new() -> (r: Config)
        ensures
            is_default_config(r),
    {
        Config::default()
    }

    /// The data directory with a leading `~` expanded.
    pub fn data_dir_path(&self) -> (r: ConfigResult<String>)
        ensures
            path_form(self.storage.data_dir@) is Plain ==> (r matches Ok(p) && p@
                == self.storage.data_dir@),
            path_form(self.storage.data_dir@) is OtherUser ==> r is Err,
            r is Err ==> expansion_failed(self.storage.data_dir@, r),
    {
        expand_path(self.storage.data_dir.as_str())
    }

    /// Checks the configuration: the data directory, expanded, must be an
    /// absolute path.
    pub fn validate(&self) -> (r: ConfigResult<()>)
        ensures
            path_form(self.storage.data_dir@) is OtherUser ==> expansion_failed(
                self.storage.data_dir@,
                r,
            ),
            path_form(self.storage.data_dir@) is Plain ==> r is Ok || (r matches Err(
                ConfigError::ValidationError(m),
            ) && m@ == relative_path_text(self.storage.data_dir@)),
            r matches Err(e) ==> e is ValidationError || expansion_failed(self.storage.data_dir@, r),
    {
        let data_path = self.data_dir_path()?;
        let absolute = is_absolute_path(data_path.as_str());
        check_absolute(data_path.as_str(), absolute)
    }

    /// The default configuration file, with comments.
    pub fn default_toml_content() -> (r: String)
        ensures
            r@ == DEFAULT_TOML@,
    {
        String::from_str(DEFAULT_TOML)
    }
}

/// The places where the application keeps its files.
pub struct FileStorageManager;

impl FileStorageManager {
    /// The path of the configuration file: `automark/config.toml` under the
    /// user's configuration directory.
    pub fn get_config_file_path() -> (r: ConfigResult<String>)
        ensures
            r matches Err(e) ==> (e matches ConfigError::PathError(m) && m@
                == "Could not determine config directory"@),
    {
        let dir = match config_dir_text() {
            Some(d) => d,
            None => {
                return Err(
                    ConfigError::PathError(String::from_str("Could not determine config directory")),
                );
            },
        };
        let app_dir = join_path(dir.as_str(), "automark");
        Ok(join_path(app_dir.as_str(), "config.toml"))
    }

    /// The path of the bookmark data file: `bookmarks.automerge` in the data
    /// directory.
    pub fn get_bookmark_file_path(config: &Config) -> (r: ConfigResult<String>)
        ensures
            path_form(config.storage.data_dir@) is Plain ==> r is Ok,
            path_form(config.storage.data_dir@) is OtherUser ==> r is Err,
            r is Err ==> expansion_failed(config.storage.data_dir@, r),
    {
        let data_dir = config.data_dir_path()?;
        Ok(join_path(data_dir.as_str(), "bookmarks.automerge"))
    }
}

} // verus!
