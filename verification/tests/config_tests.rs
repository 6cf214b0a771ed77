use automark::config::{expand_path, expand_path_in, Config, FileStorageManager, StorageConfig};
use automark::errors::ConfigError;
use std::path::{Path, PathBuf};

#[test]
fn test_config_default() {
    let config = Config::default();
    assert_eq!(config.storage.data_dir, "~/.local/share/automark");
}

#[test]
fn test_config_new() {
    let config = Config::new();
    assert_eq!(config, Config::default());
}

#[test]
fn test_storage_config_default() {
    let storage = StorageConfig::default();
    assert_eq!(storage.data_dir, "~/.local/share/automark");
}

#[test]
fn test_sync_config_default_values() {
    let config = Config::default();
    assert!(config.sync.enabled);
    assert_eq!(config.sync.server_url, "wss://sync.automerge.org");
    assert_eq!(config.sync.timeout_secs, 30);
    assert!(!config.sync.auto_sync);
    assert!(config.sync.show_progress);
}

#[test]
fn test_expand_path_home_relative() {
    let result = expand_path("~/.local/share/automark");
    assert!(result.is_ok());
    let path = PathBuf::from(result.unwrap());
    assert!(path.is_absolute());
    assert!(path.ends_with(".local/share/automark"));
}

#[test]
fn test_expand_path_absolute() {
    let result = expand_path("/absolute/path");
    assert!(result.is_ok());
    let path = PathBuf::from(result.unwrap());
    assert_eq!(path, PathBuf::from("/absolute/path"));
}

#[test]
fn test_expand_path_relative() {
    let result = expand_path("relative/path");
    assert!(result.is_ok());
    let path = PathBuf::from(result.unwrap());
    assert_eq!(path, PathBuf::from("relative/path"));
}

#[test]
fn test_expand_path_unsupported_format() {
    let result = expand_path("~username/path");
    assert!(result.is_err());
    match result {
        Err(ConfigError::PathError(msg)) => {
            assert!(msg.contains("Unsupported path format"));
            assert!(msg.contains("~username/path"));
        }
        _ => panic!("Expected PathError"),
    }
}

#[test]
fn test_expand_path_with_given_home() {
    assert_eq!(expand_path_in("~", Some("/home/ann".to_string())).unwrap(), "/home/ann");
    assert_eq!(
        PathBuf::from(expand_path_in("~/notes/x", Some("/home/ann".to_string())).unwrap()),
        Path::new("/home/ann").join("notes/x")
    );
    assert_eq!(expand_path_in("plain", None).unwrap(), "plain");
    assert_eq!(expand_path_in("", None).unwrap(), "");
    match expand_path_in("~", None) {
        Err(ConfigError::PathError(msg)) => assert_eq!(msg, "Could not determine home directory"),
        _ => panic!("Expected PathError"),
    }
    match expand_path_in("~bob", None) {
        Err(ConfigError::PathError(msg)) => assert_eq!(msg, "Could not determine home directory"),
        _ => panic!("Expected PathError"),
    }
    match expand_path_in("~bob", Some("/home/ann".to_string())) {
        Err(ConfigError::PathError(msg)) => {
            assert_eq!(msg, "Unsupported path format: ~bob. Only ~ and ~/ are supported.")
        }
        _ => panic!("Expected PathError"),
    }
}

#[test]
fn test_config_data_dir_path() {
    let config = Config::default();
    let result = config.data_dir_path();
    assert!(result.is_ok());
    let path = PathBuf::from(result.unwrap());
    assert!(path.is_absolute());
    assert!(path.ends_with(".local/share/automark"));
}

#[test]
fn test_config_validate_default() {
    let config = Config::default();
    let result = config.validate();
    assert!(result.is_ok());
}

#[test]
fn test_config_validate_relative_path() {
    let mut config = Config::default();
    config.storage.data_dir = "relative/path".to_string();

    let result = config.validate();
    assert!(result.is_err());
    match result {
        Err(ConfigError::ValidationError(msg)) => {
            assert!(msg.contains("must be an absolute path"));
            assert_eq!(msg, "Data directory must be an absolute path: relative/path");
        }
        _ => panic!("Expected ValidationError"),
    }
}

#[test]
fn test_config_validate_absolute_path() {
    let mut config = Config::default();
    config.storage.data_dir = "/absolute/path".to_string();

    let result = config.validate();
    assert!(result.is_ok());
}

#[test]
fn test_default_toml_content() {
    let content = Config::default_toml_content();

    assert!(content.contains("# Automark Configuration File"));
    assert!(content.contains("[storage]"));
    assert!(content.contains("data_dir = \"~/.local/share/automark\""));
    assert!(content.contains("# Directory where bookmark data is stored"));
    assert!(content.contains("server_url = \"wss://sync.automerge.org\""));
    assert!(content.ends_with("show_progress = true\n"));
}

#[test]
fn test_config_equality() {
    let config1 = Config::default();
    let config2 = Config::new();
    assert_eq!(config1, config2);

    let mut config3 = Config::default();
    config3.storage.data_dir = "/different/path".to_string();
    assert_ne!(config1, config3);
}

#[test]
fn test_storage_config_equality() {
    let storage1 = StorageConfig::default();
    let storage2 = StorageConfig { data_dir: "~/.local/share/automark".to_string() };
    assert_eq!(storage1, storage2);

    let storage3 = StorageConfig { data_dir: "/different/path".to_string() };
    assert_ne!(storage1, storage3);
}

#[test]
fn test_config_errors_display() {
    let file_error = ConfigError::FileError("test error".to_string());
    assert_eq!(file_error.to_string(), "Configuration file error: test error");

    let validation_error = ConfigError::ValidationError("invalid setting".to_string());
    assert_eq!(validation_error.to_string(), "Invalid configuration: invalid setting");

    let path_error = ConfigError::PathError("bad path".to_string());
    assert_eq!(path_error.to_string(), "Path error: bad path");
}

#[test]
fn test_get_config_file_path() {
    let result = FileStorageManager::get_config_file_path();
    assert!(result.is_ok());

    let path = PathBuf::from(result.unwrap());
    assert!(path.ends_with("automark/config.toml"));
    assert!(path.is_absolute());
}

#[test]
fn test_get_bookmark_file_path() {
    let config = Config::default();

    let result = FileStorageManager::get_bookmark_file_path(&config);
    assert!(result.is_ok());

    let path = PathBuf::from(result.unwrap());
    assert!(path.ends_with("bookmarks.automerge"));
    assert!(path.is_absolute());
}

#[test]
fn test_get_bookmark_file_path_custom_data_dir() {
    let mut config = Config::default();
    config.storage.data_dir = "/tmp/automark-data".to_string();

    let result = FileStorageManager::get_bookmark_file_path(&config);
    assert!(result.is_ok());

    let path = PathBuf::from(result.unwrap());
    assert_eq!(path, Path::new("/tmp/automark-data").join("bookmarks.automerge"));
}

#[test]
fn test_expand_path_home_only() {
    let result = expand_path("~");
    assert!(result.is_ok());
    let path = PathBuf::from(result.unwrap());
    assert!(path.is_absolute());
    assert_eq!(path, dirs::home_dir().unwrap());
}
