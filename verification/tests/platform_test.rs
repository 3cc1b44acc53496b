//! Paths, line endings and case on the platform the runtime is built for.

use std::path::{Path, PathBuf};

#[test]
fn platform_path_separator_forward_slash() {
    let path = Path::new("logs/app.log");
    assert!(path.is_relative());
    assert_eq!(path.to_str().unwrap(), "logs/app.log");
}

#[test]
fn platform_path_separator_backslash_unix() {
    let path = Path::new(r"logs\app.log");
    assert!(path.is_relative());
    assert_eq!(path.components().count(), 1);
}

#[test]
fn platform_lineending_unix_style() {
    let content = "key1=value1\nkey2=value2\n";
    let lines: Vec<&str> = content.lines().collect();
    assert_eq!(lines.len(), 2);
    assert_eq!(lines[0], "key1=value1");
    assert_eq!(lines[1], "key2=value2");
}

#[test]
fn platform_lineending_windows_style() {
    let content = "key1=value1\r\nkey2=value2\r\n";
    let lines: Vec<&str> = content.lines().collect();
    assert_eq!(lines.len(), 2);
    assert_eq!(lines[0], "key1=value1");
    assert_eq!(lines[1], "key2=value2");
}

#[test]
fn platform_lineending_mixed() {
    let content = "key1=value1\r\nkey2=value2\nkey3=value3\r\n";
    let lines: Vec<&str> = content.lines().collect();
    assert_eq!(lines.len(), 3);
}

#[test]
fn platform_case_sensitivity_path_comparison() {
    let path_a = Path::new("Config.toml");
    let path_b = Path::new("config.toml");
    assert_ne!(path_a, path_b);
}

#[test]
fn platform_case_sensitivity_extension() {
    let path_a = Path::new("file.TXT");
    let path_b = Path::new("file.txt");
    assert_ne!(path_a, path_b);
    assert_ne!(path_a.extension(), path_b.extension());
}

#[test]
fn platform_unix_absolute_path() {
    let path = Path::new("/etc/passwd");
    assert!(path.is_absolute());
    assert!(path.starts_with("/"));
}

#[test]
fn platform_relative_path_current_dir() {
    let path = Path::new("./config.toml");
    assert!(path.is_relative());
}

#[test]
fn platform_relative_path_parent_dir() {
    let path = Path::new("../config.toml");
    assert!(path.is_relative());
}

#[test]
fn platform_pathbuf_join_uses_native_separator() {
    let base = PathBuf::from("logs");
    let joined = base.join("app.log");
    assert!(joined.to_string_lossy().contains('/'));
}

#[test]
fn platform_config_file_extension_toml() {
    let path = Path::new("config.toml");
    assert_eq!(path.extension().unwrap(), "toml");
}

#[test]
fn platform_config_file_extension_toml_case_variants() {
    assert_eq!(Path::new("config.TOML").extension().unwrap(), "TOML");
    assert_eq!(Path::new("config.Toml").extension().unwrap(), "Toml");
}
