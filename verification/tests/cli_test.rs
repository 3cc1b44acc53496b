//! The config path flag of the command line.

use nusa::cli::{Cli, VERSION};

#[test]
fn cli_default_config() {
    let cli = Cli::try_parse_from(&["nusa"]).unwrap();
    assert_eq!(cli.config, "nusa.toml", "default config must be nusa.toml");
}

#[test]
fn cli_long_flag() {
    let cli = Cli::try_parse_from(&["nusa", "--config", "/etc/nusa/custom.toml"]).unwrap();
    assert_eq!(cli.config, "/etc/nusa/custom.toml");
}

#[test]
fn cli_short_flag() {
    let cli = Cli::try_parse_from(&["nusa", "-c", "custom.toml"]).unwrap();
    assert_eq!(cli.config, "custom.toml");
}

#[test]
fn cli_version_constant_matches_workspace() {
    assert!(!VERSION.is_empty(), "VERSION must be set");
    let major_minor_patch = VERSION.split('.').count() >= 2;
    assert!(major_minor_patch, "VERSION should look like SemVer, got {VERSION}");
}
