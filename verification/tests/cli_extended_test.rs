//! Subcommand parsing, argument errors and flags of the command line, and the
//! development actions.

use nusa::cli::{Cli, Commands};
use nusa::dev::DevAction;

// ─── Subcommands ──────────────────────────────────────────────────────────

#[test]
fn cli_subcommand_deploy_parses() {
    let cli = Cli::try_parse_from(&["nusa", "deploy"]).expect("deploy should parse");
    assert!(cli.command.is_some());
    match cli.command.expect("command should exist") {
        Commands::Deploy { strategy, config } => {
            assert_eq!(strategy, "blue-green");
            assert!(config.is_none());
        }
        other => panic!("expected Deploy, got {:?}", std::mem::discriminant(&other)),
    }
}

#[test]
fn cli_subcommand_deploy_with_custom_strategy() {
    let cli =
        Cli::try_parse_from(&["nusa", "deploy", "--strategy", "canary"]).expect("should parse");
    match cli.command.expect("command should exist") {
        Commands::Deploy { strategy, config } => {
            assert_eq!(strategy, "canary");
            assert!(config.is_none());
        }
        other => panic!("expected Deploy, got {:?}", std::mem::discriminant(&other)),
    }
}

#[test]
fn cli_subcommand_deploy_with_custom_config() {
    let cli =
        Cli::try_parse_from(&["nusa", "deploy", "--config", "custom.toml"]).expect("should parse");
    match cli.command.expect("command should exist") {
        Commands::Deploy { strategy, config } => {
            assert_eq!(strategy, "blue-green");
            assert_eq!(config, Some("custom.toml".to_string()));
        }
        other => panic!("expected Deploy, got {:?}", std::mem::discriminant(&other)),
    }
}

#[test]
fn cli_subcommand_rollback_parses() {
    let cli = Cli::try_parse_from(&["nusa", "rollback"]).expect("rollback should parse");
    match cli.command.expect("command should exist") {
        Commands::Rollback => {}
        other => panic!("expected Rollback, got {:?}", std::mem::discriminant(&other)),
    }
}

#[test]
fn cli_subcommand_test_with_workers_and_reset() {
    let cli = Cli::try_parse_from(&["nusa", "test", "tests/", "--workers", "8", "--reset"])
        .expect("test should parse");
    match cli.command.expect("command should exist") {
        Commands::Test { path, workers, reset } => {
            assert_eq!(path, "tests/");
            assert_eq!(workers, 8);
            assert!(reset, "reset flag should be true");
        }
        other => panic!("expected Test, got {:?}", std::mem::discriminant(&other)),
    }
}

#[test]
fn cli_subcommand_test_with_defaults() {
    let cli = Cli::try_parse_from(&["nusa", "test"]).expect("test defaults should parse");
    match cli.command.expect("command should exist") {
        Commands::Test { path, workers, reset } => {
            assert_eq!(path, "tests/");
            assert_eq!(workers, 4);
            assert!(!reset, "reset should default to false");
        }
        other => panic!("expected Test, got {:?}", std::mem::discriminant(&other)),
    }
}

#[test]
fn cli_subcommand_dev_parses() {
    let cli = Cli::try_parse_from(&["nusa", "dev"]).expect("dev should parse");
    match cli.command.expect("command should exist") {
        Commands::Dev { watch, debounce, pretty } => {
            assert_eq!(watch, "app,config,routes,resources/views,.env");
            assert_eq!(debounce, 200);
            assert!(!pretty);
        }
        other => panic!("expected Dev, got {:?}", std::mem::discriminant(&other)),
    }
}

#[test]
fn cli_subcommand_dev_with_custom_debounce() {
    let cli = Cli::try_parse_from(&["nusa", "dev", "--debounce", "500"])
        .expect("dev with debounce should parse");
    match cli.command.expect("command should exist") {
        Commands::Dev { debounce, .. } => {
            assert_eq!(debounce, 500);
        }
        other => panic!("expected Dev, got {:?}", std::mem::discriminant(&other)),
    }
}

#[test]
fn cli_subcommand_dev_with_custom_watch_directories() {
    let cli = Cli::try_parse_from(&["nusa", "dev", "--watch", "src,lib"])
        .expect("dev with watch should parse");
    match cli.command.expect("command should exist") {
        Commands::Dev { watch, .. } => {
            assert_eq!(watch, "src,lib");
        }
        other => panic!("expected Dev, got {:?}", std::mem::discriminant(&other)),
    }
}

#[test]
fn cli_subcommand_dev_pretty_flag() {
    let cli =
        Cli::try_parse_from(&["nusa", "dev", "--pretty"]).expect("dev with pretty should parse");
    match cli.command.expect("command should exist") {
        Commands::Dev { pretty, .. } => {
            assert!(pretty);
        }
        other => panic!("expected Dev, got {:?}", std::mem::discriminant(&other)),
    }
}

// ─── Errors ───────────────────────────────────────────────────────────────

#[test]
fn cli_unknown_subcommand_rejected_with_error() {
    let result = Cli::try_parse_from(&["nusa", "unknown"]);
    assert!(result.is_err(), "unknown subcommand should be rejected");
}

#[test]
fn cli_unknown_flag_rejected_with_error() {
    let result = Cli::try_parse_from(&["nusa", "--unknown-flag"]);
    assert!(result.is_err(), "unknown flag should be rejected");
}

#[test]
fn cli_test_unknown_flag_rejected() {
    let result = Cli::try_parse_from(&["nusa", "test", "--bogus"]);
    assert!(result.is_err(), "unknown test flag should be rejected");
}

#[test]
fn cli_deploy_unknown_flag_rejected() {
    let result = Cli::try_parse_from(&["nusa", "deploy", "--unknown"]);
    assert!(result.is_err(), "unknown deploy flag should be rejected");
}

// ─── Flags ────────────────────────────────────────────────────────────────

#[test]
fn cli_custom_debounce_interval() {
    let cli = Cli::try_parse_from(&["nusa", "dev", "--debounce", "1000"]).expect("should parse");
    match cli.command.expect("command should exist") {
        Commands::Dev { debounce, .. } => {
            assert_eq!(debounce, 1000);
        }
        other => panic!("expected Dev, got {:?}", std::mem::discriminant(&other)),
    }
}

#[test]
fn cli_custom_watch_directories() {
    let cli = Cli::try_parse_from(&["nusa", "dev", "--watch", "custom/path,another/path"])
        .expect("should parse");
    match cli.command.expect("command should exist") {
        Commands::Dev { watch, .. } => {
            assert_eq!(watch, "custom/path,another/path");
        }
        other => panic!("expected Dev, got {:?}", std::mem::discriminant(&other)),
    }
}

#[test]
fn cli_default_config_path() {
    let cli = Cli::try_parse_from(&["nusa"]).expect("nusa without args should parse");
    assert_eq!(cli.config, "nusa.toml");
    assert!(cli.command.is_none());
}

#[test]
fn cli_custom_config_path() {
    let cli = Cli::try_parse_from(&["nusa", "-c", "custom.toml"]).expect("should parse");
    assert_eq!(cli.config, "custom.toml");
}

// ─── DevAction variants ───────────────────────────────────────────────────

#[test]
fn dev_action_reload_config_variant() {
    let action = DevAction::ReloadConfig;
    match action {
        DevAction::ReloadConfig => {}
        other => panic!("expected ReloadConfig, got {:?}", other),
    }
}

#[test]
fn dev_action_recycle_workers_variant() {
    let action = DevAction::RecycleWorkers;
    match action {
        DevAction::RecycleWorkers => {}
        other => panic!("expected RecycleWorkers, got {:?}", other),
    }
}

#[test]
fn dev_action_invalidate_opcache_variant() {
    let action = DevAction::InvalidateOpCache;
    match action {
        DevAction::InvalidateOpCache => {}
        other => panic!("expected InvalidateOpCache, got {:?}", other),
    }
}

#[test]
fn dev_action_clear_view_cache_variant() {
    let action = DevAction::ClearViewCache;
    match action {
        DevAction::ClearViewCache => {}
        other => panic!("expected ClearViewCache, got {:?}", other),
    }
}
