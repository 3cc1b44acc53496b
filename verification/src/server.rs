//! Start-up decisions of the server: which configs a start uses, which
//! engine a config asks for, and what a development action does.
use vstd::prelude::*;
use crate::config::{EngineKind, RuntimeConfig};
use crate::deploy::DeployState;
use crate::dev::DevAction;
use crate::guards::ResourceGuard;
use crate::rate_limiter::TenantRateLimiter;
use crate::sql::{trim, trim_chars};
use crate::text::{chars_of, string_from_chars};

verus! {

/// How to start the HTTP server.
#[derive(Debug)]
pub enum StartMode {
    /// Normal or `nusa dev`.
    Default,
    /// `nusa deploy`: blue config active, green config on standby then switch.
    Deploy { blue_config: String, green_config: String },
    /// `nusa rollback`: start using the previous config of the deploy state.
    Rollback,
}

/// The config file the subcommands use.
pub fn cli_config_path() -> (s: String)
    ensures
        s@ == "nusa.toml"@,
{
    "nusa.toml".to_string()
}

/// `nusa deploy [--config C]`: blue is `nusa.toml`, green is `C` (or
/// `nusa.toml` again).
pub fn deploy_mode(config: Option<String>) -> (m: StartMode)
    ensures
        m matches StartMode::Deploy { blue_config, green_config }
            && blue_config@ == "nusa.toml"@
            && green_config@ == (match config { Some(c) => c@, None => "nusa.toml"@ }),
{
    let green = match config {
        Some(c) => c,
        None => cli_config_path(),
    };
    StartMode::Deploy { blue_config: cli_config_path(), green_config: green }
}

/// The configs a start uses: the one to load first, the standby to switch
/// to (deploy), and the config that was active before a rollback.
#[derive(Debug)]
pub struct StartPaths {
    pub initial: String,
    pub standby: Option<String>,
    pub rolled_back_from: Option<String>,
}

/// The optional text is present and equal to `t`.
pub open spec fn holds_text(o: Option<String>, t: Seq<char>) -> bool {
    match o {
        Some(x) => x@ == t,
        None => false,
    }
}

/// Decides the configs of a start. A rollback needs the deploy state
/// (`None` without it); the other modes ignore it.
pub fn start_paths(config_path: &str, mode: &StartMode, state: Option<DeployState>) -> (r: Option<StartPaths>)
    ensures
        mode matches StartMode::Default ==> (r matches Some(p) && p.initial@ == config_path@
            && p.standby is None && p.rolled_back_from is None),
        mode matches StartMode::Deploy { blue_config, green_config } ==> (r matches Some(p)
            && p.initial@ == blue_config@ && holds_text(p.standby, green_config@)
            && p.rolled_back_from is None),
        mode matches StartMode::Rollback ==> (match state {
            None => r is None,
            Some(s) => r matches Some(p) && p.initial@ == s.previous_config@ && p.standby is None
                && holds_text(p.rolled_back_from, s.active_config@),
        }),
{
    match mode {
        StartMode::Default => Some(StartPaths { initial: config_path.to_string(), standby: None, rolled_back_from: None }),
        StartMode::Deploy { blue_config, green_config } => Some(StartPaths {
            initial: blue_config.clone(),
            standby: Some(green_config.clone()),
            rolled_back_from: None,
        }),
        StartMode::Rollback => match state {
            None => None,
            Some(s) => Some(StartPaths { initial: s.previous_config, standby: None, rolled_back_from: Some(s.active_config) }),
        },
    }
}

/// The engine a config asks for.
#[derive(Debug)]
pub enum EnginePlan {
    /// Embedded PHP with the given worker count.
    Ffi { max_workers: usize },
    /// The development-only WASM stub.
    WasmStub,
    /// PHP child processes running a bootstrap script.
    Child { php_binary: String, bootstrap: String },
}

/// Why no engine can be built.
#[derive(Debug, Clone, Copy, PartialEq, Eq, Structural)]
pub enum EngineSetupError {
    /// `engine = "wasm"` without the explicit development opt-in.
    WasmStubNotAllowed,
}

/// Decides the engine: FFI with the worker count; WASM only with the
/// development opt-in; child processes with `php` and `index.php` standing
/// in for an empty binary or bootstrap.
pub fn plan_engine(
    engine: EngineKind,
    max_workers: usize,
    php_binary: &str,
    php_bootstrap: &str,
    allow_wasm_stub: bool,
) -> (r: Result<EnginePlan, EngineSetupError>)
    ensures
        engine == EngineKind::Ffi ==> (r matches Ok(EnginePlan::Ffi { max_workers: n }) && n == max_workers),
        engine == EngineKind::Wasm ==> (if allow_wasm_stub {
            r matches Ok(EnginePlan::WasmStub)
        } else {
            r matches Err(EngineSetupError::WasmStubNotAllowed)
        }),
        engine == EngineKind::Child ==> (r matches Ok(EnginePlan::Child { php_binary: b, bootstrap: s })
            && b@ == (if php_binary@.len() == 0 { "php"@ } else { php_binary@ })
            && s@ == (if php_bootstrap@.len() == 0 { "index.php"@ } else { php_bootstrap@ })),
{
    match engine {
        EngineKind::Ffi => Ok(EnginePlan::Ffi { max_workers }),
        EngineKind::Wasm => if allow_wasm_stub {
            Ok(EnginePlan::WasmStub)
        } else {
            Err(EngineSetupError::WasmStubNotAllowed)
        },
        EngineKind::Child => {
            let b = if php_binary.is_empty() { "php".to_string() } else { php_binary.to_string() };
            let s = if php_bootstrap.is_empty() { "index.php".to_string() } else { php_bootstrap.to_string() };
            Ok(EnginePlan::Child { php_binary: b, bootstrap: s })
        },
    }
}

/// What the server does for a development action.
#[derive(Debug, Clone, Copy, PartialEq, Eq, Structural)]
pub enum DevEffect {
    /// Reload the config file.
    ReloadConfig,
    /// Recycle the Octane worker pool.
    RecycleWorkers,
    /// Nothing yet: view caches are cleared on restart.
    Nothing,
}

/// The effect of a development action: `.env` reloads the config, config
/// and app code changes recycle the workers, view changes do nothing.
pub fn dev_effect(action: DevAction) -> (e: DevEffect)
    ensures
        e == (match action {
            DevAction::ReloadConfig => DevEffect::ReloadConfig,
            DevAction::RecycleWorkers => DevEffect::RecycleWorkers,
            DevAction::InvalidateOpCache => DevEffect::RecycleWorkers,
            DevAction::ClearViewCache => DevEffect::Nothing,
        }),
{
    match action {
        DevAction::ReloadConfig => DevEffect::ReloadConfig,
        DevAction::RecycleWorkers | DevAction::InvalidateOpCache => DevEffect::RecycleWorkers,
        DevAction::ClearViewCache => DevEffect::Nothing,
    }
}

/// Whether the Octane pool is in use (recycling is skipped otherwise).
pub fn octane_enabled(octane_workers: usize) -> (b: bool)
    ensures
        b == (octane_workers > 0),
{
    octane_workers > 0
}

/// The request limits a configuration sets: 10 MiB bodies, the configured
/// timeout, and as many concurrent requests as workers.
pub fn resource_guard_for(cfg: &RuntimeConfig) -> (g: ResourceGuard)
    ensures
        g.max_request_bytes == 10 * 1024 * 1024,
        g.request_timeout_ms == cfg.timeout_ms,
        g.max_concurrent == cfg.max_workers,
{
    ResourceGuard { max_request_bytes: 10 * 1024 * 1024, request_timeout_ms: cfg.timeout_ms, max_concurrent: cfg.max_workers }
}

/// The gateway's per-tenant limiter: 1000 requests per minute, bursts of 50.
pub fn gateway_rate_limiter() -> (r: TenantRateLimiter)
    ensures
        r.rpm() == 1000,
        r.burst() == 50,
        r.buckets() == Map::<Seq<char>, (int, int)>::empty(),
{
    TenantRateLimiter::new(1000, 50)
}

/// The optional services a configuration turns on.
#[derive(Debug)]
pub struct OptionalServices {
    /// TLS with ACME certificates, for this contact address.
    pub acme_email: Option<String>,
    /// The Redis broadcast bridge, at this URL.
    pub redis_url: Option<String>,
    /// The experimental QUIC listener, on this address.
    pub quic_bind: Option<String>,
}

/// The optional text, as characters.
pub open spec fn text_opt(o: Option<String>) -> Option<Seq<char>> {
    match o {
        Some(s) => Some(s@),
        None => None,
    }
}

/// Decides the optional services: TLS when enabled; the Redis bridge when
/// the broadcast URL is not blank (it is used trimmed); QUIC when enabled.
pub fn optional_services(cfg: &RuntimeConfig) -> (o: OptionalServices)
    ensures
        text_opt(o.acme_email) == (if cfg.tls.enabled { Some(cfg.tls.acme_email@) } else { None }),
        text_opt(o.redis_url) == (if trim(cfg.redis.broadcast_url@).len() > 0 {
            Some(trim(cfg.redis.broadcast_url@))
        } else {
            None
        }),
        text_opt(o.quic_bind) == (if cfg.quic.enabled { Some(cfg.quic.bind@) } else { None }),
{
    let acme_email = if cfg.tls.enabled { Some(cfg.tls.acme_email.clone()) } else { None };
    let url = trim_chars(&chars_of(cfg.redis.broadcast_url.as_str()));
    let redis_url = if url.len() > 0 { Some(string_from_chars(&url)) } else { None };
    let quic_bind = if cfg.quic.enabled { Some(cfg.quic.bind.clone()) } else { None };
    OptionalServices { acme_email, redis_url, quic_bind }
}

} // verus!
