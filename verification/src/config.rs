//! Runtime configuration: defaults, derived settings and the checks a loaded
//! configuration must pass.
use vstd::prelude::*;
use crate::text::{chars_of, string_from_chars};

verus! {

/// PHP engine execution kind.
#[derive(Clone, Copy, Debug, PartialEq, Eq, Structural)]
pub enum EngineKind {
    /// PHP embedded via FFI.
    Ffi,
    /// PHP inside a WASM sandbox.
    Wasm,
    /// PHP as child processes.
    Child,
}

/// TLS / ACME settings.
#[derive(Debug)]
pub struct TlsSettings {
    pub enabled: bool,
    pub acme_email: String,
}

/// Redis broadcast bridge; an empty URL disables it.
#[derive(Debug)]
pub struct RedisSettings {
    pub broadcast_url: String,
}

/// HTTP/3 QUIC listener.
#[derive(Debug)]
pub struct QuicSettings {
    pub enabled: bool,
    /// UDP listen address when QUIC is enabled.
    pub bind: String,
}

impl Default for TlsSettings {
    /// Disabled, no e-mail.
    fn default() -> (t: TlsSettings)
        ensures
            !t.enabled,
            t.acme_email@ == Seq::<char>::empty(),
    {
        TlsSettings { enabled: false, acme_email: String::new() }
    }
}

impl Default for RedisSettings {
    /// No URL (bridge disabled).
    fn default() -> (r: RedisSettings)
        ensures
            r.broadcast_url@ == Seq::<char>::empty(),
    {
        RedisSettings { broadcast_url: String::new() }
    }
}

impl Default for QuicSettings {
    /// Disabled, with an empty bind address (the per-field default
    /// `default_quic_bind` applies only when a loaded file leaves it out).
    fn default() -> (q: QuicSettings)
        ensures
            !q.enabled,
            q.bind@ == Seq::<char>::empty(),
    {
        QuicSettings { enabled: false, bind: String::new() }
    }
}

/// Runtime configuration.
#[derive(Debug)]
pub struct RuntimeConfig {
    pub engine: EngineKind,
    pub max_workers: usize,
    pub timeout_ms: u64,
    pub wasm_memory_mb: u64,
    pub vfs_root: String,
    pub code_dir: String,
    pub tmp_dir: String,
    pub hot_reload: bool,
    pub octane_workers: usize,
    pub octane_max_memory_mb: u64,
    pub octane_max_requests: u64,
    pub bind: String,
    pub static_root: String,
    pub php_binary: String,
    pub php_bootstrap: String,
    pub tls: TlsSettings,
    pub redis: RedisSettings,
    pub quic: QuicSettings,
}

/// QUIC listen address used when a loaded file leaves it out.
pub fn default_quic_bind() -> (s: String)
    ensures
        s@ == "0.0.0.0:443"@,
{
    "0.0.0.0:443".to_string()
}

/// Octane worker memory limit (MB) before recycling.
pub fn default_max_memory_mb() -> (n: u64)
    ensures
        n == 512,
{
    512
}

/// Octane worker request count before recycling.
pub fn default_max_requests() -> (n: u64)
    ensures
        n == 1000,
{
    1000
}

/// HTTP listen address.
pub fn default_bind() -> (s: String)
    ensures
        s@ == "0.0.0.0:8080"@,
{
    "0.0.0.0:8080".to_string()
}

/// PHP binary of the child engine.
pub fn default_php_binary() -> (s: String)
    ensures
        s@ == "php"@,
{
    "php".to_string()
}

/// The built-in configuration: child engine, 4 workers, 30 s timeout,
/// 256 MB WASM memory, `/app/public` as VFS root, `/app` as the project
/// (code) directory, whose `public/` is the static root,
/// `/tmp/nusa` as temporary directory, hot reload on, Octane off
/// (512 MB / 1000 requests per worker), `0.0.0.0:8080`, `php`, and TLS,
/// Redis and QUIC off.
pub fn default_config() -> (c: RuntimeConfig)
    ensures
        c.engine == EngineKind::Child,
        c.max_workers == 4,
        c.timeout_ms == 30_000,
        c.wasm_memory_mb == 256,
        c.vfs_root@ == "/app/public"@,
        c.code_dir@ == "/app"@,
        c.tmp_dir@ == "/tmp/nusa"@,
        c.hot_reload,
        c.octane_workers == 0,
        c.octane_max_memory_mb == 512,
        c.octane_max_requests == 1000,
        c.bind@ == "0.0.0.0:8080"@,
        c.static_root@ == Seq::<char>::empty(),
        c.php_binary@ == "php"@,
        c.php_bootstrap@ == Seq::<char>::empty(),
        !c.tls.enabled,
        c.tls.acme_email@ == Seq::<char>::empty(),
        c.redis.broadcast_url@ == Seq::<char>::empty(),
        !c.quic.enabled,
        c.quic.bind@ == Seq::<char>::empty(),
{
    RuntimeConfig {
        engine: EngineKind::Child,
        max_workers: 4,
        timeout_ms: 30_000,
        wasm_memory_mb: 256,
        vfs_root: "/app/public".to_string(),
        code_dir: "/app".to_string(),
        tmp_dir: "/tmp/nusa".to_string(),
        hot_reload: true,
        octane_workers: 0,
        octane_max_memory_mb: 512,
        octane_max_requests: 1000,
        bind: default_bind(),
        static_root: String::new(),
        php_binary: default_php_binary(),
        php_bootstrap: String::new(),
        tls: TlsSettings::default(),
        redis: RedisSettings::default(),
        quic: QuicSettings::default(),
    }
}

/// `s` without its trailing `/` characters (`trim_end_matches('/')`).
pub open spec fn trim_trailing_slashes(s: Seq<char>) -> Seq<char>
    decreases s.len(),
{
    if s.len() > 0 && s.last() == '/' {
        trim_trailing_slashes(s.drop_last())
    } else {
        s
    }
}

/// The static document root: an explicit `static_root`, or `public` under
/// the code directory.
pub open spec fn static_root_of(static_root: Seq<char>, code_dir: Seq<char>) -> Seq<char> {
    if static_root.len() > 0 {
        static_root
    } else {
        trim_trailing_slashes(code_dir) + "/public"@
    }
}

/// Resolved static file root.
pub fn effective_static_root(cfg: &RuntimeConfig) -> (s: String)
    ensures
        s@ == static_root_of(cfg.static_root@, cfg.code_dir@),
{
    if !cfg.static_root.as_str().is_empty() {
        return cfg.static_root.clone();
    }
    let c = chars_of(cfg.code_dir.as_str());
    let mut n: usize = c.len();
    assert(c@.take(n as int) =~= c@);
    while n > 0 && c[n - 1] == '/'
        invariant
            n <= c.len(),
            trim_trailing_slashes(c@) == trim_trailing_slashes(c@.take(n as int)),
        decreases n,
    {
        assert(c@.take(n as int).drop_last() =~= c@.take(n - 1));
        n = n - 1;
    }
    assert(trim_trailing_slashes(c@.take(n as int)) == c@.take(n as int));
    let mut base: Vec<char> = Vec::new();
    let mut i: usize = 0;
    while i < n
        invariant
            i <= n <= c.len(),
            base@ == c@.take(i as int),
        decreases n - i,
    {
        base.push(c[i]);
        assert(c@.take(i + 1) =~= c@.take(i as int).push(c@[i as int]));
        i = i + 1;
    }
    let mut s = string_from_chars(&base);
    s.append("/public");
    assert(c@ == cfg.code_dir@);
    assert(c@.take(c@.len() as int) =~= c@);
    s
}

/// Why a loaded configuration was refused.
#[derive(Debug, Clone, Copy, PartialEq, Eq, Structural)]
pub enum ConfigError {
    /// `max_workers` is zero.
    ZeroWorkers,
    /// `bind` is not a socket address.
    InvalidBind,
    /// QUIC is enabled and `quic.bind` is not a socket address.
    InvalidQuicBind,
}

/// The checks of a loaded configuration, first failure first.
pub open spec fn check(max_workers: usize, bind_ok: bool, quic_enabled: bool, quic_bind_ok: bool) -> Result<(), ConfigError> {
    if max_workers == 0 {
        Err(ConfigError::ZeroWorkers)
    } else if !bind_ok {
        Err(ConfigError::InvalidBind)
    } else if quic_enabled && !quic_bind_ok {
        Err(ConfigError::InvalidQuicBind)
    } else {
        Ok(())
    }
}

/// Validates a loaded configuration: at least one worker, a valid bind
/// address, and a valid QUIC bind address when QUIC is enabled. Whether
/// `bind` and `quic.bind` parse as socket addresses is passed in
/// (`bind_ok`, `quic_bind_ok`), as the caller parsed them.
pub fn validate_config(cfg: &RuntimeConfig, bind_ok: bool, quic_bind_ok: bool) -> (r: Result<(), ConfigError>)
    ensures
        r == check(cfg.max_workers, bind_ok, cfg.quic.enabled, quic_bind_ok),
{
    if cfg.max_workers == 0 {
        return Err(ConfigError::ZeroWorkers);
    }
    if !bind_ok {
        return Err(ConfigError::InvalidBind);
    }
    if cfg.quic.enabled && !quic_bind_ok {
        return Err(ConfigError::InvalidQuicBind);
    }
    Ok(())
}

/// The message of a refusal, naming the offending address.
pub open spec fn config_error_message(e: ConfigError, bind: Seq<char>, quic_bind: Seq<char>) -> Seq<char> {
    match e {
        ConfigError::ZeroWorkers => "max_workers must be > 0"@,
        ConfigError::InvalidBind => "invalid bind address: "@ + bind,
        ConfigError::InvalidQuicBind => "invalid quic bind address: "@ + quic_bind,
    }
}

impl ConfigError {
    /// The refusal's message for the given configuration.
    pub fn message(&self, cfg: &RuntimeConfig) -> (s: String)
        ensures
            s@ == config_error_message(*self, cfg.bind@, cfg.quic.bind@),
    {
        match self {
            ConfigError::ZeroWorkers => "max_workers must be > 0".to_string(),
            ConfigError::InvalidBind => {
                let mut s = "invalid bind address: ".to_string();
                s.append(cfg.bind.as_str());
                s
            },
            ConfigError::InvalidQuicBind => {
                let mut s = "invalid quic bind address: ".to_string();
                s.append(cfg.quic.bind.as_str());
                s
            },
        }
    }
}

} // verus!
