//! The command-line grammar of the `nusa` binary.
//!
//! ```text
//! nusa [-c|--config <FILE>] [COMMAND]
//!   dev      [--watch <DIRS>] [--debounce <MS>] [--pretty]
//!   test     [PATH] [--workers <N>] [--reset]
//!   deploy   [--strategy <NAME>] [--config <FILE>]
//!   rollback
//! ```
//! An option takes its value from the next argument (which may not look like
//! an option), or inline after `=` (`--watch=app`, `-c=f`, `-cf`); giving an
//! option or flag twice, an unknown argument, or a malformed number is an
//! error. `-h`/`--help` (anywhere) or `help` (as the command) asks for help
//! and ends the reading. After `--` only `test` takes arguments (its path).
use vstd::prelude::*;
use crate::text::{chars_of, has_prefix, same_chars, starts_with, string_from_chars};

verus! {

/// The release of the command-line tool (semantic version).
pub const VERSION: &'static str = "0.1.0";

/// Subcommands.
#[derive(Debug, Clone)]
pub enum Commands {
    /// Start the runtime with hot-reload for development.
    Dev {
        /// Directories to watch, comma separated.
        watch: String,
        /// Debounce interval in milliseconds.
        debounce: u64,
        /// Pretty-print logs.
        pretty: bool,
    },
    /// Run tests with a persistent worker pool.
    Test {
        /// Test file or directory.
        path: String,
        /// Number of test workers.
        workers: u32,
        /// Reset state between tests.
        reset: bool,
    },
    /// Deploy with a blue-green strategy.
    Deploy {
        /// Deployment strategy.
        strategy: String,
        /// Path to the new config.
        config: Option<String>,
    },
    /// Roll back to the previous deployment.
    Rollback,
}

/// Parsed command line.
#[derive(Debug, Clone)]
pub struct Cli {
    /// Path to the config file.
    pub config: String,
    /// The subcommand, if any.
    pub command: Option<Commands>,
}

/// Why the arguments were refused.
#[derive(Debug, Clone, Copy, PartialEq, Eq, Structural)]
pub enum CliError {
    /// An unknown, repeated or misplaced argument, a missing value, or a
    /// malformed number.
    InvalidArguments,
    /// Help was asked for before any error.
    HelpRequested,
}

/// The scope an argument is read in.
#[derive(Debug, Clone, Copy, PartialEq, Eq, Structural)]
pub enum Scope {
    Top,
    Dev,
    Test,
    Deploy,
    Rollback,
}

/// The options that take a value.
#[derive(Debug, Clone, Copy, PartialEq, Eq, Structural)]
pub enum ValueOpt {
    Config,
    Watch,
    Debounce,
    Workers,
    Strategy,
    DeployConfig,
}

/// What has been read so far.
pub struct ArgModel {
    pub scope: Scope,
    pub awaiting: Option<ValueOpt>,
    pub after_dashdash: bool,
    pub failed: bool,
    pub help: bool,
    pub config: Option<Seq<char>>,
    pub watch: Option<Seq<char>>,
    pub debounce: Option<Seq<char>>,
    pub pretty: bool,
    pub path: Option<Seq<char>>,
    pub workers: Option<Seq<char>>,
    pub reset: bool,
    pub strategy: Option<Seq<char>>,
    pub deploy_config: Option<Seq<char>>,
}

/// Nothing read yet.
pub open spec fn initial() -> ArgModel {
    ArgModel {
        scope: Scope::Top,
        awaiting: None,
        after_dashdash: false,
        failed: false,
        help: false,
        config: None,
        watch: None,
        debounce: None,
        pretty: false,
        path: None,
        workers: None,
        reset: false,
        strategy: None,
        deploy_config: None,
    }
}

/// Reading stopped with an error.
pub open spec fn fail(m: ArgModel) -> ArgModel {
    ArgModel { failed: true, ..m }
}

/// Reading stopped at a request for help.
pub open spec fn ask_help(m: ArgModel) -> ArgModel {
    ArgModel { failed: true, help: true, ..m }
}

/// The value an option already holds.
pub open spec fn slot(m: ArgModel, o: ValueOpt) -> Option<Seq<char>> {
    match o {
        ValueOpt::Config => m.config,
        ValueOpt::Watch => m.watch,
        ValueOpt::Debounce => m.debounce,
        ValueOpt::Workers => m.workers,
        ValueOpt::Strategy => m.strategy,
        ValueOpt::DeployConfig => m.deploy_config,
    }
}

/// The option holds `v`.
pub open spec fn with_value(m: ArgModel, o: ValueOpt, v: Seq<char>) -> ArgModel {
    match o {
        ValueOpt::Config => ArgModel { config: Some(v), ..m },
        ValueOpt::Watch => ArgModel { watch: Some(v), ..m },
        ValueOpt::Debounce => ArgModel { debounce: Some(v), ..m },
        ValueOpt::Workers => ArgModel { workers: Some(v), ..m },
        ValueOpt::Strategy => ArgModel { strategy: Some(v), ..m },
        ValueOpt::DeployConfig => ArgModel { deploy_config: Some(v), ..m },
    }
}

/// An argument that can be an option's value: it does not look like an
/// option (`-` alone does not).
pub open spec fn is_value_token(t: Seq<char>) -> bool {
    t.len() == 0 || t[0] != '-' || t == seq!['-']
}

/// The value-taking long option `name` of a scope.
pub open spec fn long_opt(scope: Scope, name: Seq<char>) -> Option<ValueOpt> {
    match scope {
        Scope::Top => if name == "--config"@ { Some(ValueOpt::Config) } else { None },
        Scope::Dev => if name == "--watch"@ {
            Some(ValueOpt::Watch)
        } else if name == "--debounce"@ {
            Some(ValueOpt::Debounce)
        } else {
            None
        },
        Scope::Test => if name == "--workers"@ { Some(ValueOpt::Workers) } else { None },
        Scope::Deploy => if name == "--strategy"@ {
            Some(ValueOpt::Strategy)
        } else if name == "--config"@ {
            Some(ValueOpt::DeployConfig)
        } else {
            None
        },
        Scope::Rollback => None,
    }
}

/// `i` is the first `=` of `t`.
pub open spec fn first_eq_at(t: Seq<char>, i: int) -> bool {
    0 <= i < t.len() && t[i] == '=' && forall|j: int| 0 <= j < i ==> t[j] != '='
}

/// A long argument split at its first `=`: (name, inline value).
pub open spec fn split_long(t: Seq<char>) -> (Seq<char>, Option<Seq<char>>) {
    if exists|i: int| first_eq_at(t, i) {
        let i = choose|i: int| first_eq_at(t, i);
        (t.take(i), Some(t.skip(i + 1)))
    } else {
        (t, None)
    }
}

/// The option awaits its value, unless it was already given.
pub open spec fn start_opt(m: ArgModel, o: ValueOpt) -> ArgModel {
    if slot(m, o) is Some { fail(m) } else { ArgModel { awaiting: Some(o), ..m } }
}

/// The option takes an inline value, unless it was already given.
pub open spec fn inline_opt(m: ArgModel, o: ValueOpt, v: Seq<char>) -> ArgModel {
    if slot(m, o) is Some { fail(m) } else { with_value(m, o, v) }
}

/// A long argument (`--name` or `--name=value`).
pub open spec fn step_long(m: ArgModel, t: Seq<char>) -> ArgModel {
    let (name, inline) = split_long(t);
    match long_opt(m.scope, name) {
        Some(o) => match inline {
            None => start_opt(m, o),
            Some(v) => inline_opt(m, o, v),
        },
        None => if inline is None && m.scope == Scope::Dev && name == "--pretty"@ {
            if m.pretty { fail(m) } else { ArgModel { pretty: true, ..m } }
        } else if inline is None && m.scope == Scope::Test && name == "--reset"@ {
            if m.reset { fail(m) } else { ArgModel { reset: true, ..m } }
        } else {
            fail(m)
        },
    }
}

/// A word that is not an option.
pub open spec fn step_word(m: ArgModel, t: Seq<char>) -> ArgModel {
    match m.scope {
        Scope::Top => if t == "dev"@ {
            ArgModel { scope: Scope::Dev, ..m }
        } else if t == "test"@ {
            ArgModel { scope: Scope::Test, ..m }
        } else if t == "deploy"@ {
            ArgModel { scope: Scope::Deploy, ..m }
        } else if t == "rollback"@ {
            ArgModel { scope: Scope::Rollback, ..m }
        } else if t == "help"@ {
            ask_help(m)
        } else {
            fail(m)
        },
        Scope::Test => if m.path is Some { fail(m) } else { ArgModel { path: Some(t), ..m } },
        _ => fail(m),
    }
}

/// Reads one argument.
pub open spec fn step(m: ArgModel, t: Seq<char>) -> ArgModel {
    if m.failed {
        m
    } else if m.awaiting is Some {
        if is_value_token(t) {
            ArgModel { awaiting: None, ..with_value(m, m.awaiting->0, t) }
        } else {
            fail(m)
        }
    } else if m.after_dashdash {
        if m.scope == Scope::Test && m.path is None {
            ArgModel { path: Some(t), ..m }
        } else {
            fail(m)
        }
    } else if t == "--"@ {
        ArgModel { after_dashdash: true, ..m }
    } else if t == "-h"@ || t == "--help"@ {
        ask_help(m)
    } else if has_prefix(t, "--"@) {
        step_long(m, t)
    } else if m.scope == Scope::Top && has_prefix(t, "-c"@) {
        let rest = t.skip(2);
        if rest.len() == 0 {
            start_opt(m, ValueOpt::Config)
        } else if rest[0] == '=' {
            inline_opt(m, ValueOpt::Config, rest.skip(1))
        } else {
            inline_opt(m, ValueOpt::Config, rest)
        }
    } else if !is_value_token(t) {
        fail(m)
    } else {
        step_word(m, t)
    }
}

/// Reads the arguments in order.
pub open spec fn run(toks: Seq<Seq<char>>) -> ArgModel
    decreases toks.len(),
{
    if toks.len() == 0 {
        initial()
    } else {
        step(run(toks.drop_last()), toks.last())
    }
}

/// Law: the first error or request for help decides: once reading has
/// stopped, the arguments that follow change nothing.
pub proof fn law_stop_is_final(read: Seq<Seq<char>>, rest: Seq<Seq<char>>)
    requires
        run(read).failed,
    ensures
        run(read + rest) == run(read),
    decreases rest.len(),
{
    if rest.len() == 0 {
        assert(read + rest =~= read);
    } else {
        law_stop_is_final(read, rest.drop_last());
        assert((read + rest).drop_last() =~= read + rest.drop_last());
        assert((read + rest).last() == rest.last());
    }
}

/// Law: after `test`, a first argument that does not look like an option
/// is the test path: `nusa test P` runs the tests under `P`, with four
/// workers and no reset, whatever `P` is.
pub proof fn law_test_path_positional(prog: Seq<char>, p: Seq<char>)
    requires
        p.len() == 0 || p[0] != '-',
    ensures
        parse_spec(seq![prog, "test"@, p]) == Some(CliView {
            config: "nusa.toml"@,
            command: Some(CommandView::Test { path: p, workers: 4, reset: false }),
        }),
{
    reveal_strlit("test");
    reveal_strlit("dev");
    reveal_strlit("deploy");
    reveal_strlit("rollback");
    reveal_strlit("help");
    reveal_strlit("--");
    reveal_strlit("-h");
    reveal_strlit("--help");
    reveal_strlit("-c");
    let args = seq![prog, "test"@, p];
    let toks = args.skip(1);
    assert(toks =~= seq!["test"@, p]);
    assert(toks.drop_last() =~= seq!["test"@]);
    assert(toks.drop_last().drop_last() =~= Seq::<Seq<char>>::empty());
    let m0 = initial();
    assert(run(toks.drop_last().drop_last()) == m0);
    let t = "test"@;
    assert(t != "--"@ && t != "-h"@ && t != "--help"@);
    assert(t.subrange(0, 2)[0] == 't');
    assert(!has_prefix(t, "--"@));
    assert(!has_prefix(t, "-c"@));
    assert(is_value_token(t));
    assert(t != "dev"@);
    let m1 = step(m0, t);
    assert(m1 == ArgModel { scope: Scope::Test, ..m0 });
    assert(run(toks.drop_last()) == m1);
    if p.len() > 0 {
        assert(p != "--"@ && p != "-h"@ && p != "--help"@);
        if p.len() >= 2 {
            assert(p.subrange(0, 2)[0] == p[0]);
        }
        assert(!has_prefix(p, "--"@));
    } else {
        assert(p != "--"@ && p != "-h"@ && p != "--help"@);
        assert(!has_prefix(p, "--"@));
    }
    assert(is_value_token(p));
    let m2 = step(m1, p);
    assert(m2 == ArgModel { path: Some(p), ..m1 });
    assert(run(toks) == m2);
}

/// A decimal digit.
pub open spec fn is_digit(c: char) -> bool {
    '0' <= c && c <= '9'
}

/// The value of a string of decimal digits.
pub open spec fn digits_value(s: Seq<char>) -> int
    decreases s.len(),
{
    if s.len() == 0 {
        0
    } else {
        digits_value(s.drop_last()) * 10 + (s.last() as int - '0' as int)
    }
}

/// Digit strings have non-negative values.
pub proof fn lemma_digits_nonneg(s: Seq<char>)
    requires
        forall|i: int| 0 <= i < s.len() ==> is_digit(s[i]),
    ensures
        digits_value(s) >= 0,
    decreases s.len(),
{
    if s.len() > 0 {
        lemma_digits_nonneg(s.drop_last());
    }
}

/// A non-empty string of digits.
pub open spec fn all_digits(s: Seq<char>) -> bool {
    s.len() > 0 && forall|i: int| 0 <= i < s.len() ==> is_digit(s[i])
}

/// `u64::from_str`: an optional `+`, then digits, not above `u64::MAX`.
pub open spec fn parse_u64(s: Seq<char>) -> Option<u64> {
    let d = if s.len() > 0 && s[0] == '+' { s.skip(1) } else { s };
    if all_digits(d) && digits_value(d) <= u64::MAX {
        Some(digits_value(d) as u64)
    } else {
        None
    }
}

/// The `u32` value parser: an integer with optional sign in `0..=u32::MAX`
/// (so a negative zero is zero).
pub open spec fn parse_u32(s: Seq<char>) -> Option<u32> {
    if s.len() > 0 && s[0] == '-' {
        let d = s.skip(1);
        if all_digits(d) && digits_value(d) == 0 { Some(0u32) } else { None }
    } else {
        match parse_u64(s) {
            Some(v) => if v <= u32::MAX { Some(v as u32) } else { None },
            None => None,
        }
    }
}

/// A parsed subcommand, as values.
pub enum CommandView {
    Dev { watch: Seq<char>, debounce: u64, pretty: bool },
    Test { path: Seq<char>, workers: u32, reset: bool },
    Deploy { strategy: Seq<char>, config: Option<Seq<char>> },
    Rollback,
}

/// A parsed command line, as values.
pub struct CliView {
    pub config: Seq<char>,
    pub command: Option<CommandView>,
}

/// The outcome of reading the whole argument list: defaults fill what was
/// not given.
pub open spec fn finish(m: ArgModel) -> Option<CliView> {
    let config = match m.config { Some(c) => c, None => "nusa.toml"@ };
    if m.failed || m.awaiting is Some {
        None
    } else {
        match m.scope {
            Scope::Top => Some(CliView { config, command: None }),
            Scope::Dev => {
                let debounce = match m.debounce { Some(d) => parse_u64(d), None => Some(200u64) };
                match debounce {
                    Some(d) => Some(CliView {
                        config,
                        command: Some(CommandView::Dev {
                            watch: match m.watch { Some(w) => w, None => "app,config,routes,resources/views,.env"@ },
                            debounce: d,
                            pretty: m.pretty,
                        }),
                    }),
                    None => None,
                }
            },
            Scope::Test => {
                let workers = match m.workers { Some(w) => parse_u32(w), None => Some(4u32) };
                match workers {
                    Some(n) => Some(CliView {
                        config,
                        command: Some(CommandView::Test {
                            path: match m.path { Some(p) => p, None => "tests/"@ },
                            workers: n,
                            reset: m.reset,
                        }),
                    }),
                    None => None,
                }
            },
            Scope::Deploy => Some(CliView {
                config,
                command: Some(CommandView::Deploy {
                    strategy: match m.strategy { Some(s) => s, None => "blue-green"@ },
                    config: m.deploy_config,
                }),
            }),
            Scope::Rollback => Some(CliView { config, command: Some(CommandView::Rollback) }),
        }
    }
}

/// The command line an argument vector (program name first) denotes.
pub open spec fn parse_spec(args: Seq<Seq<char>>) -> Option<CliView> {
    if args.len() == 0 { finish(initial()) } else { finish(run(args.skip(1))) }
}

/// Reading an argument vector (program name first) stopped at a request
/// for help.
pub open spec fn help_requested(args: Seq<Seq<char>>) -> bool {
    args.len() > 0 && run(args.skip(1)).help
}

/// An optional string's characters.
pub open spec fn opt_view(o: Option<String>) -> Option<Seq<char>> {
    match o {
        Some(s) => Some(s@),
        None => None,
    }
}

impl Cli {
    /// The parsed command line as values.
    pub open spec fn view_cli(&self) -> CliView {
        CliView {
            config: self.config@,
            command: match self.command {
                None => None,
                Some(Commands::Dev { watch, debounce, pretty }) => Some(CommandView::Dev { watch: watch@, debounce, pretty }),
                Some(Commands::Test { path, workers, reset }) => Some(CommandView::Test { path: path@, workers, reset }),
                Some(Commands::Deploy { strategy, config }) => Some(CommandView::Deploy { strategy: strategy@, config: opt_view(config) }),
                Some(Commands::Rollback) => Some(CommandView::Rollback),
            },
        }
    }
}

/// The reading state.
struct ArgState {
    scope: Scope,
    awaiting: Option<ValueOpt>,
    after_dashdash: bool,
    failed: bool,
    help: bool,
    config: Option<Vec<char>>,
    watch: Option<Vec<char>>,
    debounce: Option<Vec<char>>,
    pretty: bool,
    path: Option<Vec<char>>,
    workers: Option<Vec<char>>,
    reset: bool,
    strategy: Option<Vec<char>>,
    deploy_config: Option<Vec<char>>,
}

/// An optional character vector's contents.
pub open spec fn ov(o: Option<Vec<char>>) -> Option<Seq<char>> {
    match o {
        Some(v) => Some(v@),
        None => None,
    }
}

impl ArgState {
    spec fn model(&self) -> ArgModel {
        ArgModel {
            scope: self.scope,
            awaiting: self.awaiting,
            after_dashdash: self.after_dashdash,
            failed: self.failed,
            help: self.help,
            config: ov(self.config),
            watch: ov(self.watch),
            debounce: ov(self.debounce),
            pretty: self.pretty,
            path: ov(self.path),
            workers: ov(self.workers),
            reset: self.reset,
            strategy: ov(self.strategy),
            deploy_config: ov(self.deploy_config),
        }
    }
}

fn initial_state() -> (st: ArgState)
    ensures
        st.model() == initial(),
{
    ArgState {
        scope: Scope::Top,
        awaiting: None,
        after_dashdash: false,
        failed: false,
        help: false,
        config: None,
        watch: None,
        debounce: None,
        pretty: false,
        path: None,
        workers: None,
        reset: false,
        strategy: None,
        deploy_config: None,
    }
}

fn fail_state(st: ArgState) -> (r: ArgState)
    ensures
        r.model() == fail(st.model()),
{
    ArgState { failed: true, ..st }
}

fn help_state(st: ArgState) -> (r: ArgState)
    ensures
        r.model() == ask_help(st.model()),
{
    ArgState { failed: true, help: true, ..st }
}

fn slot_taken(st: &ArgState, o: ValueOpt) -> (b: bool)
    ensures
        b == slot(st.model(), o) is Some,
{
    match o {
        ValueOpt::Config => st.config.is_some(),
        ValueOpt::Watch => st.watch.is_some(),
        ValueOpt::Debounce => st.debounce.is_some(),
        ValueOpt::Workers => st.workers.is_some(),
        ValueOpt::Strategy => st.strategy.is_some(),
        ValueOpt::DeployConfig => st.deploy_config.is_some(),
    }
}

fn set_value(st: ArgState, o: ValueOpt, v: Vec<char>) -> (r: ArgState)
    ensures
        r.model() == with_value(st.model(), o, v@),
{
    match o {
        ValueOpt::Config => ArgState { config: Some(v), ..st },
        ValueOpt::Watch => ArgState { watch: Some(v), ..st },
        ValueOpt::Debounce => ArgState { debounce: Some(v), ..st },
        ValueOpt::Workers => ArgState { workers: Some(v), ..st },
        ValueOpt::Strategy => ArgState { strategy: Some(v), ..st },
        ValueOpt::DeployConfig => ArgState { deploy_config: Some(v), ..st },
    }
}

fn start_opt_state(st: ArgState, o: ValueOpt) -> (r: ArgState)
    ensures
        r.model() == start_opt(st.model(), o),
{
    if slot_taken(&st, o) {
        fail_state(st)
    } else {
        ArgState { awaiting: Some(o), ..st }
    }
}

fn inline_opt_state(st: ArgState, o: ValueOpt, v: Vec<char>) -> (r: ArgState)
    ensures
        r.model() == inline_opt(st.model(), o, v@),
{
    if slot_taken(&st, o) {
        fail_state(st)
    } else {
        set_value(st, o, v)
    }
}

fn value_token(t: &Vec<char>) -> (b: bool)
    ensures
        b == is_value_token(t@),
{
    if t.len() == 0 || t[0] != '-' {
        return true;
    }
    if t.len() == 1 {
        assert(t@ =~= seq!['-']);
        return true;
    }
    assert(t@ != seq!['-']);
    false
}

fn is_lit(t: &Vec<char>, lit: &str) -> (b: bool)
    ensures
        b == (t@ == lit@),
{
    same_chars(t, &chars_of(lit))
}

fn long_opt_of(scope: Scope, name: &Vec<char>) -> (r: Option<ValueOpt>)
    ensures
        r == long_opt(scope, name@),
{
    match scope {
        Scope::Top => if is_lit(name, "--config") { Some(ValueOpt::Config) } else { None },
        Scope::Dev => if is_lit(name, "--watch") {
            Some(ValueOpt::Watch)
        } else if is_lit(name, "--debounce") {
            Some(ValueOpt::Debounce)
        } else {
            None
        },
        Scope::Test => if is_lit(name, "--workers") { Some(ValueOpt::Workers) } else { None },
        Scope::Deploy => if is_lit(name, "--strategy") {
            Some(ValueOpt::Strategy)
        } else if is_lit(name, "--config") {
            Some(ValueOpt::DeployConfig)
        } else {
            None
        },
        Scope::Rollback => None,
    }
}

/// The characters from index `from` on.
fn tail_from(t: &Vec<char>, from: usize) -> (r: Vec<char>)
    requires
        from <= t.len(),
    ensures
        r@ == t@.skip(from as int),
{
    let mut r: Vec<char> = Vec::new();
    let mut i: usize = from;
    while i < t.len()
        invariant
            from <= i <= t.len(),
            r@ == t@.subrange(from as int, i as int),
        decreases t.len() - i,
    {
        r.push(t[i]);
        assert(t@.subrange(from as int, i + 1) =~= t@.subrange(from as int, i as int).push(t@[i as int]));
        i = i + 1;
    }
    assert(t@.subrange(from as int, t.len() as int) =~= t@.skip(from as int));
    r
}

/// The first `count` characters.
fn head_to(t: &Vec<char>, count: usize) -> (r: Vec<char>)
    requires
        count <= t.len(),
    ensures
        r@ == t@.take(count as int),
{
    let mut r: Vec<char> = Vec::new();
    let mut i: usize = 0;
    while i < count
        invariant
            i <= count <= t.len(),
            r@ == t@.take(i as int),
        decreases count - i,
    {
        r.push(t[i]);
        assert(t@.take(i + 1) =~= t@.take(i as int).push(t@[i as int]));
        i = i + 1;
    }
    r
}

fn split_long_of(t: &Vec<char>) -> (r: (Vec<char>, Option<Vec<char>>))
    ensures
        r.0@ == split_long(t@).0,
        ov(r.1) == split_long(t@).1,
{
    let mut i: usize = 0;
    while i < t.len()
        invariant
            i <= t.len(),
            forall|j: int| 0 <= j < i ==> t@[j] != '=',
        decreases t.len() - i,
    {
        if t[i] == '=' {
            assert(first_eq_at(t@, i as int));
            proof {
                let c = choose|k: int| first_eq_at(t@, k);
                assert(c == i) by {
                    if c < i {
                    } else if c > i {
                    }
                }
            }
            return (head_to(t, i), Some(tail_from(t, i + 1)));
        }
        i = i + 1;
    }
    assert(!exists|k: int| first_eq_at(t@, k));
    (t.clone(), None)
}

fn step_long_state(st: ArgState, t: &Vec<char>) -> (r: ArgState)
    ensures
        r.model() == step_long(st.model(), t@),
{
    let (name, inline) = split_long_of(t);
    match long_opt_of(st.scope, &name) {
        Some(o) => match inline {
            None => start_opt_state(st, o),
            Some(v) => inline_opt_state(st, o, v),
        },
        None => {
            if inline.is_none() && st.scope == Scope::Dev && is_lit(&name, "--pretty") {
                if st.pretty { fail_state(st) } else { ArgState { pretty: true, ..st } }
            } else if inline.is_none() && st.scope == Scope::Test && is_lit(&name, "--reset") {
                if st.reset { fail_state(st) } else { ArgState { reset: true, ..st } }
            } else {
                fail_state(st)
            }
        },
    }
}

fn step_word_state(st: ArgState, t: &Vec<char>) -> (r: ArgState)
    ensures
        r.model() == step_word(st.model(), t@),
{
    match st.scope {
        Scope::Top => if is_lit(t, "dev") {
            ArgState { scope: Scope::Dev, ..st }
        } else if is_lit(t, "test") {
            ArgState { scope: Scope::Test, ..st }
        } else if is_lit(t, "deploy") {
            ArgState { scope: Scope::Deploy, ..st }
        } else if is_lit(t, "rollback") {
            ArgState { scope: Scope::Rollback, ..st }
        } else if is_lit(t, "help") {
            help_state(st)
        } else {
            fail_state(st)
        },
        Scope::Test => if st.path.is_some() {
            fail_state(st)
        } else {
            ArgState { path: Some(t.clone()), ..st }
        },
        _ => fail_state(st),
    }
}

fn step_state(st: ArgState, t: &Vec<char>) -> (r: ArgState)
    ensures
        r.model() == step(st.model(), t@),
{
    if st.failed {
        return st;
    }
    match st.awaiting {
        Some(o) => {
            if value_token(t) {
                let r = set_value(st, o, t.clone());
                return ArgState { awaiting: None, ..r };
            } else {
                return fail_state(st);
            }
        },
        None => {},
    }
    if st.after_dashdash {
        if st.scope == Scope::Test && st.path.is_none() {
            return ArgState { path: Some(t.clone()), ..st };
        } else {
            return fail_state(st);
        }
    }
    if is_lit(t, "--") {
        return ArgState { after_dashdash: true, ..st };
    }
    if is_lit(t, "-h") || is_lit(t, "--help") {
        return help_state(st);
    }
    if starts_with(t, &chars_of("--")) {
        return step_long_state(st, t);
    }
    if st.scope == Scope::Top && starts_with(t, &chars_of("-c")) {
        proof { reveal_strlit("-c"); }
        let rest = tail_from(t, 2);
        if rest.len() == 0 {
            return start_opt_state(st, ValueOpt::Config);
        } else if rest[0] == '=' {
            let v = tail_from(&rest, 1);
            return inline_opt_state(st, ValueOpt::Config, v);
        } else {
            return inline_opt_state(st, ValueOpt::Config, rest);
        }
    }
    if !value_token(t) {
        return fail_state(st);
    }
    step_word_state(st, t)
}

/// Parses a `u64` (`u64::from_str`).
pub fn parse_u64_chars(s: &Vec<char>) -> (r: Option<u64>)
    ensures
        r == parse_u64(s@),
{
    let start: usize = if s.len() > 0 && s[0] == '+' { 1 } else { 0 };
    let ghost d = if s@.len() > 0 && s@[0] == '+' { s@.skip(1) } else { s@ };
    assert(d =~= s@.skip(start as int));
    if start >= s.len() {
        assert(d.len() == 0);
        return None;
    }
    let mut acc: u128 = 0;
    let mut i: usize = start;
    while i < s.len()
        invariant
            start <= i <= s.len(),
            d =~= s@.skip(start as int),
            d == (if s@.len() > 0 && s@[0] == '+' { s@.skip(1) } else { s@ }),
            forall|j: int| start <= j < i ==> is_digit(s@[j]),
            acc == if digits_value(s@.subrange(start as int, i as int)) <= u64::MAX {
                digits_value(s@.subrange(start as int, i as int))
            } else {
                u64::MAX + 1
            },
        decreases s.len() - i,
    {
        let c = s[i];
        if !('0' <= c && c <= '9') {
            assert(d[i - start] == s@[i as int]);
            assert(!is_digit(d[i - start]));
            assert(!all_digits(d));
            return None;
        }
        let dv = (c as u32 - '0' as u32) as u128;
        let ghost pre = s@.subrange(start as int, i as int);
        let ghost nxt = s@.subrange(start as int, i + 1);
        assert(nxt.drop_last() =~= pre);
        assert(digits_value(nxt) == digits_value(pre) * 10 + dv);
        proof {
            if digits_value(pre) > u64::MAX {
                assert(digits_value(pre) * 10 + dv > u64::MAX) by (nonlinear_arith)
                    requires
                        digits_value(pre) > u64::MAX,
                        dv >= 0,
                ;
            }
        }
        let next = acc * 10 + dv;
        acc = if next > u64::MAX as u128 { u64::MAX as u128 + 1 } else { next };
        i = i + 1;
    }
    assert(s@.subrange(start as int, s.len() as int) =~= d);
    if acc > u64::MAX as u128 {
        None
    } else {
        Some(acc as u64)
    }
}

/// Parses a worker count (the `u32` value parser).
pub fn parse_u32_chars(s: &Vec<char>) -> (r: Option<u32>)
    ensures
        r == parse_u32(s@),
{
    if s.len() > 0 && s[0] == '-' {
        let d = tail_from(s, 1);
        let mut plus = vec!['+'];
        let mut i: usize = 0;
        while i < d.len()
            invariant
                i <= d.len(),
                plus@ == seq!['+'] + d@.take(i as int),
            decreases d.len() - i,
        {
            plus.push(d[i]);
            assert(seq!['+'] + d@.take(i + 1) =~= (seq!['+'] + d@.take(i as int)).push(d@[i as int]));
            i = i + 1;
        }
        assert(d@.take(d.len() as int) =~= d@);
        assert(plus@.skip(1) =~= d@);
        assert(plus@.len() > 0 && plus@[0] == '+');
        assert(d@ =~= s@.skip(1));
        let r = parse_u64_chars(&plus);
        proof {
            if all_digits(d@) {
                lemma_digits_nonneg(d@);
            }
        }
        assert(r == parse_u64(plus@));
        assert(parse_u64(plus@) == (if all_digits(d@) && digits_value(d@) <= u64::MAX { Some(digits_value(d@) as u64) } else { None }));
        return match r {
            Some(v) => if v == 0 { Some(0u32) } else { None },
            None => None,
        };
    }
    match parse_u64_chars(s) {
        Some(v) => if v <= u32::MAX as u64 { Some(v as u32) } else { None },
        None => None,
    }
}

fn finish_state(st: ArgState) -> (r: Option<Cli>)
    ensures
        r is Some <==> finish(st.model()) is Some,
        r matches Some(c) ==> c.view_cli() == finish(st.model())->0,
{
    if st.failed || st.awaiting.is_some() {
        return None;
    }
    let config = match st.config {
        Some(c) => string_from_chars(&c),
        None => "nusa.toml".to_string(),
    };
    match st.scope {
        Scope::Top => Some(Cli { config, command: None }),
        Scope::Dev => {
            let debounce = match &st.debounce {
                Some(d) => parse_u64_chars(d),
                None => Some(200u64),
            };
            match debounce {
                Some(d) => {
                    let watch = match &st.watch {
                        Some(w) => string_from_chars(w),
                        None => "app,config,routes,resources/views,.env".to_string(),
                    };
                    Some(Cli { config, command: Some(Commands::Dev { watch, debounce: d, pretty: st.pretty }) })
                },
                None => None,
            }
        },
        Scope::Test => {
            let workers = match &st.workers {
                Some(w) => parse_u32_chars(w),
                None => Some(4u32),
            };
            match workers {
                Some(n) => {
                    let path = match &st.path {
                        Some(p) => string_from_chars(p),
                        None => "tests/".to_string(),
                    };
                    Some(Cli { config, command: Some(Commands::Test { path, workers: n, reset: st.reset }) })
                },
                None => None,
            }
        },
        Scope::Deploy => {
            let strategy = match &st.strategy {
                Some(s) => string_from_chars(s),
                None => "blue-green".to_string(),
            };
            let dc = match &st.deploy_config {
                Some(c) => Some(string_from_chars(c)),
                None => None,
            };
            Some(Cli { config, command: Some(Commands::Deploy { strategy, config: dc }) })
        },
        Scope::Rollback => Some(Cli { config, command: Some(Commands::Rollback) }),
    }
}

impl Cli {
    /// Parses an argument vector whose first element is the program name,
    /// by the grammar of `parse_spec`.
    pub fn try_parse_from(args: &[&str]) -> (r: Result<Cli, CliError>)
        ensures
            r is Ok <==> parse_spec(args@.map_values(|a: &str| a@)) is Some,
            r matches Ok(c) ==> c.view_cli() == parse_spec(args@.map_values(|a: &str| a@))->0,
            r matches Err(e) ==> (e == CliError::HelpRequested <==> help_requested(args@.map_values(|a: &str| a@))),
            help_requested(args@.map_values(|a: &str| a@)) ==> r is Err,
    {
        let ghost toks = args@.map_values(|a: &str| a@);
        let mut st = initial_state();
        if args.len() > 0 {
            let mut i: usize = 1;
            while i < args.len()
                invariant
                    1 <= i <= args.len(),
                    toks == args@.map_values(|a: &str| a@),
                    st.model() == run(toks.skip(1).take(i - 1)),
                    st.help ==> st.failed,
                decreases args.len() - i,
            {
                let t = chars_of(args[i]);
                assert(toks.skip(1).take(i as int).drop_last() =~= toks.skip(1).take(i - 1));
                assert(toks.skip(1).take(i as int).last() == toks[i as int]);
                st = step_state(st, &t);
                i = i + 1;
            }
            assert(toks.skip(1).take(args.len() - 1) =~= toks.skip(1));
        }
        let help = st.help;
        match finish_state(st) {
            Some(c) => Ok(c),
            None => if help { Err(CliError::HelpRequested) } else { Err(CliError::InvalidArguments) },
        }
    }
}

} // verus!
