//! Configuration and bookkeeping of the Ollama server that the application runs itself.
use vstd::prelude::*;

use crate::error::{MooseError, Result};
use crate::platform::{installation_dir_for, path_join, AppPaths};
use crate::text::{
    chars_of, decimal, decimal_string, join, join_strings, push_str, split, split_chars,
    string_from_range, string_views, to_owned_string, trim, trim_bounds,
};

verus! {

pub const MANAGED_OLLAMA_BIND_ADDRESS: &'static str = "127.0.0.1";

pub const MANAGED_OLLAMA_DEFAULT_PORT: u16 = 11435;

pub const MANAGED_OLLAMA_RESERVED_PORT: u16 = 11434;

pub const MANAGED_OLLAMA_MIN_PORT: u16 = 1024;

pub const MANAGED_OLLAMA_HOST: &'static str = "127.0.0.1:11435";

pub const MANAGED_OLLAMA_BASE_URL: &'static str = "http://127.0.0.1:11435/api";

/// Longest wait, in milliseconds, between two readiness checks.
pub const READY_MAX_BACKOFF_MS: u64 = 1000;

/// First wait, in milliseconds, between two readiness checks.
pub const READY_INITIAL_BACKOFF_MS: u64 = 100;

#[derive(Clone, Debug, PartialEq, Eq)]
pub struct ManagedOllamaConfig {
    pub binary_path: String,
    pub host: String,
    pub base_url: String,
    pub models_dir: String,
    pub home_dir: String,
    pub cache_dir: String,
    pub config_dir: String,
    pub log_path: String,
}

#[derive(Clone, Debug, PartialEq, Eq)]
pub enum ManagedOllamaServiceState {
    Stopped,
    Starting,
    Running,
    Failed(String),
}

pub open spec fn port_ok(port: u16) -> bool {
    port >= 1024 && port != 11434
}

pub open spec fn host_for_port(port: u16) -> Seq<char> {
    "127.0.0.1:"@ + decimal(port as nat)
}

pub open spec fn base_url_for_port(port: u16) -> Seq<char> {
    "http://"@ + host_for_port(port) + "/api"@
}

/// The base URL of a managed server on some port.
pub open spec fn managed_base_url(s: Seq<char>) -> bool {
    exists|port: u16| s == #[trigger] base_url_for_port(port)
}

pub open spec fn origin_for_host(host: Seq<char>) -> Seq<char> {
    "http://"@ + host
}

/// Ports below 1024 and the port of a system Ollama are refused.
pub fn validate_managed_ollama_port(port: u16) -> (r: Result<u16>)
    ensures
        port_ok(port) ==> r == Ok::<u16, MooseError>(port),
        !port_ok(port) ==> r == Err::<u16, MooseError>(MooseError::ManagedOllamaInvalidPort(port)),
{
    if port < MANAGED_OLLAMA_MIN_PORT || port == MANAGED_OLLAMA_RESERVED_PORT {
        return Err(MooseError::ManagedOllamaInvalidPort(port));
    }
    Ok(port)
}

fn managed_ollama_host_for_port(port: u16) -> (r: String)
    ensures
        r@ == host_for_port(port),
{
    let mut host = to_owned_string(MANAGED_OLLAMA_BIND_ADDRESS);
    push_str(&mut host, ":");
    let digits = decimal_string(port as u64);
    push_str(&mut host, digits.as_str());
    proof {
        reveal_strlit("127.0.0.1");
        reveal_strlit(":");
        reveal_strlit("127.0.0.1:");
        assert(host@ =~= host_for_port(port));
    }
    host
}

fn managed_ollama_base_url_for_port(port: u16) -> (r: String)
    ensures
        r@ == base_url_for_port(port),
{
    let mut url = to_owned_string("http://");
    let host = managed_ollama_host_for_port(port);
    push_str(&mut url, host.as_str());
    push_str(&mut url, "/api");
    url
}

/// The browser origin Ollama must accept for a host.
pub fn managed_ollama_origin(host: &str) -> (r: String)
    ensures
        r@ == origin_for_host(host@),
{
    let mut origin = to_owned_string("http://");
    push_str(&mut origin, host);
    origin
}

/// `127.0.0.1:<port>` for an accepted port.
pub fn managed_ollama_host(port: u16) -> (r: Result<String>)
    ensures
        port_ok(port) ==> (r matches Ok(h) && h@ == host_for_port(port)),
        !port_ok(port) ==> r == Err::<String, MooseError>(MooseError::ManagedOllamaInvalidPort(port)),
{
    let port = validate_managed_ollama_port(port)?;
    Ok(managed_ollama_host_for_port(port))
}

/// `http://127.0.0.1:<port>/api` for an accepted port.
pub fn managed_ollama_base_url(port: u16) -> (r: Result<String>)
    ensures
        port_ok(port) ==> (r matches Ok(u) && u@ == base_url_for_port(port)),
        !port_ok(port) ==> r == Err::<String, MooseError>(MooseError::ManagedOllamaInvalidPort(port)),
{
    let port = validate_managed_ollama_port(port)?;
    Ok(managed_ollama_base_url_for_port(port))
}

pub open spec fn config_for(paths: AppPaths, port: u16, c: ManagedOllamaConfig) -> bool {
    &&& c.binary_path@ == path_join(path_join(installation_dir_for(paths@.data_dir), "bin"@), "ollama"@)
    &&& c.host@ == host_for_port(port)
    &&& c.base_url@ == base_url_for_port(port)
    &&& c.models_dir@ == path_join(path_join(paths@.data_dir, ".ollama"@), "models"@)
    &&& c.home_dir@ == paths@.data_dir
    &&& c.cache_dir@ == paths@.cache_dir
    &&& c.config_dir@ == paths@.config_dir
    &&& c.log_path@ == path_join(paths@.cache_dir, "ollama.log"@)
}

/// The environment variables the server runs with, in order.
pub open spec fn environment_of(c: ManagedOllamaConfig) -> Seq<(Seq<char>, Seq<char>)> {
    seq![
        ("HOME"@, c.home_dir@),
        ("XDG_DATA_HOME"@, c.home_dir@),
        ("XDG_CACHE_HOME"@, c.cache_dir@),
        ("XDG_CONFIG_HOME"@, c.config_dir@),
        ("OLLAMA_HOST"@, c.host@),
        ("OLLAMA_MODELS"@, c.models_dir@),
        ("OLLAMA_ORIGINS"@, origin_for_host(c.host@)),
    ]
}

pub open spec fn env_views(v: Seq<(&'static str, String)>) -> Seq<(Seq<char>, Seq<char>)> {
    v.map_values(|p: (&'static str, String)| (p.0@, p.1@))
}

impl ManagedOllamaConfig {
    /// The configuration for the default port.
    pub fn from_paths(paths: &AppPaths) -> (r: ManagedOllamaConfig)
        ensures
            config_for(*paths, MANAGED_OLLAMA_DEFAULT_PORT, r),
    {
        Self::from_paths_for_port(paths, MANAGED_OLLAMA_DEFAULT_PORT)
    }

    /// The configuration for a chosen port, once the port is accepted.
    pub fn from_paths_with_port(paths: &AppPaths, port: u16) -> (r: Result<ManagedOllamaConfig>)
        ensures
            port_ok(port) ==> (r matches Ok(c) && config_for(*paths, port, c)),
            !port_ok(port) ==> r == Err::<ManagedOllamaConfig, MooseError>(
                MooseError::ManagedOllamaInvalidPort(port),
            ),
    {
        let port = validate_managed_ollama_port(port)?;
        Ok(Self::from_paths_for_port(paths, port))
    }

    fn from_paths_for_port(paths: &AppPaths, port: u16) -> (r: ManagedOllamaConfig)
        ensures
            config_for(*paths, port, r),
    {
        ManagedOllamaConfig {
            binary_path: paths.ollama_binary_path(),
            host: managed_ollama_host_for_port(port),
            base_url: managed_ollama_base_url_for_port(port),
            models_dir: paths.ollama_models_dir(),
            home_dir: to_owned_string(paths.data_dir()),
            cache_dir: to_owned_string(paths.cache_dir()),
            config_dir: to_owned_string(paths.config_dir()),
            log_path: paths.ollama_log_path(),
        }
    }

    /// The environment the server process is started with: its home, XDG
    /// directories, listening address, model store and accepted origin.
    pub fn environment(&self) -> (r: Vec<(&'static str, String)>)
        ensures
            env_views(r@) == environment_of(*self),
    {
        let mut env: Vec<(&'static str, String)> = Vec::new();
        env.push(("HOME", self.home_dir.clone()));
        env.push(("XDG_DATA_HOME", self.home_dir.clone()));
        env.push(("XDG_CACHE_HOME", self.cache_dir.clone()));
        env.push(("XDG_CONFIG_HOME", self.config_dir.clone()));
        env.push(("OLLAMA_HOST", self.host.clone()));
        env.push(("OLLAMA_MODELS", self.models_dir.clone()));
        env.push(("OLLAMA_ORIGINS", managed_ollama_origin(self.host.as_str())));
        assert(env_views(env@) =~= environment_of(*self));
        env
    }
}

// ----------------------------------------------------------------------
// Startup diagnostics.
// ----------------------------------------------------------------------

/// Trimmed lines that are not blank, in order.
pub open spec fn nonblank_trimmed(lines: Seq<Seq<char>>) -> Seq<Seq<char>>
    decreases lines.len(),
{
    if lines.len() == 0 {
        Seq::empty()
    } else {
        nonblank_trimmed(lines.drop_last()) + if trim(lines.last()).len() == 0 {
            Seq::<Seq<char>>::empty()
        } else {
            seq![trim(lines.last())]
        }
    }
}

pub open spec fn last_lines(s: Seq<Seq<char>>, n: int) -> Seq<Seq<char>> {
    if s.len() > n {
        s.subrange(s.len() - n, s.len() as int)
    } else {
        s
    }
}

/// The last `line_count` non-blank lines of a log, trimmed and joined with ` | `.
pub open spec fn log_excerpt(content: Seq<char>, line_count: nat) -> Option<Seq<char>> {
    let lines = last_lines(nonblank_trimmed(split(content, '\n')), line_count as int);
    if lines.len() == 0 {
        None
    } else {
        Some(join(lines, " | "@))
    }
}

/// The excerpt of a log's content that a failed start reports.
pub fn recent_log_excerpt(content: &str, line_count: usize) -> (r: Option<String>)
    ensures
        match log_excerpt(content@, line_count as nat) {
            Some(e) => r matches Some(s) && s@ == e,
            None => r is None,
        },
{
    let v = chars_of(content);
    let lines = split_chars(v.as_slice(), '\n');
    let mut kept: Vec<String> = Vec::new();
    let mut i: usize = 0;
    while i < lines.len()
        invariant
            i <= lines.len(),
            string_views(lines@) == split(content@, '\n'),
            string_views(kept@) == nonblank_trimmed(string_views(lines@).subrange(0, i as int)),
        decreases lines.len() - i,
    {
        let ghost before = kept@;
        let lv = chars_of(lines[i].as_str());
        let (a, b) = trim_bounds(lv.as_slice());
        assert(string_views(lines@).subrange(0, i + 1).drop_last() =~= string_views(lines@).subrange(0, i as int));
        assert(string_views(lines@).subrange(0, i + 1).last() == lines@[i as int]@);
        if a < b {
            let t = string_from_range(lv.as_slice(), a, b);
            kept.push(t);
            assert(string_views(kept@) =~= string_views(before) + seq![t@]);
        } else {
            assert(string_views(kept@) =~= string_views(before) + Seq::<Seq<char>>::empty());
        }
        i = i + 1;
    }
    assert(string_views(lines@).subrange(0, lines.len() as int) =~= string_views(lines@));
    let start: usize = if kept.len() > line_count {
        kept.len() - line_count
    } else {
        0
    };
    let tail = kept.split_off(start);
    proof {
        assert(string_views(tail@) =~= last_lines(
            nonblank_trimmed(split(content@, '\n')),
            line_count as int,
        ));
    }
    if tail.len() == 0 {
        return None;
    }
    Some(join_strings(tail.as_slice(), " | "))
}

/// Why the server is considered failed when it exits before answering.
pub open spec fn exit_message(excerpt: Option<Seq<char>>) -> Seq<char> {
    match excerpt {
        Some(e) => "process exited before Ollama became ready"@ + ": "@ + e,
        None => "process exited before Ollama became ready"@,
    }
}

/// The message for a server that exited early, with the excerpt of its log.
pub fn startup_exit_message(log_excerpt: Option<&str>) -> (r: String)
    ensures
        r@ == exit_message(match log_excerpt {
            Some(e) => Some(e@),
            None => None,
        }),
{
    let mut message = to_owned_string("process exited before Ollama became ready");
    match log_excerpt {
        Some(excerpt) => {
            push_str(&mut message, ": ");
            push_str(&mut message, excerpt);
        },
        None => {},
    }
    message
}

// ----------------------------------------------------------------------
// Readiness polling.
// ----------------------------------------------------------------------

/// The next wait between readiness checks: twice the last one, at most a second.
pub fn next_ready_backoff_ms(backoff_ms: u64) -> (r: u64)
    ensures
        r == if 2 * backoff_ms < READY_MAX_BACKOFF_MS {
            2 * backoff_ms
        } else {
            READY_MAX_BACKOFF_MS as int
        },
{
    if backoff_ms < READY_MAX_BACKOFF_MS / 2 {
        backoff_ms * 2
    } else {
        READY_MAX_BACKOFF_MS
    }
}

/// The wait before the next check: the backoff, but never past the deadline.
pub fn ready_sleep_ms(backoff_ms: u64, remaining_ms: u64) -> (r: u64)
    ensures
        r == if backoff_ms < remaining_ms {
            backoff_ms
        } else {
            remaining_ms
        },
{
    if backoff_ms < remaining_ms {
        backoff_ms
    } else {
        remaining_ms
    }
}

/// What the wait for a starting server observed last.
#[derive(Clone, Copy, Debug, PartialEq, Eq, Structural)]
pub enum ReadyEvent {
    /// Whether the server's process has exited.
    Child { exited: bool },
    /// Whether the server answered a version request.
    Version { answered: bool },
    /// Whether the deadline has come, and how many milliseconds are left.
    Clock { at_deadline: bool, remaining_ms: u64 },
    /// The sleep between two rounds is over.
    Slept,
}

/// What the wait for a starting server does next.
#[derive(Clone, Copy, Debug, PartialEq, Eq, Structural)]
pub enum ReadyAction {
    CheckChild,
    AskVersion,
    ReadClock,
    Sleep(u64),
    Ready,
    Exited,
    TimedOut,
}

/// The next backoff and action of the wait, given the last event.
pub open spec fn ready_transition(backoff_ms: u64, event: ReadyEvent) -> (u64, ReadyAction) {
    match event {
        ReadyEvent::Child { exited } => if exited {
            (backoff_ms, ReadyAction::Exited)
        } else {
            (backoff_ms, ReadyAction::AskVersion)
        },
        ReadyEvent::Version { answered } => if answered {
            (backoff_ms, ReadyAction::Ready)
        } else {
            (backoff_ms, ReadyAction::ReadClock)
        },
        ReadyEvent::Clock { at_deadline, remaining_ms } => if at_deadline {
            (backoff_ms, ReadyAction::TimedOut)
        } else {
            (backoff_ms, ReadyAction::Sleep(if backoff_ms < remaining_ms { backoff_ms } else { remaining_ms }))
        },
        ReadyEvent::Slept => (
            if 2 * backoff_ms < READY_MAX_BACKOFF_MS { (2 * backoff_ms) as u64 } else { READY_MAX_BACKOFF_MS },
            ReadyAction::CheckChild,
        ),
    }
}

/// One step of the wait for a starting server. A round checks the process
/// first: an exited process fails the start. Then it asks for the version: an
/// answer ends the wait. Then it reads the clock: a reached deadline times the
/// wait out, and otherwise it sleeps for the backoff, never past the deadline,
/// and doubles the backoff (at most a second) for the next round, which starts
/// again with the process. The wait starts with `CheckChild` and a backoff of
/// `READY_INITIAL_BACKOFF_MS`.
pub fn ready_step(backoff_ms: u64, event: ReadyEvent) -> (r: (u64, ReadyAction))
    ensures
        r == ready_transition(backoff_ms, event),
{
    match event {
        ReadyEvent::Child { exited } => if exited {
            (backoff_ms, ReadyAction::Exited)
        } else {
            (backoff_ms, ReadyAction::AskVersion)
        },
        ReadyEvent::Version { answered } => if answered {
            (backoff_ms, ReadyAction::Ready)
        } else {
            (backoff_ms, ReadyAction::ReadClock)
        },
        ReadyEvent::Clock { at_deadline, remaining_ms } => if at_deadline {
            (backoff_ms, ReadyAction::TimedOut)
        } else {
            (backoff_ms, ReadyAction::Sleep(ready_sleep_ms(backoff_ms, remaining_ms)))
        },
        ReadyEvent::Slept => (next_ready_backoff_ms(backoff_ms), ReadyAction::CheckChild),
    }
}

// ----------------------------------------------------------------------
// Checking that the managed server's port is free.
// ----------------------------------------------------------------------

/// What binding the managed server's address found: it could be bound, it is
/// in use, or binding failed otherwise (with the error's text).
pub enum BindOutcome {
    Bound,
    InUse,
    Failed(String),
}

/// The check of a port from what binding its address found: a bound address
/// is free, an address in use is refused as unavailable, and any other
/// failure is a failed start that names the address.
pub fn port_check(host: &str, outcome: BindOutcome) -> (r: Result<()>)
    ensures
        outcome is Bound ==> r is Ok,
        outcome is InUse ==> (r matches Err(MooseError::ManagedOllamaPortUnavailable(h)) && h@ == host@),
        outcome matches BindOutcome::Failed(e) ==> (r matches Err(MooseError::ManagedOllamaStartFailed(m))
            && m@ == "could not check "@ + host@ + ": "@ + e@),
{
    match outcome {
        BindOutcome::Bound => Ok(()),
        BindOutcome::InUse => Err(MooseError::ManagedOllamaPortUnavailable(to_owned_string(host))),
        BindOutcome::Failed(error) => {
            let mut message = to_owned_string("could not check ");
            push_str(&mut message, host);
            push_str(&mut message, ": ");
            push_str(&mut message, error.as_str());
            Err(MooseError::ManagedOllamaStartFailed(message))
        },
    }
}

/// Whether a port is free, from its check: an unavailable port is not free,
/// and any other failure of the check is passed on.
pub fn port_availability(check: Result<()>) -> (r: Result<bool>)
    ensures
        check is Ok ==> r == Ok::<bool, MooseError>(true),
        check matches Err(MooseError::ManagedOllamaPortUnavailable(_)) ==> r == Ok::<bool, MooseError>(false),
        check matches Err(e) ==> (!(e is ManagedOllamaPortUnavailable) ==> r == Err::<bool, MooseError>(e)),
{
    match check {
        Ok(()) => Ok(true),
        Err(MooseError::ManagedOllamaPortUnavailable(_)) => Ok(false),
        Err(error) => Err(error),
    }
}

} // verus!
