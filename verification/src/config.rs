use vstd::prelude::*;
use crate::sys::{clock_reading, random_id, is_v4_uuid_text};

verus! {

/// An instant: whole seconds since the UNIX epoch and nanoseconds past that
/// second (beyond a billion only inside a leap second).
#[derive(Clone, Copy, Debug, PartialEq, Eq, Structural)]
pub struct Timestamp {
    pub secs: i64,
    pub nanos: u32,
}

/// The instant `secs` seconds and `nanos` nanoseconds after the UNIX epoch
/// (`after`) or before it, as whole seconds (rounded down) and the
/// nanoseconds past them; seconds beyond the range of `i64` are clamped.
pub open spec fn epoch_timestamp(after: bool, secs: u64, nanos: u32) -> Timestamp {
    if after {
        Timestamp { secs: if secs <= i64::MAX { secs as i64 } else { i64::MAX }, nanos }
    } else if nanos == 0 {
        Timestamp { secs: if secs <= i64::MAX { (-secs) as i64 } else { i64::MIN }, nanos: 0 }
    } else {
        Timestamp {
            secs: if secs < i64::MAX { (-secs - 1) as i64 } else { i64::MIN },
            nanos: (1_000_000_000 - nanos) as u32,
        }
    }
}

impl Timestamp {
    /// The instant an offset from the UNIX epoch denotes.
    pub fn from_epoch_offset(after: bool, secs: u64, nanos: u32) -> (res: Timestamp)
        requires
            nanos < 1_000_000_000,
        ensures
            res == epoch_timestamp(after, secs, nanos),
            res.nanos < 1_000_000_000,
    {
        if after {
            Timestamp { secs: if secs <= i64::MAX as u64 { secs as i64 } else { i64::MAX }, nanos }
        } else if nanos == 0 {
            Timestamp { secs: if secs <= i64::MAX as u64 { -(secs as i64) } else { i64::MIN }, nanos: 0 }
        } else {
            Timestamp {
                secs: if secs < i64::MAX as u64 { -(secs as i64) - 1 } else { i64::MIN },
                nanos: 1_000_000_000 - nanos,
            }
        }
    }

    /// The current time, read from the system clock (before 1970 too).
    pub fn now() -> (res: Timestamp)
        ensures
            res.nanos < 1_000_000_000,
            exists|after: bool, secs: u64, nanos: u32|
                nanos < 1_000_000_000 && res == epoch_timestamp(after, secs, nanos),
    {
        match clock_reading() {
            Ok((secs, nanos)) => Timestamp::from_epoch_offset(true, secs, nanos),
            Err((secs, nanos)) => Timestamp::from_epoch_offset(false, secs, nanos),
        }
    }
}

/// How a process is started and watched.
#[derive(Debug)]
pub struct ProcessConfig {
    pub id: String,
    pub name: String,
    pub command: String,
    pub args: Vec<String>,
    pub working_dir: Option<String>,
    pub env_vars: Vec<(String, String)>,
    pub health_check_url: Option<String>,
    pub health_check_interval_secs: u64,
    pub auto_restart: bool,
    pub log_path: String,
    pub enabled: bool,
    pub last_pid: Option<u32>,
    pub created_at: Timestamp,
    pub updated_at: Timestamp,
}

/// The mathematical value of a `ProcessConfig`.
pub struct ProcessConfigView {
    pub id: Seq<char>,
    pub name: Seq<char>,
    pub command: Seq<char>,
    pub args: Seq<Seq<char>>,
    pub working_dir: Option<Seq<char>>,
    pub env_vars: Seq<(Seq<char>, Seq<char>)>,
    pub health_check_url: Option<Seq<char>>,
    pub health_check_interval_secs: u64,
    pub auto_restart: bool,
    pub log_path: Seq<char>,
    pub enabled: bool,
    pub last_pid: Option<u32>,
    pub created_at: Timestamp,
    pub updated_at: Timestamp,
}

impl View for ProcessConfig {
    type V = ProcessConfigView;

    open spec fn view(&self) -> ProcessConfigView {
        ProcessConfigView {
            id: self.id@,
            name: self.name@,
            command: self.command@,
            args: self.args.deep_view(),
            working_dir: self.working_dir.deep_view(),
            env_vars: self.env_vars.deep_view(),
            health_check_url: self.health_check_url.deep_view(),
            health_check_interval_secs: self.health_check_interval_secs,
            auto_restart: self.auto_restart,
            log_path: self.log_path@,
            enabled: self.enabled,
            last_pid: self.last_pid,
            created_at: self.created_at,
            updated_at: self.updated_at,
        }
    }
}

/// Seconds between two health checks unless configured otherwise.
pub const DEFAULT_HEALTH_CHECK_INTERVAL_SECS: u64 = 600;

/// The configuration that `ProcessConfig::new` makes: the given id, name and
/// command, no arguments, directory, environment or health check, a check
/// interval of ten minutes, automatic restart, the default log path, enabled,
/// no recorded pid, created and updated at `now`.
pub open spec fn fresh_config(
    id: Seq<char>,
    name: Seq<char>,
    command: Seq<char>,
    now: Timestamp,
) -> ProcessConfigView {
    ProcessConfigView {
        id,
        name,
        command,
        args: seq![],
        working_dir: None,
        env_vars: seq![],
        health_check_url: None,
        health_check_interval_secs: DEFAULT_HEALTH_CHECK_INTERVAL_SECS,
        auto_restart: true,
        log_path: seq![],
        enabled: true,
        last_pid: None,
        created_at: now,
        updated_at: now,
    }
}

fn copy_strings(v: &Vec<String>) -> (res: Vec<String>)
    ensures
        res.deep_view() == v.deep_view(),
{
    let mut res: Vec<String> = Vec::new();
    for i in 0..v.len()
        invariant
            res@.len() == i,
            forall|j: int| 0 <= j < i ==> #[trigger] res@[j]@ == v@[j]@,
    {
        res.push(v[i].clone());
    }
    assert(res.deep_view() =~= v.deep_view());
    res
}

fn copy_pairs(v: &Vec<(String, String)>) -> (res: Vec<(String, String)>)
    ensures
        res.deep_view() == v.deep_view(),
{
    let mut res: Vec<(String, String)> = Vec::new();
    for i in 0..v.len()
        invariant
            res@.len() == i,
            forall|j: int| 0 <= j < i ==> #[trigger] res@[j].deep_view() == v@[j].deep_view(),
    {
        let key = v[i].0.clone();
        let value = v[i].1.clone();
        res.push((key, value));
    }
    assert(res.deep_view() =~= v.deep_view());
    res
}

fn copy_text(o: &Option<String>) -> (res: Option<String>)
    ensures
        res.deep_view() == o.deep_view(),
{
    match o {
        Some(s) => Some(s.clone()),
        None => None,
    }
}

impl ProcessConfig {
    /// A new enabled configuration with a fresh random id and default settings.
    pub fn new(name: String, command: String) -> (res: Self)
        ensures
            is_v4_uuid_text(res@.id),
            res@ == fresh_config(res@.id, name@, command@, res@.created_at),
            res@.created_at.nanos < 1_000_000_000,
    {
        let now = Timestamp::now();
        let res = ProcessConfig {
            id: random_id(),
            name,
            command,
            args: Vec::new(),
            working_dir: None,
            env_vars: Vec::new(),
            health_check_url: None,
            health_check_interval_secs: DEFAULT_HEALTH_CHECK_INTERVAL_SECS,
            auto_restart: true,
            log_path: String::new(),
            enabled: true,
            last_pid: None,
            created_at: now,
            updated_at: now,
        };
        assert(res.args.deep_view() =~= seq![]);
        assert(res.env_vars.deep_view() =~= seq![]);
        assert(res.log_path@ =~= seq![]);
        res
    }

    /// A copy with the same value.
    pub fn duplicate(&self) -> (res: Self)
        ensures
            res@ == self@,
    {
        ProcessConfig {
            id: self.id.clone(),
            name: self.name.clone(),
            command: self.command.clone(),
            args: copy_strings(&self.args),
            working_dir: copy_text(&self.working_dir),
            env_vars: copy_pairs(&self.env_vars),
            health_check_url: copy_text(&self.health_check_url),
            health_check_interval_secs: self.health_check_interval_secs,
            auto_restart: self.auto_restart,
            log_path: self.log_path.clone(),
            enabled: self.enabled,
            last_pid: self.last_pid,
            created_at: self.created_at,
            updated_at: self.updated_at,
        }
    }
}

/// Every configured process, in the order they were added.
#[derive(Debug)]
pub struct AppConfig {
    pub processes: Vec<ProcessConfig>,
}

impl View for AppConfig {
    type V = Seq<ProcessConfigView>;

    open spec fn view(&self) -> Seq<ProcessConfigView> {
        self.processes@.map_values(|p: ProcessConfig| p@)
    }
}

impl AppConfig {
    /// The configuration with no processes, used when no file exists yet.
    pub fn new() -> (res: Self)
        ensures
            res@ == Seq::<ProcessConfigView>::empty(),
    {
        let res = AppConfig { processes: Vec::new() };
        assert(res@ =~= Seq::<ProcessConfigView>::empty());
        res
    }
}

/// The separator that joins path components.
pub const SEPARATOR: char = '/';

/// What `base` joined with `name` denotes: a name that starts at the root
/// replaces the base; otherwise the two are joined by one separator, unless
/// the base is empty or already ends with one.
pub open spec fn joined(base: Seq<char>, name: Seq<char>) -> Seq<char> {
    if name.len() > 0 && name[0] == SEPARATOR {
        name
    } else if base.len() == 0 || base.last() == SEPARATOR {
        base + name
    } else {
        base + seq![SEPARATOR] + name
    }
}

/// Joins a path component onto a base path.
pub fn join_path(base: &str, name: &str) -> (res: String)
    ensures
        res@ == joined(base@, name@),
{
    let name_len = name.unicode_len();
    if name_len > 0 && name.get_char(0) == SEPARATOR {
        return name.to_owned();
    }
    let base_len = base.unicode_len();
    let mut res = base.to_owned();
    if !(base_len == 0 || base.get_char(base_len - 1) == SEPARATOR) {
        res.append("/");
    }
    res.append(name);
    proof {
        reveal_strlit("/");
    }
    res
}

/// Where the configuration file lives inside the configuration directory.
pub fn get_config_path(config_dir: &str) -> (res: String)
    ensures
        res@ == joined(config_dir@, "config.json"@),
{
    join_path(config_dir, "config.json")
}

/// The application's configuration directory inside the user's
/// configuration directory `base`: `<base>/rsigild/config` where programs
/// are named plainly (Linux), `<base>/com.rsigild.rsigild/config` where
/// they are named by bundle identifier (Windows, macOS).
pub open spec fn app_config_dir_text(base: Seq<char>, bundle_named: bool) -> Seq<char> {
    joined(joined(base, if bundle_named { "com.rsigild.rsigild"@ } else { "rsigild"@ }), "config"@)
}

/// The application's configuration directory inside the user's configuration directory.
pub fn app_config_dir(base: &str, bundle_named: bool) -> (res: String)
    ensures
        res@ == app_config_dir_text(base@, bundle_named),
{
    let app = if bundle_named {
        join_path(base, "com.rsigild.rsigild")
    } else {
        join_path(base, "rsigild")
    };
    join_path(app.as_str(), "config")
}

/// Whether a process logs to the default place, having no log path of its own.
pub fn uses_default_log_path(config: &ProcessConfig) -> (res: bool)
    ensures
        res == (config@.log_path.len() == 0),
{
    config.log_path.as_str().is_empty()
}

/// The directory that holds the log files.
pub open spec fn log_dir_text(config_dir: Seq<char>) -> Seq<char> {
    joined(config_dir, "logs"@)
}

/// Where a process's output goes: its own log path when one is set,
/// otherwise `<config_dir>/logs/<id>.log`.
pub open spec fn process_log_path_text(config: ProcessConfigView, config_dir: Seq<char>) -> Seq<
    char,
> {
    if config.log_path.len() == 0 {
        joined(log_dir_text(config_dir), config.id + ".log"@)
    } else {
        config.log_path
    }
}

/// The directory that holds the log files, inside the configuration directory.
pub fn log_dir(config_dir: &str) -> (res: String)
    ensures
        res@ == log_dir_text(config_dir@),
{
    join_path(config_dir, "logs")
}

/// Where the application's own log is written: `<config_dir>/logs/rsigild.log`.
pub fn app_log_path(config_dir: &str) -> (res: String)
    ensures
        res@ == joined(log_dir_text(config_dir@), "rsigild.log"@),
{
    let dir = log_dir(config_dir);
    join_path(dir.as_str(), "rsigild.log")
}

/// Where the output of a process is written.
pub fn process_log_path(config: &ProcessConfig, config_dir: &str) -> (res: String)
    ensures
        res@ == process_log_path_text(config@, config_dir@),
{
    if config.log_path.as_str().is_empty() {
        let dir = log_dir(config_dir);
        let mut file = config.id.clone();
        file.append(".log");
        join_path(dir.as_str(), file.as_str())
    } else {
        config.log_path.clone()
    }
}

} // verus!
