//! The daemon manager's bookkeeping: which processes are configured, which
//! are being watched, and what each request does to them. Spawning, killing,
//! probing and saving happen outside; their outcomes come in as arguments.
use vstd::prelude::*;
use crate::config::{
    AppConfig, ProcessConfig, ProcessConfigView, Timestamp, process_log_path,
    process_log_path_text,
};

verus! {

/// What is known of a watched process.
#[derive(Debug)]
pub struct ProcessStatus {
    pub id: String,
    pub running: bool,
    pub pid: Option<u32>,
    pub last_health_check: Option<Timestamp>,
    pub health_check_ok: Option<bool>,
    pub restart_count: u32,
    pub last_restart: Option<Timestamp>,
    pub last_error: Option<String>,
}

/// The mathematical value of a `ProcessStatus`.
pub struct ProcessStatusView {
    pub id: Seq<char>,
    pub running: bool,
    pub pid: Option<u32>,
    pub last_health_check: Option<Timestamp>,
    pub health_check_ok: Option<bool>,
    pub restart_count: u32,
    pub last_restart: Option<Timestamp>,
    pub last_error: Option<Seq<char>>,
}

impl View for ProcessStatus {
    type V = ProcessStatusView;

    open spec fn view(&self) -> ProcessStatusView {
        ProcessStatusView {
            id: self.id@,
            running: self.running,
            pid: self.pid,
            last_health_check: self.last_health_check,
            health_check_ok: self.health_check_ok,
            restart_count: self.restart_count,
            last_restart: self.last_restart,
            last_error: self.last_error.deep_view(),
        }
    }
}

/// The status of a process that is not running: no pid, no checks, no restarts.
pub open spec fn idle_status(id: Seq<char>) -> ProcessStatusView {
    ProcessStatusView {
        id,
        running: false,
        pid: None,
        last_health_check: None,
        health_check_ok: None,
        restart_count: 0,
        last_restart: None,
        last_error: None,
    }
}

/// The status of a process just started with `pid`.
pub open spec fn started_status(id: Seq<char>, pid: u32) -> ProcessStatusView {
    ProcessStatusView { running: true, pid: Some(pid), ..idle_status(id) }
}

impl ProcessStatus {
    /// The status reported for a process that is not running.
    pub fn idle(id: &str) -> (res: Self)
        ensures
            res@ == idle_status(id@),
    {
        ProcessStatus {
            id: id.to_owned(),
            running: false,
            pid: None,
            last_health_check: None,
            health_check_ok: None,
            restart_count: 0,
            last_restart: None,
            last_error: None,
        }
    }

    /// The status of a process just started with `pid`.
    pub fn started(id: &str, pid: u32) -> (res: Self)
        ensures
            res@ == started_status(id@, pid),
    {
        ProcessStatus {
            id: id.to_owned(),
            running: true,
            pid: Some(pid),
            last_health_check: None,
            health_check_ok: None,
            restart_count: 0,
            last_restart: None,
            last_error: None,
        }
    }

    /// A copy with the same value.
    pub fn duplicate(&self) -> (res: Self)
        ensures
            res@ == self@,
    {
        ProcessStatus {
            id: self.id.clone(),
            running: self.running,
            pid: self.pid,
            last_health_check: self.last_health_check,
            health_check_ok: self.health_check_ok,
            restart_count: self.restart_count,
            last_restart: self.last_restart,
            last_error: match &self.last_error {
                Some(e) => Some(e.clone()),
                None => None,
            },
        }
    }
}

/// A process being watched: the configuration it was started with and its status.
#[derive(Debug)]
pub struct RunningProcess {
    pub config: ProcessConfig,
    pub status: ProcessStatus,
}

/// The mathematical value of a `RunningProcess`.
pub struct RunningView {
    pub config: ProcessConfigView,
    pub status: ProcessStatusView,
}

impl View for RunningProcess {
    type V = RunningView;

    open spec fn view(&self) -> RunningView {
        RunningView { config: self.config@, status: self.status@ }
    }
}

/// What a probe of a watched child found: its pid and whether it still runs.
#[derive(Clone, Copy, Debug, PartialEq, Eq, Structural)]
pub struct ChildProbe {
    pub pid: u32,
    pub alive: bool,
}

/// What an update of a configuration asks of the process.
#[derive(Clone, Copy, Debug, PartialEq, Eq, Structural)]
pub enum UpdatePlan {
    /// Leave it as it is.
    Keep,
    /// Stop it.
    Stop,
    /// Stop it and start it again with the new configuration.
    Restart,
}

/// Why a request was refused.
#[derive(Debug)]
pub enum DaemonError {
    /// A process with this id is configured already.
    AlreadyExists(String),
    /// No process with the requested id is configured.
    NotFound,
    /// The named process could not be spawned, for the given reason.
    StartFailed(String, String),
    /// Preparing to start a process failed (its log file, say), for the given reason.
    Io(String),
}

/// The state of a daemon manager: the configured processes, in order, and
/// the watched ones, in the order they were started.
pub struct DaemonView {
    pub processes: Seq<ProcessConfigView>,
    pub running: Seq<RunningView>,
}

/// The index of the first configured process with `id`.
pub open spec fn process_index(ps: Seq<ProcessConfigView>, id: Seq<char>) -> Option<int>
    decreases ps.len(),
{
    if ps.len() == 0 {
        None
    } else if ps[0].id == id {
        Some(0)
    } else {
        match process_index(ps.drop_first(), id) {
            Some(i) => Some(i + 1),
            None => None,
        }
    }
}

/// The index of the first watched process with `id`.
pub open spec fn running_index(rs: Seq<RunningView>, id: Seq<char>) -> Option<int>
    decreases rs.len(),
{
    if rs.len() == 0 {
        None
    } else if rs[0].config.id == id {
        Some(0)
    } else {
        match running_index(rs.drop_first(), id) {
            Some(i) => Some(i + 1),
            None => None,
        }
    }
}

pub(crate) proof fn lemma_process_index(ps: Seq<ProcessConfigView>, id: Seq<char>, i: int)
    requires
        0 <= i <= ps.len(),
        forall|j: int| 0 <= j < i ==> #[trigger] ps[j].id != id,
        i < ps.len() ==> ps[i].id == id,
    ensures
        process_index(ps, id) == (if i < ps.len() { Some(i) } else { None::<int> }),
    decreases ps.len(),
{
    if ps.len() > 0 && i > 0 {
        assert forall|j: int| 0 <= j < i - 1 implies #[trigger] ps.drop_first()[j].id != id by {
            assert(ps.drop_first()[j] == ps[j + 1]);
        }
        lemma_process_index(ps.drop_first(), id, i - 1);
    }
}

pub(crate) proof fn lemma_running_index(rs: Seq<RunningView>, id: Seq<char>, i: int)
    requires
        0 <= i <= rs.len(),
        forall|j: int| 0 <= j < i ==> #[trigger] rs[j].config.id != id,
        i < rs.len() ==> rs[i].config.id == id,
    ensures
        running_index(rs, id) == (if i < rs.len() { Some(i) } else { None::<int> }),
    decreases rs.len(),
{
    if rs.len() > 0 && i > 0 {
        assert forall|j: int| 0 <= j < i - 1 implies #[trigger] rs.drop_first()[j].config.id
            != id by {
            assert(rs.drop_first()[j] == rs[j + 1]);
        }
        lemma_running_index(rs.drop_first(), id, i - 1);
    }
}

/// The first match is a match, and nothing before it matches.
pub(crate) proof fn lemma_running_index_found(rs: Seq<RunningView>, id: Seq<char>)
    ensures
        running_index(rs, id) matches Some(k) ==> 0 <= k < rs.len() && rs[k].config.id == id
            && forall|j: int| 0 <= j < k ==> #[trigger] rs[j].config.id != id,
        running_index(rs, id) is None ==> forall|j: int|
            0 <= j < rs.len() ==> #[trigger] rs[j].config.id != id,
    decreases rs.len(),
{
    if rs.len() > 0 {
        let t = rs.drop_first();
        lemma_running_index_found(t, id);
        if rs[0].config.id != id {
            match running_index(t, id) {
                Some(k) => {
                    assert forall|j: int| 0 <= j < k + 1 implies #[trigger] rs[j].config.id != id by {
                        if j > 0 {
                            assert(rs[j] == t[j - 1]);
                        }
                    }
                },
                None => {
                    assert forall|j: int| 0 <= j < rs.len() implies #[trigger] rs[j].config.id
                        != id by {
                        if j > 0 {
                            assert(rs[j] == t[j - 1]);
                        }
                    }
                },
            }
        }
    }
}

/// The first match is a match, and nothing before it matches.
pub(crate) proof fn lemma_process_index_found(ps: Seq<ProcessConfigView>, id: Seq<char>)
    ensures
        process_index(ps, id) matches Some(k) ==> 0 <= k < ps.len() && ps[k].id == id && forall|
            j: int,
        | 0 <= j < k ==> #[trigger] ps[j].id != id,
        process_index(ps, id) is None ==> forall|j: int| 0 <= j < ps.len() ==> #[trigger] ps[j].id != id,
    decreases ps.len(),
{
    if ps.len() > 0 {
        let t = ps.drop_first();
        lemma_process_index_found(t, id);
        if ps[0].id != id {
            match process_index(t, id) {
                Some(k) => {
                    assert forall|j: int| 0 <= j < k + 1 implies #[trigger] ps[j].id != id by {
                        if j > 0 {
                            assert(ps[j] == t[j - 1]);
                        }
                    }
                },
                None => {
                    assert forall|j: int| 0 <= j < ps.len() implies #[trigger] ps[j].id != id by {
                        if j > 0 {
                            assert(ps[j] == t[j - 1]);
                        }
                    }
                },
            }
        }
    }
}

/// A configuration with a recorded pid and time of change.
pub open spec fn with_pid(c: ProcessConfigView, pid: Option<u32>, now: Timestamp) -> ProcessConfigView {
    ProcessConfigView { last_pid: pid, updated_at: now, ..c }
}

/// The configured processes with the first one of `id` given a recorded pid
/// and time of change; unchanged when none has that id.
pub open spec fn mark_pid(
    ps: Seq<ProcessConfigView>,
    id: Seq<char>,
    pid: Option<u32>,
    now: Timestamp,
) -> Seq<ProcessConfigView> {
    match process_index(ps, id) {
        Some(k) => ps.update(k, with_pid(ps[k], pid, now)),
        None => ps,
    }
}

/// A restart counter after one more restart; it wraps around past `u32::MAX`.
pub open spec fn next_count(count: u32) -> u32 {
    if count < u32::MAX {
        (count + 1) as u32
    } else {
        0
    }
}

/// Keeps the configurations whose id differs from `id`.
pub open spec fn other_id(id: Seq<char>) -> spec_fn(ProcessConfigView) -> bool {
    |c: ProcessConfigView| c.id != id
}

/// What an update from `old` to `new` asks of the process: stop it when it
/// gets disabled; restart it when it stays or becomes enabled and was
/// disabled or changes its command, arguments or working directory.
pub open spec fn update_plan(old: ProcessConfigView, new: ProcessConfigView) -> UpdatePlan {
    if old.enabled && !new.enabled {
        UpdatePlan::Stop
    } else if new.enabled && (!old.enabled || old.command != new.command || old.args != new.args
        || old.working_dir != new.working_dir) {
        UpdatePlan::Restart
    } else {
        UpdatePlan::Keep
    }
}

/// The pids of the watched processes that have one, in order.
pub open spec fn pids_of(rs: Seq<RunningView>) -> Seq<u32>
    decreases rs.len(),
{
    if rs.len() == 0 {
        seq![]
    } else {
        let rest = pids_of(rs.drop_last());
        match rs.last().status.pid {
            Some(p) => rest.push(p),
            None => rest,
        }
    }
}

/// A watched process as it is handed back once stopped: not running, no pid.
pub open spec fn stopped_record(r: RunningView) -> RunningView {
    RunningView { status: ProcessStatusView { running: false, pid: None, ..r.status }, ..r }
}

impl DaemonView {
    /// The state after stopping `id`: its record leaves the watched processes
    /// and its configuration forgets the pid; nothing changes when it is not watched.
    pub open spec fn after_stop(self, id: Seq<char>, now: Timestamp) -> DaemonView {
        match running_index(self.running, id) {
            Some(k) => DaemonView {
                processes: mark_pid(self.processes, id, None, now),
                running: self.running.remove(k),
            },
            None => self,
        }
    }

    /// The state after `config` was started as `pid`: any earlier record of
    /// its id is replaced by a fresh one at the end, and its configuration
    /// records the pid.
    pub open spec fn after_start(self, config: ProcessConfigView, pid: u32, now: Timestamp) -> DaemonView {
        let rest = match running_index(self.running, config.id) {
            Some(k) => self.running.remove(k),
            None => self.running,
        };
        DaemonView {
            processes: mark_pid(self.processes, config.id, Some(pid), now),
            running: rest.push(RunningView { config, status: started_status(config.id, pid) }),
        }
    }

    /// The state after `config` is appended to the configured processes.
    pub open spec fn after_add(self, config: ProcessConfigView) -> DaemonView {
        DaemonView { processes: self.processes.push(config), ..self }
    }

    /// The state after removing `id`: stopped, and every configuration with
    /// that id gone, the others kept in order.
    pub open spec fn after_remove(self, id: Seq<char>, now: Timestamp) -> DaemonView {
        let s = self.after_stop(id, now);
        DaemonView { processes: s.processes.filter(other_id(id)), running: s.running }
    }

    /// The state after the first configuration of `config.id` is replaced by `config`.
    pub open spec fn after_update(self, config: ProcessConfigView) -> DaemonView {
        match process_index(self.processes, config.id) {
            Some(k) => DaemonView { processes: self.processes.update(k, config), ..self },
            None => self,
        }
    }

    /// A status request for `id` given what a probe of its child found: the
    /// resulting state, the status reported, and whether the process was
    /// dropped from watch. An unwatched id reports the idle status; a child
    /// found dead is stopped and reports the idle status; a live child has
    /// its pid recorded; with no child the status is reported as it stands.
    /// A watched process that is not running has no child (its restart
    /// failed), so no probe is consulted for it.
    pub open spec fn status_request(self, id: Seq<char>, probe: Option<ChildProbe>, now: Timestamp) -> (
        DaemonView,
        ProcessStatusView,
        bool,
    ) {
        match running_index(self.running, id) {
            None => (self, idle_status(id), false),
            Some(k) => if !self.running[k].status.running {
                (self, self.running[k].status, false)
            } else {
                match probe {
                None => (self, self.running[k].status, false),
                Some(p) => if p.alive {
                    let r = self.running[k];
                    let st = ProcessStatusView { pid: Some(p.pid), ..r.status };
                    (
                        DaemonView {
                            running: self.running.update(k, RunningView { status: st, ..r }),
                            ..self
                        },
                        st,
                        false,
                    )
                } else {
                    (self.after_stop(id, now), idle_status(id), true)
                },
                }
            },
        }
    }

    /// A health check result for `id`: the time and the outcome are recorded;
    /// a failed check of a process that restarts automatically counts a
    /// restart (the counter wraps around) and asks for one. An unwatched id
    /// changes nothing.
    pub open spec fn health_check(self, id: Seq<char>, ok: bool, now: Timestamp) -> (DaemonView, bool) {
        match running_index(self.running, id) {
            None => (self, false),
            Some(k) => {
                let r = self.running[k];
                let restart = !ok && r.config.auto_restart;
                let st = ProcessStatusView {
                    last_health_check: Some(now),
                    health_check_ok: Some(ok),
                    restart_count: if restart {
                        next_count(r.status.restart_count)
                    } else {
                        r.status.restart_count
                    },
                    last_restart: if restart {
                        Some(now)
                    } else {
                        r.status.last_restart
                    },
                    ..r.status
                };
                (DaemonView { running: self.running.update(k, RunningView { status: st, ..r }), ..self }, restart)
            },
        }
    }

    /// The state after a restart of `id` gave `pid` (`None`: the spawn failed).
    pub open spec fn after_restart(self, id: Seq<char>, pid: Option<u32>) -> DaemonView {
        match running_index(self.running, id) {
            None => self,
            Some(k) => {
                let r = self.running[k];
                let st = ProcessStatusView { running: pid is Some, pid, ..r.status };
                DaemonView { running: self.running.update(k, RunningView { status: st, ..r }), ..self }
            },
        }
    }

    /// Each watched process is watched once, under the id of its status, and
    /// runs exactly when it has a pid.
    pub open spec fn wf(self) -> bool {
        &&& forall|i: int, j: int|
            0 <= i < j < self.running.len() ==> #[trigger] self.running[i].config.id
                != #[trigger] self.running[j].config.id
        &&& forall|i: int|
            0 <= i < self.running.len() ==> #[trigger] self.running[i].status.id
                == self.running[i].config.id
        &&& forall|i: int|
            0 <= i < self.running.len() ==> (#[trigger] self.running[i].status.running
                <==> self.running[i].status.pid is Some)
    }
}

fn same_strings(a: &Vec<String>, b: &Vec<String>) -> (res: bool)
    ensures
        res == (a.deep_view() == b.deep_view()),
{
    if a.len() != b.len() {
        assert(a.deep_view().len() != b.deep_view().len());
        return false;
    }
    for i in 0..a.len()
        invariant
            a@.len() == b@.len(),
            forall|j: int| 0 <= j < i ==> #[trigger] a@[j]@ == b@[j]@,
    {
        if a[i] != b[i] {
            assert(a.deep_view()[i as int] != b.deep_view()[i as int]);
            return false;
        }
    }
    assert(a.deep_view() =~= b.deep_view());
    true
}

fn same_text_opt(a: &Option<String>, b: &Option<String>) -> (res: bool)
    ensures
        res == (a.deep_view() == b.deep_view()),
{
    match (a, b) {
        (Some(x), Some(y)) => *x == *y,
        (None, None) => true,
        _ => false,
    }
}

/// Prepares the console that started processes attach to; there is nothing
/// to prepare outside Windows.
pub fn init_hidden_console() {
}

/// Decides what an update from `old` to `new` asks of the process.
pub fn plan_for(old: &ProcessConfig, new: &ProcessConfig) -> (res: UpdatePlan)
    ensures
        res == update_plan(old@, new@),
{
    if old.enabled && !new.enabled {
        UpdatePlan::Stop
    } else if new.enabled && (!old.enabled || old.command != new.command || !same_strings(
        &old.args,
        &new.args,
    ) || !same_text_opt(&old.working_dir, &new.working_dir)) {
        UpdatePlan::Restart
    } else {
        UpdatePlan::Keep
    }
}

impl DaemonError {
    /// The text that reports this error.
    pub fn message(&self) -> (res: String)
        ensures
            res@ == match self {
                DaemonError::AlreadyExists(id) => "Process with id "@ + id@ + " already exists"@,
                DaemonError::NotFound => "Process not found"@,
                DaemonError::StartFailed(name, reason) => "Failed to start process "@ + name@
                    + ": "@ + reason@,
                DaemonError::Io(reason) => reason@,
            },
    {
        match self {
            DaemonError::AlreadyExists(id) => {
                let mut res = String::from_str("Process with id ");
                res.append(id.as_str());
                res.append(" already exists");
                res
            },
            DaemonError::NotFound => String::from_str("Process not found"),
            DaemonError::Io(reason) => reason.clone(),
            DaemonError::StartFailed(name, reason) => {
                let mut res = String::from_str("Failed to start process ");
                res.append(name.as_str());
                res.append(": ");
                res.append(reason.as_str());
                res
            },
        }
    }
}

/// Manages the configured processes and the watched ones.
pub struct DaemonManager {
    config: AppConfig,
    running_processes: Vec<RunningProcess>,
}

impl View for DaemonManager {
    type V = DaemonView;

    closed spec fn view(&self) -> DaemonView {
        DaemonView {
            processes: self.config@,
            running: self.running_processes@.map_values(|r: RunningProcess| r@),
        }
    }
}

impl DaemonManager {
    /// A manager for a loaded configuration, watching nothing yet.
    pub fn new(config: AppConfig) -> (res: Self)
        ensures
            res@.processes == config@,
            res@.running == Seq::<RunningView>::empty(),
            res@.wf(),
    {
        let res = DaemonManager { config, running_processes: Vec::new() };
        assert(res@.running =~= Seq::<RunningView>::empty());
        res
    }

    /// The configuration as it stands.
    pub fn app_config(&self) -> (res: &AppConfig)
        ensures
            res@ == self@.processes,
    {
        &self.config
    }

    /// Copies of all configured processes, in order.
    pub fn get_processes(&self) -> (res: Vec<ProcessConfig>)
        ensures
            res@.map_values(|p: ProcessConfig| p@) == self@.processes,
    {
        let ps = &self.config.processes;
        let mut res: Vec<ProcessConfig> = Vec::new();
        for i in 0..ps.len()
            invariant
                ps == &self.config.processes,
                res@.len() == i,
                forall|j: int| 0 <= j < i ==> #[trigger] res@[j]@ == ps@[j]@,
        {
            res.push(ps[i].duplicate());
        }
        assert(res@.map_values(|p: ProcessConfig| p@) =~= self@.processes);
        res
    }

    fn find_process(&self, id: &str) -> (res: Option<usize>)
        ensures
            match res {
                Some(k) => k < self.config.processes@.len() && process_index(self@.processes, id@)
                    == Some(k as int),
                None => process_index(self@.processes, id@) is None,
            },
    {
        let ps = &self.config.processes;
        let key = id.to_owned();
        let n = ps.len();
        for i in 0..n
            invariant
                ps == &self.config.processes,
                n == ps@.len(),
                key@ == id@,
                forall|j: int| 0 <= j < i ==> #[trigger] ps@[j].id@ != id@,
        {
            if ps[i].id == key {
                proof {
                    lemma_process_index(self@.processes, id@, i as int);
                }
                return Some(i);
            }
        }
        proof {
            lemma_process_index(self@.processes, id@, n as int);
        }
        None
    }

    fn find_running(&self, id: &str) -> (res: Option<usize>)
        ensures
            match res {
                Some(k) => k < self.running_processes@.len() && running_index(self@.running, id@)
                    == Some(k as int),
                None => running_index(self@.running, id@) is None,
            },
    {
        let rs = &self.running_processes;
        let key = id.to_owned();
        let n = rs.len();
        for i in 0..n
            invariant
                rs == &self.running_processes,
                n == rs@.len(),
                key@ == id@,
                forall|j: int| 0 <= j < i ==> #[trigger] rs@[j].config.id@ != id@,
        {
            if rs[i].config.id == key {
                proof {
                    lemma_running_index(self@.running, id@, i as int);
                }
                return Some(i);
            }
        }
        proof {
            lemma_running_index(self@.running, id@, n as int);
        }
        None
    }

    fn mark_process_pid(&mut self, id: &str, pid: Option<u32>, now: Timestamp)
        ensures
            final(self)@ == (DaemonView {
                processes: mark_pid(old(self)@.processes, id@, pid, now),
                running: old(self)@.running,
            }),
    {
        match self.find_process(id) {
            Some(k) => {
                let ghost old_ps = self.config.processes@;
                let mut c = self.config.processes.remove(k);
                c.last_pid = pid;
                c.updated_at = now;
                self.config.processes.insert(k, c);
                assert(self.config.processes@ =~= old_ps.update(k as int, c));
                assert(self@.processes =~= mark_pid(old(self)@.processes, id@, pid, now));
            },
            None => {},
        }
    }

    /// Forgets that `id` is watched and that its configuration has a pid,
    /// handing back the record, marked stopped, so that its child can be
    /// killed; does nothing when `id` is not watched.
    pub fn stop_process(&mut self, id: &str, now: Timestamp) -> (res: Option<RunningProcess>)
        ensures
            final(self)@ == old(self)@.after_stop(id@, now),
            old(self)@.wf() ==> final(self)@.wf(),
            match running_index(old(self)@.running, id@) {
                Some(k) => res matches Some(r) && r@ == stopped_record(old(self)@.running[k]),
                None => res is None,
            },
    {
        match self.find_running(id) {
            None => None,
            Some(k) => {
                let ghost old_rs = self@.running;
                let mut rec = self.running_processes.remove(k);
                rec.status.running = false;
                rec.status.pid = None;
                assert(self@.running =~= old_rs.remove(k as int));
                self.mark_process_pid(id, None, now);
                Some(rec)
            },
        }
    }

    /// Records that `config` was started as `pid`: the process is watched
    /// with a fresh status (replacing any earlier record of its id) and its
    /// configuration, if present, records the pid and the time.
    pub fn record_start(&mut self, config: &ProcessConfig, pid: u32, now: Timestamp)
        ensures
            final(self)@ == old(self)@.after_start(config@, pid, now),
            old(self)@.wf() ==> final(self)@.wf(),
    {
        let ghost old_rs = self@.running;
        match self.find_running(config.id.as_str()) {
            Some(k) => {
                let _ = self.running_processes.remove(k);
                assert(self@.running =~= old_rs.remove(k as int));
            },
            None => {},
        }
        let ghost mid_rs = self@.running;
        let rec = RunningProcess {
            config: config.duplicate(),
            status: ProcessStatus::started(config.id.as_str(), pid),
        };
        self.running_processes.push(rec);
        assert(self@.running =~= mid_rs.push(rec@));
        self.mark_process_pid(config.id.as_str(), Some(pid), now);
        proof {
            if old(self)@.wf() {
                lemma_running_index_found(old_rs, config@.id);
                let rs = self@.running;
                assert forall|i: int, j: int| 0 <= i < j < rs.len() implies #[trigger] rs[i].config.id
                    != #[trigger] rs[j].config.id by {
                    if j == rs.len() - 1 {
                        assert(mid_rs.contains(rs[i]));
                    }
                }
            }
        }
    }

    /// Whether adding `config` asks for it to be started first (it is
    /// enabled); refuses an id that a configured process has already.
    pub fn plan_add(&self, config: &ProcessConfig) -> (res: Result<bool, DaemonError>)
        ensures
            process_index(self@.processes, config@.id) is Some ==> (res matches Err(
                DaemonError::AlreadyExists(x),
            ) && x@ == config@.id),
            process_index(self@.processes, config@.id) is None ==> res == Ok::<
                bool,
                DaemonError,
            >(config@.enabled),
    {
        match self.find_process(config.id.as_str()) {
            Some(_) => Err(DaemonError::AlreadyExists(config.id.clone())),
            None => Ok(config.enabled),
        }
    }

    /// Adds a configuration, given the outcome of starting it when it is
    /// enabled (`start`: its pid, or why it could not start). A known id is
    /// refused; a disabled configuration is appended; an enabled one that
    /// started is watched and appended; one that failed to start changes
    /// nothing and its failure is returned.
    pub fn add_process(
        &mut self,
        config: ProcessConfig,
        start: Option<Result<u32, DaemonError>>,
        now: Timestamp,
    ) -> (res: Result<(), DaemonError>)
        requires
            process_index(old(self)@.processes, config@.id) is None && config@.enabled
                ==> start is Some,
        ensures
            process_index(old(self)@.processes, config@.id) is Some ==> (res matches Err(
                DaemonError::AlreadyExists(x),
            ) && x@ == config@.id && final(self)@ == old(self)@),
            process_index(old(self)@.processes, config@.id) is None && !config@.enabled ==> (res
                is Ok && final(self)@ == old(self)@.after_add(config@)),
            process_index(old(self)@.processes, config@.id) is None && config@.enabled ==> match start {
                Some(Ok(pid)) => res is Ok && final(self)@ == old(self)@.after_start(
                    config@,
                    pid,
                    now,
                ).after_add(config@),
                Some(Err(e)) => res == Err::<(), DaemonError>(e) && final(self)@ == old(self)@,
                None => true,
            },
            old(self)@.wf() ==> final(self)@.wf(),
    {
        if self.find_process(config.id.as_str()).is_some() {
            return Err(DaemonError::AlreadyExists(config.id.clone()));
        }
        if config.enabled {
            match start {
                Some(Ok(pid)) => self.record_start(&config, pid, now),
                Some(Err(e)) => return Err(e),
                None => {
                    // `requires` asks for an outcome here, so this is never reached.
                    proof {
                        assert(false);
                    }
                    return Err(DaemonError::NotFound);
                },
            }
        }
        let ghost mid = self@;
        let ghost cv = config@;
        self.config.processes.push(config);
        assert(self@.processes =~= mid.processes.push(cv));
        Ok(())
    }

    /// Stops `id` and removes every configuration with that id, handing back
    /// the stopped record, if any, so that its child can be killed.
    pub fn remove_process(&mut self, id: &str, now: Timestamp) -> (res: Option<RunningProcess>)
        ensures
            final(self)@ == old(self)@.after_remove(id@, now),
            old(self)@.wf() ==> final(self)@.wf(),
            match running_index(old(self)@.running, id@) {
                Some(k) => res matches Some(r) && r@ == stopped_record(old(self)@.running[k]),
                None => res is None,
            },
    {
        let stopped = self.stop_process(id, now);
        let ghost mid = self@;
        let key = id.to_owned();
        let mut kept: Vec<ProcessConfig> = Vec::new();
        let n = self.config.processes.len();
        for i in 0..n
            invariant
                n == self.config.processes@.len(),
                self@ == mid,
                key@ == id@,
                kept@.map_values(|p: ProcessConfig| p@) == mid.processes.take(i as int).filter(
                    other_id(id@),
                ),
        {
            if self.config.processes[i].id != key {
                kept.push(self.config.processes[i].duplicate());
            }
            proof {
                let t = mid.processes.take(i + 1);
                assert(t.drop_last() =~= mid.processes.take(i as int));
                reveal_with_fuel(Seq::filter, 1);
                assert(kept@.map_values(|p: ProcessConfig| p@) =~= t.filter(other_id(id@)));
            }
        }
        assert(mid.processes.take(n as int) =~= mid.processes);
        self.config.processes = kept;
        stopped
    }

    /// What an update to `config` asks of its process; refuses an unknown id.
    pub fn plan_update(&self, config: &ProcessConfig) -> (res: Result<UpdatePlan, DaemonError>)
        ensures
            match process_index(self@.processes, config@.id) {
                Some(k) => res == Ok::<UpdatePlan, DaemonError>(
                    update_plan(self@.processes[k], config@),
                ),
                None => res matches Err(DaemonError::NotFound),
            },
    {
        match self.find_process(config.id.as_str()) {
            Some(k) => Ok(plan_for(&self.config.processes[k], config)),
            None => Err(DaemonError::NotFound),
        }
    }

    fn replace_config(&mut self, config: ProcessConfig)
        ensures
            final(self)@ == old(self)@.after_update(config@),
            old(self)@.wf() ==> final(self)@.wf(),
    {
        match self.find_process(config.id.as_str()) {
            Some(k) => {
                let ghost cv = config@;
                self.config.processes.set(k, config);
                assert(self@.processes =~= old(self)@.processes.update(k as int, cv));
            },
            None => {},
        }
    }

    /// Updates the configuration with the id of `config`, doing what the
    /// update asks of its process (see `update_plan`), given the outcome of
    /// starting it again when a restart is asked for (`restart`: its pid, or
    /// why it could not start). An unknown id is refused. Kept: the entry is
    /// replaced. Stopped: the process is stopped and the entry replaced.
    /// Restarted: the process is stopped, watched again with the new pid and
    /// the entry replaced; when the restart failed it stays stopped, the old
    /// entry stays, and the failure is returned.
    pub fn update_process(
        &mut self,
        config: ProcessConfig,
        restart: Option<Result<u32, DaemonError>>,
        now: Timestamp,
    ) -> (res: Result<(), DaemonError>)
        requires
            process_index(old(self)@.processes, config@.id) matches Some(k) && update_plan(
                old(self)@.processes[k],
                config@,
            ) == UpdatePlan::Restart ==> restart is Some,
        ensures
            match process_index(old(self)@.processes, config@.id) {
                None => res matches Err(DaemonError::NotFound) && final(self)@ == old(self)@,
                Some(k) => match update_plan(old(self)@.processes[k], config@) {
                    UpdatePlan::Keep => res is Ok && final(self)@ == old(self)@.after_update(config@),
                    UpdatePlan::Stop => res is Ok && final(self)@ == old(self)@.after_stop(
                        config@.id,
                        now,
                    ).after_update(config@),
                    UpdatePlan::Restart => match restart {
                        Some(Ok(pid)) => res is Ok && final(self)@ == old(self)@.after_stop(
                            config@.id,
                            now,
                        ).after_start(config@, pid, now).after_update(config@),
                        Some(Err(e)) => res == Err::<(), DaemonError>(e) && final(self)@ == old(
                            self,
                        )@.after_stop(config@.id, now),
                        None => true,
                    },
                },
            },
            old(self)@.wf() ==> final(self)@.wf(),
    {
        let k = match self.find_process(config.id.as_str()) {
            Some(k) => k,
            None => return Err(DaemonError::NotFound),
        };
        let plan = plan_for(&self.config.processes[k], &config);
        match plan {
            UpdatePlan::Keep => {},
            UpdatePlan::Stop => {
                let _ = self.stop_process(config.id.as_str(), now);
            },
            UpdatePlan::Restart => {
                let _ = self.stop_process(config.id.as_str(), now);
                match restart {
                    Some(Ok(pid)) => self.record_start(&config, pid, now),
                    Some(Err(e)) => return Err(e),
                    None => {
                        // `requires` asks for an outcome here, so this is never reached.
                        proof {
                            assert(false);
                        }
                        return Err(DaemonError::NotFound);
                    },
                }
            },
        }
        self.replace_config(config);
        Ok(())
    }

    /// A copy of the first configuration with `id`; refuses an unknown id.
    pub fn find_config(&self, id: &str) -> (res: Result<ProcessConfig, DaemonError>)
        ensures
            match process_index(self@.processes, id@) {
                Some(k) => res matches Ok(c) && c@ == self@.processes[k],
                None => res matches Err(DaemonError::NotFound),
            },
    {
        match self.find_process(id) {
            Some(k) => Ok(self.config.processes[k].duplicate()),
            None => Err(DaemonError::NotFound),
        }
    }

    /// Where the output of the first process with `id` goes; refuses an unknown id.
    pub fn log_path(&self, id: &str, config_dir: &str) -> (res: Result<String, DaemonError>)
        ensures
            match process_index(self@.processes, id@) {
                Some(k) => res matches Ok(p) && p@ == process_log_path_text(
                    self@.processes[k],
                    config_dir@,
                ),
                None => res matches Err(DaemonError::NotFound),
            },
    {
        match self.find_process(id) {
            Some(k) => Ok(process_log_path(&self.config.processes[k], config_dir)),
            None => Err(DaemonError::NotFound),
        }
    }

    /// Answers a status request for `id`, given what a probe of its child
    /// found (`None` when it has no child): the status reported, and whether
    /// the process was dropped from watch because its child had exited.
    pub fn get_process_status(
        &mut self,
        id: &str,
        probe: Option<ChildProbe>,
        now: Timestamp,
    ) -> (res: (ProcessStatus, bool))
        ensures
            (final(self)@, res.0@, res.1) == old(self)@.status_request(id@, probe, now),
            old(self)@.wf() ==> final(self)@.wf(),
    {
        match self.find_running(id) {
            None => (ProcessStatus::idle(id), false),
            Some(k) => {
                if !self.running_processes[k].status.running {
                    return (self.running_processes[k].status.duplicate(), false);
                }
                match probe {
                    None => (self.running_processes[k].status.duplicate(), false),
                    Some(p) => {
                        if p.alive {
                            let ghost old_rs = self@.running;
                            let mut rec = self.running_processes.remove(k);
                            rec.status.pid = Some(p.pid);
                            let reported = rec.status.duplicate();
                            assert(rec@.config == old_rs[k as int].config);
                            assert(rec@.status.id == old_rs[k as int].status.id);
                            self.running_processes.insert(k, rec);
                            assert(self@.running =~= old_rs.update(k as int, rec@));
                            proof {
                                if old(self)@.wf() {
                                    let rs = self@.running;
                                    assert forall|i: int| 0 <= i < rs.len() implies #[trigger] rs[i].config
                                        == old_rs[i].config && rs[i].status.id == old_rs[i].status.id by {}
                                }
                            }
                            (reported, false)
                        } else {
                            let _ = self.stop_process(id, now);
                            (ProcessStatus::idle(id), true)
                        }
                    },
                }
            },
        }
    }

    /// How many restarts of `id` were counted, if it is watched.
    pub fn restart_count(&self, id: &str) -> (res: Option<u32>)
        ensures
            match running_index(self@.running, id@) {
                Some(k) => res == Some(self@.running[k].status.restart_count),
                None => res is None,
            },
    {
        match self.find_running(id) {
            Some(k) => Some(self.running_processes[k].status.restart_count),
            None => None,
        }
    }

    /// Records the outcome of a health check of `id` at `now` and says
    /// whether the process is to be restarted.
    pub fn record_health_check(&mut self, id: &str, ok: bool, now: Timestamp) -> (res: bool)
        ensures
            (final(self)@, res) == old(self)@.health_check(id@, ok, now),
            old(self)@.wf() ==> final(self)@.wf(),
    {
        match self.find_running(id) {
            None => false,
            Some(k) => {
                let ghost old_rs = self@.running;
                let mut rec = self.running_processes.remove(k);
                let restart = !ok && rec.config.auto_restart;
                rec.status.last_health_check = Some(now);
                rec.status.health_check_ok = Some(ok);
                if restart {
                    rec.status.restart_count = if rec.status.restart_count < u32::MAX {
                        rec.status.restart_count + 1
                    } else {
                        0
                    };
                    rec.status.last_restart = Some(now);
                }
                assert(rec@.config == old_rs[k as int].config);
                assert(rec@.status.id == old_rs[k as int].status.id);
                self.running_processes.insert(k, rec);
                assert(self@.running =~= old_rs.update(k as int, rec@));
                proof {
                    if old(self)@.wf() {
                        let rs = self@.running;
                        assert forall|i: int| 0 <= i < rs.len() implies #[trigger] rs[i].config
                            == old_rs[i].config && rs[i].status.id == old_rs[i].status.id
                            && rs[i].status.running == old_rs[i].status.running
                            && rs[i].status.pid == old_rs[i].status.pid by {}
                    }
                }
                restart
            },
        }
    }

    /// Records what a restart of `id` gave: the new pid, or `None` when
    /// spawning failed and the process no longer runs.
    pub fn record_restart(&mut self, id: &str, pid: Option<u32>)
        ensures
            final(self)@ == old(self)@.after_restart(id@, pid),
            old(self)@.wf() ==> final(self)@.wf(),
    {
        match self.find_running(id) {
            None => {},
            Some(k) => {
                let ghost old_rs = self@.running;
                let mut rec = self.running_processes.remove(k);
                rec.status.running = pid.is_some();
                rec.status.pid = pid;
                self.running_processes.insert(k, rec);
                assert(self@.running =~= old_rs.update(k as int, rec@));
            },
        }
    }

    /// The pids of the watched processes that have one, for shutting them down.
    pub fn running_pids(&self) -> (res: Vec<u32>)
        ensures
            res@ == pids_of(self@.running),
    {
        let rs = &self.running_processes;
        let mut res: Vec<u32> = Vec::new();
        for i in 0..rs.len()
            invariant
                rs == &self.running_processes,
                res@ == pids_of(self@.running.take(i as int)),
        {
            proof {
                let t = self@.running.take(i + 1);
                assert(t.drop_last() =~= self@.running.take(i as int));
            }
            match rs[i].status.pid {
                Some(p) => res.push(p),
                None => {},
            }
        }
        assert(self@.running.take(rs.len() as int) =~= self@.running);
        res
    }

    /// Whether a process with this id is being watched.
    pub fn is_running(&self, id: &str) -> (res: bool)
        ensures
            res == running_index(self@.running, id@) is Some,
    {
        self.find_running(id).is_some()
    }
}

} // verus!
