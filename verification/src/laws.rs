//! What holds across the operations of the library.
use vstd::prelude::*;
use crate::config::{ProcessConfigView, SEPARATOR, Timestamp, joined, process_log_path_text};
use crate::logs::{join_lines, lines_of, newest_lines_of, scan_lines, strip_cr, tail_count};
use crate::daemon::{
    ChildProbe, DaemonView, RunningView, UpdatePlan, idle_status, lemma_process_index,
    lemma_process_index_found, lemma_running_index, lemma_running_index_found, other_id,
    ProcessStatusView, pids_of, process_index, running_index, started_status, update_plan,
    with_pid,
};

verus! {

/// No two configured processes share an id.
pub open spec fn distinct_ids(ps: Seq<ProcessConfigView>) -> bool {
    forall|i: int, j: int| 0 <= i < j < ps.len() ==> #[trigger] ps[i].id != #[trigger] ps[j].id
}

/// In a well-formed state, once the record of `id` is removed no record of `id` is left.
proof fn lemma_removed_record_gone(v: DaemonView, id: Seq<char>)
    requires
        v.wf(),
        running_index(v.running, id) is Some,
    ensures
        running_index(v.running.remove(running_index(v.running, id)->0), id) is None,
        v.running.remove(running_index(v.running, id)->0).len() == v.running.len() - 1,
{
    lemma_running_index_found(v.running, id);
    let k = running_index(v.running, id)->0;
    let r = v.running.remove(k);
    assert forall|j: int| 0 <= j < r.len() implies #[trigger] r[j].config.id != id by {
        if j < k {
            assert(r[j] == v.running[j]);
        } else {
            assert(r[j] == v.running[j + 1]);
        }
    }
    lemma_running_index(r, id, r.len() as int);
}

/// Stopping keeps a state well formed.
proof fn lemma_stop_keeps_wf(v: DaemonView, id: Seq<char>, now: Timestamp)
    requires
        v.wf(),
    ensures
        v.after_stop(id, now).wf(),
{
    if running_index(v.running, id) is Some {
        lemma_running_index_found(v.running, id);
        let k = running_index(v.running, id)->0;
        let r = v.running.remove(k);
        assert forall|i: int| 0 <= i < r.len() implies #[trigger] r[i] == v.running[old_index(i, k)]
            && 0 <= old_index(i, k) < v.running.len() by {}
        assert forall|i: int, j: int| 0 <= i < j < r.len() implies #[trigger] r[i].config.id
            != #[trigger] r[j].config.id by {
            assert(r[i] == v.running[old_index(i, k)]);
            assert(r[j] == v.running[old_index(j, k)]);
        }
    }
}

/// Where the `i`-th element of a sequence with element `k` removed stood before.
spec fn old_index(i: int, k: int) -> int {
    if i < k {
        i
    } else {
        i + 1
    }
}

/// Stopping a process twice is the same as stopping it once.
pub proof fn stop_is_idempotent(v: DaemonView, id: Seq<char>, t1: Timestamp, t2: Timestamp)
    requires
        v.wf(),
    ensures
        v.after_stop(id, t1).after_stop(id, t2) == v.after_stop(id, t1),
{
    if running_index(v.running, id) is Some {
        lemma_removed_record_gone(v, id);
    }
}

/// Once stopped, a process is reported as not running, without a pid, and
/// the report changes nothing, whatever a probe says.
pub proof fn stopped_process_reports_idle(
    v: DaemonView,
    id: Seq<char>,
    now: Timestamp,
    probe: Option<ChildProbe>,
    later: Timestamp,
)
    requires
        v.wf(),
    ensures
        v.after_stop(id, now).status_request(id, probe, later) == (
            v.after_stop(id, now),
            idle_status(id),
            false,
        ),
{
    if running_index(v.running, id) is Some {
        lemma_removed_record_gone(v, id);
    }
}

/// A process just started is reported running with its pid, while its
/// child lives (or when it has no child to probe), and the report changes nothing.
pub proof fn started_process_reports_running(
    v: DaemonView,
    config: ProcessConfigView,
    pid: u32,
    now: Timestamp,
    later: Timestamp,
)
    requires
        v.wf(),
    ensures
        v.after_start(config, pid, now).status_request(
            config.id,
            Some(ChildProbe { pid, alive: true }),
            later,
        ) == (v.after_start(config, pid, now), started_status(config.id, pid), false),
        v.after_start(config, pid, now).status_request(config.id, None, later) == (
            v.after_start(config, pid, now),
            started_status(config.id, pid),
            false,
        ),
        v.after_start(config, pid, now).wf(),
{
    let id = config.id;
    lemma_running_index_found(v.running, id);
    let rest = match running_index(v.running, id) {
        Some(k) => v.running.remove(k),
        None => v.running,
    };
    // Every record left over is an earlier record, and none of them has `id`.
    let src = |i: int|
        match running_index(v.running, id) {
            Some(k) => if i < k {
                i
            } else {
                i + 1
            },
            None => i,
        };
    if running_index(v.running, id) is Some {
        lemma_removed_record_gone(v, id);
    }
    assert forall|i: int| 0 <= i < rest.len() implies 0 <= #[trigger] src(i) < v.running.len()
        && rest[i] == v.running[src(i)] by {}
    lemma_running_index_found(rest, id);
    let w = v.after_start(config, pid, now);
    assert(w.running == rest.push(RunningView { config, status: started_status(id, pid) }));
    lemma_running_index(w.running, id, rest.len() as int);
    let r = w.running[rest.len() as int];
    assert(w.running.update(rest.len() as int, r) =~= w.running);
    assert forall|i: int, j: int| 0 <= i < j < w.running.len() implies #[trigger] w.running[i].config.id
        != #[trigger] w.running[j].config.id by {
        if j < rest.len() {
            assert(rest[i] == v.running[src(i)]);
            assert(rest[j] == v.running[src(j)]);
            assert(src(i) < src(j));
        } else {
            assert(rest[i].config.id != id);
        }
    }
    assert forall|i: int| 0 <= i < w.running.len() implies #[trigger] w.running[i].status.id
        == w.running[i].config.id by {
        if i < rest.len() {
            assert(rest[i] == v.running[src(i)]);
        }
    }
}

/// After removing `id`, no configuration and no watched process has that id.
pub proof fn remove_forgets_id(v: DaemonView, id: Seq<char>, now: Timestamp)
    requires
        v.wf(),
    ensures
        process_index(v.after_remove(id, now).processes, id) is None,
        running_index(v.after_remove(id, now).running, id) is None,
{
    broadcast use vstd::seq_lib::group_filter_ensures;

    if running_index(v.running, id) is Some {
        lemma_removed_record_gone(v, id);
    }
    let s = v.after_stop(id, now);
    let f = s.processes.filter(other_id(id));
    assert forall|j: int| 0 <= j < f.len() implies #[trigger] f[j].id != id by {
        assert(f.contains(f[j]));
        assert(other_id(id)(f[j]));
    }
    lemma_process_index(f, id, f.len() as int);
}

/// Adding a process with a new id keeps the configured ids distinct, whether
/// it was added stopped or started first.
pub proof fn add_keeps_ids_distinct(v: DaemonView, config: ProcessConfigView, pid: u32, now: Timestamp)
    requires
        distinct_ids(v.processes),
        process_index(v.processes, config.id) is None,
    ensures
        distinct_ids(v.after_add(config).processes),
        distinct_ids(v.after_start(config, pid, now).after_add(config).processes),
        v.after_start(config, pid, now).after_add(config).processes == v.processes.push(config),
{
    lemma_process_index_found(v.processes, config.id);
    let ps = v.after_add(config).processes;
    assert forall|i: int, j: int| 0 <= i < j < ps.len() implies #[trigger] ps[i].id
        != #[trigger] ps[j].id by {
        if j == ps.len() - 1 {
            assert(ps[i] == v.processes[i]);
        } else {
            assert(ps[i] == v.processes[i]);
            assert(ps[j] == v.processes[j]);
        }
    }
    assert(v.after_start(config, pid, now).processes == v.processes);
}

/// An update replaces one configuration and keeps the others, and the
/// watched processes, as they were.
pub proof fn update_keeps_others(v: DaemonView, config: ProcessConfigView, j: int)
    requires
        process_index(v.processes, config.id) matches Some(k) && k != j,
        0 <= j < v.processes.len(),
    ensures
        v.after_update(config).processes.len() == v.processes.len(),
        v.after_update(config).processes[j] == v.processes[j],
        v.after_update(config).running == v.running,
        v.after_update(config).processes[process_index(v.processes, config.id)->0] == config,
{
    lemma_process_index_found(v.processes, config.id);
}

/// A passing health check never asks for a restart and never counts one.
pub proof fn passing_check_never_restarts(v: DaemonView, id: Seq<char>, now: Timestamp)
    requires
        v.wf(),
    ensures
        !v.health_check(id, true, now).1,
        v.health_check(id, true, now).0.running.len() == v.running.len(),
        running_index(v.running, id) matches Some(k) ==> v.health_check(id, true, now).0.running[k].status.restart_count
            == v.running[k].status.restart_count,
{
    lemma_running_index_found(v.running, id);
}

/// A failing health check of a process that restarts automatically counts
/// exactly one more restart; one that does not restart counts none.
pub proof fn failing_check_counts_one_restart(v: DaemonView, id: Seq<char>, now: Timestamp)
    requires
        v.wf(),
        running_index(v.running, id) matches Some(k) && v.running[k].status.restart_count < u32::MAX,
    ensures
        ({
            let k = running_index(v.running, id)->0;
            let (w, restart) = v.health_check(id, false, now);
            &&& restart == v.running[k].config.auto_restart
            &&& w.running[k].status.restart_count == v.running[k].status.restart_count + (if restart {
                1int
            } else {
                0int
            })
            &&& w.running[k].status.health_check_ok == Some(false)
            &&& w.running[k].status.last_health_check == Some(now)
        }),
{
    lemma_running_index_found(v.running, id);
}

/// After a successful restart the process is reported running with the new pid.
pub proof fn restarted_process_reports_new_pid(
    v: DaemonView,
    id: Seq<char>,
    pid: u32,
    later: Timestamp,
)
    requires
        v.wf(),
        running_index(v.running, id) is Some,
    ensures
        ({
            let w = v.after_restart(id, Some(pid));
            let (_, st, dropped) = w.status_request(id, Some(ChildProbe { pid, alive: true }), later);
            st.running && st.pid == Some(pid) && !dropped
        }),
{
    lemma_running_index_found(v.running, id);
    let k = running_index(v.running, id)->0;
    let w = v.after_restart(id, Some(pid));
    assert forall|j: int| 0 <= j < k implies #[trigger] w.running[j].config.id != id by {
        assert(w.running[j] == v.running[j]);
        assert(v.running[j].config.id != v.running[k].config.id);
    }
    lemma_running_index(w.running, id, k);
}

/// A reported status carries the requested id and runs exactly when it has
/// a pid, and answering it keeps the state well formed.
pub proof fn reported_status_is_consistent(
    v: DaemonView,
    id: Seq<char>,
    probe: Option<ChildProbe>,
    now: Timestamp,
)
    requires
        v.wf(),
    ensures
        ({
            let (w, st, _) = v.status_request(id, probe, now);
            &&& st.id == id
            &&& st.running <==> st.pid is Some
            &&& w.wf()
        }),
{
    lemma_running_index_found(v.running, id);
    if running_index(v.running, id) is Some {
        lemma_removed_record_gone(v, id);
        let k = running_index(v.running, id)->0;
        let (w, st, _) = v.status_request(id, probe, now);
        if v.running[k].status.running && (probe matches Some(p) && p.alive) {
            assert forall|i: int| 0 <= i < w.running.len() implies #[trigger] w.running[i].config
                == v.running[i].config && w.running[i].status.id == v.running[i].status.id
                && (w.running[i].status.running <==> w.running[i].status.pid is Some) by {}
        }
        if v.running[k].status.running && (probe matches Some(p) && !p.alive) {
            lemma_stop_keeps_wf(v, id, now);
        }
    }
}

/// Disabling a running process in an update stops it: afterwards it is not watched.
pub proof fn disabling_update_stops(v: DaemonView, config: ProcessConfigView, now: Timestamp)
    requires
        v.wf(),
        process_index(v.processes, config.id) matches Some(k) && update_plan(v.processes[k], config)
            == UpdatePlan::Stop,
    ensures
        running_index(v.after_stop(config.id, now).after_update(config).running, config.id) is None,
{
    if running_index(v.running, config.id) is Some {
        lemma_removed_record_gone(v, config.id);
    }
}

/// A restarting update that spawned `pid` watches the process once more,
/// with the new configuration and a fresh status.
pub proof fn restarting_update_watches_new_config(
    v: DaemonView,
    config: ProcessConfigView,
    pid: u32,
    now: Timestamp,
)
    requires
        v.wf(),
    ensures
        ({
            let w = v.after_stop(config.id, now).after_start(config, pid, now).after_update(config);
            &&& running_index(w.running, config.id) == Some(w.running.len() - 1)
            &&& w.running.last() == (RunningView { config, status: started_status(config.id, pid) })
        }),
{
    let s = v.after_stop(config.id, now);
    if running_index(v.running, config.id) is Some {
        lemma_removed_record_gone(v, config.id);
    }
    lemma_running_index_found(s.running, config.id);
    let w = s.after_start(config, pid, now);
    assert(w.running == s.running.push(RunningView { config, status: started_status(config.id, pid) }));
    lemma_running_index(w.running, config.id, s.running.len() as int);
}

/// A restart that failed in an update leaves the process stopped and the
/// configuration as it was, but for the first entry of its id, which loses
/// its pid (and is marked changed) when the process had been watched.
pub proof fn failed_restart_keeps_old_entry(v: DaemonView, config: ProcessConfigView, now: Timestamp)
    requires
        v.wf(),
        process_index(v.processes, config.id) is Some,
    ensures
        ({
            let w = v.after_stop(config.id, now);
            let k = process_index(v.processes, config.id)->0;
            &&& running_index(w.running, config.id) is None
            &&& w.processes.len() == v.processes.len()
            &&& forall|j: int| 0 <= j < v.processes.len() && j != k ==> #[trigger] w.processes[j]
                == v.processes[j]
            &&& w.processes[k] == if running_index(v.running, config.id) is Some {
                with_pid(v.processes[k], None, now)
            } else {
                v.processes[k]
            }
        }),
{
    lemma_process_index_found(v.processes, config.id);
    lemma_running_index_found(v.running, config.id);
    if running_index(v.running, config.id) is Some {
        lemma_removed_record_gone(v, config.id);
    }
}

/// In a well-formed state the record at `k` is the one found for its id.
proof fn lemma_watched_at(v: DaemonView, id: Seq<char>, k: int)
    requires
        v.wf(),
        0 <= k < v.running.len(),
        v.running[k].config.id == id,
    ensures
        running_index(v.running, id) == Some(k),
{
    assert forall|j: int| 0 <= j < k implies #[trigger] v.running[j].config.id != id by {
        assert(v.running[j].config.id != v.running[k].config.id);
    }
    lemma_running_index(v.running, id, k);
}

/// A status request for a watched, running process whose child is alive
/// reports the recorded status, counters, check results and restart times
/// included, with only the pid taken from the probe; it drops nothing and
/// changes no other record and no configuration.
pub proof fn live_probe_reports_recorded_status(
    v: DaemonView,
    k: int,
    p: ChildProbe,
    now: Timestamp,
)
    requires
        v.wf(),
        0 <= k < v.running.len(),
        v.running[k].status.running,
        p.alive,
    ensures
        ({
            let id = v.running[k].config.id;
            let (w, st, dropped) = v.status_request(id, Some(p), now);
            &&& st == ProcessStatusView { pid: Some(p.pid), ..v.running[k].status }
            &&& st.running && st.id == id
            &&& st.restart_count == v.running[k].status.restart_count
            &&& st.health_check_ok == v.running[k].status.health_check_ok
            &&& st.last_health_check == v.running[k].status.last_health_check
            &&& st.last_restart == v.running[k].status.last_restart
            &&& !dropped
            &&& w.processes == v.processes
            &&& w.running.len() == v.running.len()
            &&& w.running[k].config == v.running[k].config
            &&& w.running[k].status == st
            &&& forall|j: int| 0 <= j < v.running.len() && j != k ==> #[trigger] w.running[j]
                == v.running[j]
        }),
{
    lemma_watched_at(v, v.running[k].config.id, k);
}

/// A status request with no child to probe reports the recorded status of a
/// watched process as it stands and changes nothing.
pub proof fn unprobed_status_is_recorded(v: DaemonView, k: int, now: Timestamp)
    requires
        v.wf(),
        0 <= k < v.running.len(),
    ensures
        v.status_request(v.running[k].config.id, None, now) == (v, v.running[k].status, false),
{
    lemma_watched_at(v, v.running[k].config.id, k);
}

/// A health check of a watched process records its time and its outcome,
/// passing or failing; it asks for a restart exactly when it failed and the
/// process restarts automatically, and then counts one more restart (but at
/// the counter's limit) and records the time; otherwise the counter and the
/// last restart stay. Nothing else changes.
pub proof fn health_check_records_outcome(v: DaemonView, k: int, ok: bool, now: Timestamp)
    requires
        v.wf(),
        0 <= k < v.running.len(),
    ensures
        ({
            let old_st = v.running[k].status;
            let (w, restart) = v.health_check(v.running[k].config.id, ok, now);
            let st = w.running[k].status;
            &&& st.health_check_ok == Some(ok)
            &&& st.last_health_check == Some(now)
            &&& restart == (!ok && v.running[k].config.auto_restart)
            &&& restart && old_st.restart_count < u32::MAX ==> st.restart_count == old_st.restart_count + 1
            &&& restart ==> st.last_restart == Some(now)
            &&& !restart ==> st.restart_count == old_st.restart_count && st.last_restart
                == old_st.last_restart
            &&& st.id == old_st.id && st.running == old_st.running && st.pid == old_st.pid
                && st.last_error == old_st.last_error
            &&& w.running[k].config == v.running[k].config
            &&& w.running.len() == v.running.len()
            &&& w.processes == v.processes
            &&& forall|j: int| 0 <= j < v.running.len() && j != k ==> #[trigger] w.running[j]
                == v.running[j]
        }),
{
    lemma_watched_at(v, v.running[k].config.id, k);
}

/// What an update asks of the process, in terms of what changed: disabling
/// stops it; when it ends up enabled, having been disabled or getting
/// another command, other arguments or another working directory restarts
/// it; anything else leaves it as it is.
pub proof fn update_plan_follows_the_change(old: ProcessConfigView, new: ProcessConfigView)
    ensures
        old.enabled && !new.enabled ==> update_plan(old, new) == UpdatePlan::Stop,
        new.enabled && !old.enabled ==> update_plan(old, new) == UpdatePlan::Restart,
        new.enabled && old.command != new.command ==> update_plan(old, new) == UpdatePlan::Restart,
        new.enabled && old.args != new.args ==> update_plan(old, new) == UpdatePlan::Restart,
        new.enabled && old.working_dir != new.working_dir ==> update_plan(old, new)
            == UpdatePlan::Restart,
        !old.enabled && !new.enabled ==> update_plan(old, new) == UpdatePlan::Keep,
        old.enabled && new.enabled && old.command == new.command && old.args == new.args
            && old.working_dir == new.working_dir ==> update_plan(old, new) == UpdatePlan::Keep,
{
}

/// Whether a watched process has a pid.
pub open spec fn has_pid() -> spec_fn(RunningView) -> bool {
    |r: RunningView| r.status.pid is Some
}

/// The pids to shut down are exactly the pids of the watched processes that
/// have one, each once, in the order the processes are watched.
pub proof fn running_pids_are_all_pids(rs: Seq<RunningView>)
    ensures
        pids_of(rs) == rs.filter(has_pid()).map_values(|r: RunningView| r.status.pid->0),
        pids_of(rs).len() == rs.filter(has_pid()).len(),
        forall|i: int|
            0 <= i < rs.len() && #[trigger] rs[i].status.pid is Some ==> pids_of(rs).contains(
                rs[i].status.pid->0,
            ),
        forall|q: u32|
            #[trigger] pids_of(rs).contains(q) ==> exists|i: int|
                0 <= i < rs.len() && rs[i].status.pid == Some(q),
    decreases rs.len(),
{
    reveal_with_fuel(Seq::filter, 1);
    if rs.len() > 0 {
        let init = rs.drop_last();
        running_pids_are_all_pids(init);
        let f = init.filter(has_pid());
        let m = |r: RunningView| r.status.pid->0;
        if rs.last().status.pid is Some {
            assert(rs.filter(has_pid()) == f.push(rs.last()));
            assert(f.push(rs.last()).map_values(m) =~= f.map_values(m).push(rs.last().status.pid->0));
        } else {
            assert(rs.filter(has_pid()) == f);
        }
        assert forall|i: int|
            0 <= i < rs.len() && #[trigger] rs[i].status.pid is Some implies pids_of(rs).contains(
                rs[i].status.pid->0,
            ) by {
            if i < rs.len() - 1 {
                assert(init[i] == rs[i]);
                assert(init[i].status.pid is Some);
                let x = init[i].status.pid->0;
                assert(pids_of(init).contains(x));
                let t = choose|t: int| 0 <= t < pids_of(init).len() && pids_of(init)[t] == x;
                if rs.last().status.pid is Some {
                    assert(pids_of(rs)[t] == x);
                }
            } else {
                assert(pids_of(rs).last() == rs[i].status.pid->0);
            }
        }
        assert forall|q: u32| #[trigger] pids_of(rs).contains(q) implies exists|i: int|
            0 <= i < rs.len() && rs[i].status.pid == Some(q) by {
            let t = choose|t: int| 0 <= t < pids_of(rs).len() && pids_of(rs)[t] == q;
            if t < pids_of(init).len() {
                assert(pids_of(init)[t] == q);
                assert(pids_of(init).contains(q));
                let i = choose|i: int| 0 <= i < init.len() && init[i].status.pid == Some(q);
                assert(rs[i] == init[i]);
            } else {
                assert(rs[rs.len() - 1].status.pid == Some(q));
            }
        }
    } else {
        assert(rs.filter(has_pid()).map_values(|r: RunningView| r.status.pid->0) =~= seq![]);
    }
}

/// Starting a process records its pid and the time in the first
/// configuration of its id and changes no other configuration.
pub proof fn start_records_pid_in_config(v: DaemonView, config: ProcessConfigView, pid: u32, now: Timestamp)
    ensures
        ({
            let w = v.after_start(config, pid, now);
            &&& w.processes.len() == v.processes.len()
            &&& process_index(v.processes, config.id) matches Some(k) ==> {
                &&& w.processes[k].last_pid == Some(pid)
                &&& w.processes[k].updated_at == now
                &&& w.processes[k] == ProcessConfigView {
                    last_pid: Some(pid),
                    updated_at: now,
                    ..v.processes[k]
                }
                &&& forall|j: int| 0 <= j < v.processes.len() && j != k ==> #[trigger] w.processes[j]
                    == v.processes[j]
            }
            &&& process_index(v.processes, config.id) is None ==> w.processes == v.processes
        }),
{
    lemma_process_index_found(v.processes, config.id);
}

/// Removing a process keeps exactly the configurations of other ids, each
/// as it was and in their order: a configuration stays after a removal of
/// `id` exactly when it stood before and has another id.
pub proof fn remove_keeps_exactly_the_others(v: DaemonView, id: Seq<char>, now: Timestamp)
    requires
        v.wf(),
    ensures
        forall|c: ProcessConfigView|
            #[trigger] v.after_remove(id, now).processes.contains(c) <==> (v.processes.contains(c)
                && c.id != id),
{
    broadcast use vstd::seq_lib::group_filter_ensures;

    let s = v.after_stop(id, now);
    lemma_process_index_found(v.processes, id);
    // Stopping changes at most the first entry of `id`, and keeps its id.
    assert forall|j: int| 0 <= j < s.processes.len() implies #[trigger] s.processes[j].id
        == v.processes[j].id && (s.processes[j].id != id ==> s.processes[j] == v.processes[j]) by {}
    assert(s.processes.len() == v.processes.len());
    let f = s.processes.filter(other_id(id));
    assert forall|c: ProcessConfigView| #[trigger] f.contains(c) <==> (v.processes.contains(c) && c.id
        != id) by {
        if f.contains(c) {
            assert(other_id(id)(c));
            s.processes.lemma_filter_contains_rev(other_id(id), c);
            let j = choose|j: int| 0 <= j < s.processes.len() && s.processes[j] == c;
            assert(v.processes[j] == c);
        }
        if v.processes.contains(c) && c.id != id {
            let j = choose|j: int| 0 <= j < v.processes.len() && v.processes[j] == c;
            assert(s.processes[j] == c);
            assert(other_id(id)(s.processes[j]));
        }
    }
}

/// A restart that spawned nothing leaves the process watched but not
/// running and without a pid; one that spawned `pid` makes it run as `pid`.
/// Either way its counters and check results stay as they were.
pub proof fn restart_outcome_is_recorded(v: DaemonView, k: int, pid: Option<u32>)
    requires
        v.wf(),
        0 <= k < v.running.len(),
    ensures
        ({
            let w = v.after_restart(v.running[k].config.id, pid);
            let st = w.running[k].status;
            &&& st.pid == pid
            &&& st.running == (pid is Some)
            &&& st.restart_count == v.running[k].status.restart_count
            &&& st.health_check_ok == v.running[k].status.health_check_ok
            &&& st.last_health_check == v.running[k].status.last_health_check
            &&& st.last_restart == v.running[k].status.last_restart
            &&& w.running.len() == v.running.len()
            &&& w.processes == v.processes
            &&& forall|j: int| 0 <= j < v.running.len() && j != k ==> #[trigger] w.running[j]
                == v.running[j]
        }),
{
    lemma_watched_at(v, v.running[k].config.id, k);
}

/// No character of the text is a newline.
pub open spec fn no_newline(line: Seq<char>) -> bool {
    forall|j: int| 0 <= j < line.len() ==> #[trigger] line[j] != '\n'
}

proof fn lemma_scan_has_no_newline(s: Seq<char>)
    ensures
        forall|i: int|
            0 <= i < scan_lines(s).0.len() ==> no_newline(#[trigger] scan_lines(s).0[i]),
        no_newline(scan_lines(s).1),
    decreases s.len(),
{
    if s.len() > 0 {
        lemma_scan_has_no_newline(s.drop_last());
        let (done, cur) = scan_lines(s.drop_last());
        if s.last() == '\n' {
            let line = strip_cr(cur);
            assert(no_newline(line)) by {
                assert forall|j: int| 0 <= j < line.len() implies #[trigger] line[j] != '\n' by {
                    assert(line[j] == cur[j]);
                }
            }
            assert forall|i: int| 0 <= i < done.push(line).len() implies no_newline(
                #[trigger] done.push(line)[i],
            ) by {
                if i < done.len() {
                    assert(done.push(line)[i] == done[i]);
                }
            }
        } else {
            let next = cur.push(s.last());
            assert forall|j: int| 0 <= j < next.len() implies #[trigger] next[j] != '\n' by {
                if j < cur.len() {
                    assert(next[j] == cur[j]);
                }
            }
        }
    }
}

/// No line of a text holds a newline.
pub proof fn lines_hold_no_newline(s: Seq<char>)
    ensures
        forall|i: int| 0 <= i < lines_of(s).len() ==> no_newline(#[trigger] lines_of(s)[i]),
{
    lemma_scan_has_no_newline(s);
    let (done, cur) = scan_lines(s);
    if cur.len() > 0 {
        assert forall|i: int| 0 <= i < done.push(cur).len() implies no_newline(
            #[trigger] done.push(cur)[i],
        ) by {
            if i < done.len() {
                assert(done.push(cur)[i] == done[i]);
            }
        }
    }
}

/// No character of the text is a carriage return.
pub open spec fn no_cr(s: Seq<char>) -> bool {
    forall|j: int| 0 <= j < s.len() ==> #[trigger] s[j] != '\r'
}

proof fn lemma_scan_rejoins(s: Seq<char>)
    requires
        no_cr(s),
    ensures
        no_cr(scan_lines(s).1),
        scan_lines(s).0.len() == 0 ==> s == scan_lines(s).1,
        scan_lines(s).0.len() > 0 ==> s == join_lines(scan_lines(s).0) + seq!['\n'] + scan_lines(
            s,
        ).1,
    decreases s.len(),
{
    if s.len() > 0 {
        let t = s.drop_last();
        assert forall|j: int| 0 <= j < t.len() implies #[trigger] t[j] != '\r' by {
            assert(t[j] == s[j]);
        }
        lemma_scan_rejoins(t);
        let (d, cu) = scan_lines(t);
        let c = s.last();
        assert(s == t.push(c));
        if c == '\n' {
            assert(strip_cr(cu) == cu);
            let d2 = d.push(cu);
            assert(d2.drop_last() == d);
            if d.len() == 0 {
                assert(join_lines(d2) == cu);
                assert(s =~= join_lines(d2) + seq!['\n'] + seq![]);
            } else {
                assert(join_lines(d2) == join_lines(d) + seq!['\n'] + cu);
                assert(s =~= join_lines(d2) + seq!['\n'] + seq![]);
            }
        } else {
            let cu2 = cu.push(c);
            assert forall|j: int| 0 <= j < cu2.len() implies #[trigger] cu2[j] != '\r' by {
                if j < cu.len() {
                    assert(cu2[j] == cu[j]);
                }
            }
            if d.len() == 0 {
                assert(s =~= cu2);
            } else {
                assert(s =~= join_lines(d) + seq!['\n'] + cu2);
            }
        }
    }
}

/// Joining the lines of a text without carriage returns by newlines gives
/// the text back, less its final newline: splitting loses nothing else.
pub proof fn lines_rejoin_to_the_text(s: Seq<char>)
    requires
        no_cr(s),
    ensures
        join_lines(lines_of(s)) == if s.len() > 0 && s.last() == '\n' {
            s.drop_last()
        } else {
            s
        },
{
    lemma_scan_rejoins(s);
    let (d, cu) = scan_lines(s);
    if s.len() > 0 {
        let t = s.drop_last();
        let (d0, cu0) = scan_lines(t);
        if s.last() == '\n' {
            assert(cu == Seq::<char>::empty());
        } else {
            assert(cu.len() > 0);
        }
    }
    if cu.len() > 0 {
        let l = d.push(cu);
        assert(l.drop_last() == d);
        if d.len() == 0 {
            assert(join_lines(l) == cu);
        }
    } else if d.len() > 0 {
        assert(s.last() == '\n');
        assert(s.drop_last() =~= join_lines(d));
    }
}

/// A request for the newest `wanted` lines gets at most `wanted` of them
/// (all of them when `wanted` is zero), newest first.
pub proof fn newest_lines_are_the_last_ones(text: Seq<char>, wanted: nat)
    ensures
        ({
            let all = lines_of(text);
            let got = newest_lines_of(text, wanted);
            &&& got.len() == tail_count(all.len(), wanted)
            &&& wanted > 0 ==> got.len() <= wanted
            &&& wanted == 0 ==> got.len() == all.len()
            &&& forall|k: int| 0 <= k < got.len() ==> #[trigger] got[k] == all[all.len() - 1 - k]
        }),
{
}

/// A joined path ends with the joined name.
pub proof fn joined_path_ends_with_name(base: Seq<char>, name: Seq<char>)
    ensures
        joined(base, name).len() >= name.len(),
        joined(base, name).subrange(joined(base, name).len() - name.len(), joined(base, name).len() as int)
            == name,
        !(name.len() > 0 && name[0] == SEPARATOR) ==> joined(base, name).subrange(0, base.len() as int)
            == base,
{
    let j = joined(base, name);
    assert(j.subrange(j.len() - name.len(), j.len() as int) =~= name);
    if !(name.len() > 0 && name[0] == SEPARATOR) {
        assert(j.subrange(0, base.len() as int) =~= base);
    }
}

/// A process without its own log path logs to `<id>.log` under the logs directory.
pub proof fn default_log_file_is_named_by_id(config: ProcessConfigView, config_dir: Seq<char>)
    requires
        config.log_path.len() == 0,
    ensures
        ({
            let p = process_log_path_text(config, config_dir);
            let file = config.id + ".log"@;
            p.len() >= file.len() && p.subrange(p.len() - file.len(), p.len() as int) == file
        }),
{
    let file = config.id + ".log"@;
    joined_path_ends_with_name(joined(config_dir, "logs"@), file);
}

} // verus!
