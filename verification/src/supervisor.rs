//! The process supervisor: the sole authority for starting, stopping,
//! restarting and health-checking apps. It owns the live process
//! table; the persistence store is the authoritative record of state.
//! Blocking outside work — spawning, killing, waiting, sleeping and
//! HTTP probes — is the caller's: every operation here is a decision
//! from store, table and event to the next store, table and action.

use vstd::prelude::*;
use crate::models::{App, AppState, AppV, ProcessHistory, ProcessHistoryV};
use crate::store::{lemma_same_record_save_ok, lemma_with_saved_at_name, Store, StoreV};
use crate::providers::{Handle, Provider};
use crate::errors::BinaryDropError;

verus! {

/// The fixed pause between stopping and starting an app on a restart
/// request, in seconds.
pub const RESTART_DELAY_SECS: u64 = 1;

/// How often the periodic health checker ticks, in seconds.
pub const HEALTH_CHECK_INTERVAL_SECS: u64 = 10;

/// A lifecycle request, as queued for the supervisor's single consumer.
#[derive(Clone, Debug)]
pub enum SupervisorMessage {
    /// Start the named app.
    Start(String),
    /// Stop the named app.
    Stop(String),
    /// Stop, wait a moment, then start the named app.
    Restart(String),
    /// Probe the named app's health.
    CheckHealth(String),
    /// The named app's process ended on its own with this exit code.
    ProcessExit(String, i64),
}

/// One live process the supervisor believes in.
pub struct ProcessEntry {
    pub name: String,
    pub pid: u32,
    pub started_at: u64,
}

/// Mathematical model of a process-table entry.
#[verifier::ext_equal]
pub ghost struct ProcessEntryV {
    pub name: Seq<char>,
    pub pid: u32,
    pub started_at: u64,
}

impl View for ProcessEntry {
    type V = ProcessEntryV;

    open spec fn view(&self) -> ProcessEntryV {
        ProcessEntryV { name: self.name@, pid: self.pid, started_at: self.started_at }
    }
}

/// No two entries carry the same name.
pub open spec fn table_wf(t: Seq<ProcessEntryV>) -> bool {
    forall|i: int, j: int|
        0 <= i < j < t.len() ==> (#[trigger] t[i]).name != (#[trigger] t[j]).name
}

/// Whether the table holds an entry for this name.
pub open spec fn table_has(t: Seq<ProcessEntryV>, name: Seq<char>) -> bool {
    exists|i: int| 0 <= i < t.len() && (#[trigger] t[i]).name == name
}

/// The position of the entry for this name.
pub open spec fn table_index(t: Seq<ProcessEntryV>, name: Seq<char>) -> int {
    choose|i: int| 0 <= i < t.len() && (#[trigger] t[i]).name == name
}

/// The entry for this name.
pub open spec fn table_entry(t: Seq<ProcessEntryV>, name: Seq<char>) -> ProcessEntryV {
    t[table_index(t, name)]
}

/// The live process table: one entry per app the supervisor holds a
/// running process for.
pub struct ProcessTable {
    entries: Vec<ProcessEntry>,
}

impl View for ProcessTable {
    type V = Seq<ProcessEntryV>;

    closed spec fn view(&self) -> Seq<ProcessEntryV> {
        Seq::new(self.entries@.len(), |i: int| self.entries@[i]@)
    }
}

impl ProcessTable {
    /// An empty table.
    pub fn new() -> (r: ProcessTable)
        ensures
            r@.len() == 0,
            table_wf(r@),
    {
        let r = ProcessTable { entries: Vec::new() };
        proof {
            assert(r@ =~= Seq::<ProcessEntryV>::empty());
        }
        r
    }

    /// The number of live entries.
    pub fn len(&self) -> (r: usize)
        ensures
            r == self@.len(),
    {
        self.entries.len()
    }

    /// Whether an entry for this name is held.
    #[verifier::loop_isolation(false)]
    pub fn contains(&self, name: &str) -> (r: bool)
        ensures
            r == table_has(self@, name@),
    {
        let n = self.entries.len();
        let mut i: usize = 0;
        while i < n
            invariant
                n == self.entries.len(),
                0 <= i <= n,
                forall|j: int| 0 <= j < i ==> (#[trigger] self@[j]).name != name@,
            decreases n - i,
        {
            if crate::str_eq(self.entries[i].name.as_str(), name) {
                proof {
                    assert(self@[i as int].name == name@);
                }
                return true;
            }
            i += 1;
        }
        false
    }

    /// The process id and start time of the entry for this name.
    #[verifier::loop_isolation(false)]
    pub fn get(&self, name: &str) -> (r: Option<(u32, u64)>)
        requires
            table_wf(self@),
        ensures
            r is Some <==> table_has(self@, name@),
            r matches Some(e) ==> e.0 == table_entry(self@, name@).pid && e.1 == table_entry(
                self@,
                name@,
            ).started_at,
    {
        let n = self.entries.len();
        let mut i: usize = 0;
        while i < n
            invariant
                n == self.entries.len(),
                0 <= i <= n,
                forall|j: int| 0 <= j < i ==> (#[trigger] self@[j]).name != name@,
            decreases n - i,
        {
            if crate::str_eq(self.entries[i].name.as_str(), name) {
                proof {
                    assert(self@[i as int].name == name@);
                    assert(table_has(self@, name@));
                    let k = table_index(self@, name@);
                    if k != i as int {
                        assert(self@[k].name != self@[i as int].name);
                    }
                }
                return Some((self.entries[i].pid, self.entries[i].started_at));
            }
            i += 1;
        }
        None
    }

    /// Record a live process for a name not yet held.
    pub fn insert(&mut self, name: &str, pid: u32, started_at: u64)
        requires
            table_wf(old(self)@),
            !table_has(old(self)@, name@),
        ensures
            final(self)@ == old(self)@.push(
                ProcessEntryV { name: name@, pid, started_at },
            ),
            table_wf(final(self)@),
            table_has(final(self)@, name@),
    {
        let ghost pre = self@;
        let entry = ProcessEntry { name: String::from_str(name), pid, started_at };
        self.entries.push(entry);
        proof {
            assert(self@ =~= pre.push(ProcessEntryV { name: name@, pid, started_at }));
            assert(self@[pre.len() as int].name == name@);
            assert forall|a: int, b: int|
                0 <= a < b < self@.len() implies (#[trigger] self@[a]).name
                != (#[trigger] self@[b]).name by {
                if b == pre.len() as int {
                    assert(pre[a].name != name@);
                }
            }
        }
    }

    /// Drop the entry for this name, if one is held.
    #[verifier::loop_isolation(false)]
    pub fn remove(&mut self, name: &str)
        requires
            table_wf(old(self)@),
        ensures
            final(self)@ == old(self)@.filter(|e: ProcessEntryV| e.name != name@),
            table_wf(final(self)@),
            !table_has(final(self)@, name@),
    {
        let ghost pre = self@;
        let n = self.entries.len();
        let mut kept: Vec<ProcessEntry> = Vec::new();
        let mut i: usize = 0;
        proof {
            assert(pre.take(0) =~= Seq::<ProcessEntryV>::empty());
            assert(Seq::new(kept@.len(), |j: int| kept@[j]@) =~= Seq::<ProcessEntryV>::empty());
            reveal(Seq::filter);
        }
        while i < n
            invariant
                n == self.entries.len(),
                self@ == pre,
                0 <= i <= n,
                Seq::new(kept@.len(), |j: int| kept@[j]@) == pre.take(i as int).filter(
                    |e: ProcessEntryV| e.name != name@,
                ),
                forall|a: int|
                    0 <= a < kept@.len() ==> exists|j: int|
                        0 <= j < i && (#[trigger] kept@[a])@ == pre[j],
                forall|a: int, b: int|
                    0 <= a < b < kept@.len() ==> (#[trigger] kept@[a])@.name
                        != (#[trigger] kept@[b])@.name,
                forall|a: int| 0 <= a < kept@.len() ==> (#[trigger] kept@[a])@.name != name@,
            decreases n - i,
        {
            proof {
                crate::lemma_filter_take_step(pre, i as int, |e: ProcessEntryV| e.name != name@);
            }
            let ghost kept_pre = kept@;
            if !crate::str_eq(self.entries[i].name.as_str(), name) {
                let e = ProcessEntry {
                    name: self.entries[i].name.clone(),
                    pid: self.entries[i].pid,
                    started_at: self.entries[i].started_at,
                };
                kept.push(e);
                proof {
                    assert(kept@[kept@.len() - 1]@ == pre[i as int]);
                    assert forall|a: int| 0 <= a < kept@.len() - 1 implies (#[trigger] kept@[a])@
                        .name != kept@[kept@.len() - 1]@.name by {
                        assert(kept@[a] == kept_pre[a]);
                        let j = choose|j: int| 0 <= j < i && kept_pre[a]@ == pre[j];
                        assert(pre[j].name != pre[i as int].name);
                    }
                }
            }
            proof {
                assert(Seq::new(kept@.len(), |j: int| kept@[j]@) =~= pre.take(i + 1).filter(
                    |e: ProcessEntryV| e.name != name@,
                ));
            }
            i += 1;
        }
        self.entries = kept;
        proof {
            assert(pre.take(n as int) =~= pre);
            assert(self@ =~= Seq::new(kept@.len(), |j: int| kept@[j]@));
        }
    }
}

/// Rejection of a start request.
#[derive(Clone, PartialEq, Eq, Debug)]
pub enum StartError {
    /// No record carries this name.
    AppNotFound(String),
    /// The process table already holds a live handle for this name.
    AppAlreadyRunning(String),
    /// The record has no deployed binary.
    AppNotDeployed(String),
    /// The provider could not launch the process.
    AppStartFailed(String),
    /// The app's directory could not be prepared.
    AppDirectoryBroken(String),
    /// The app's log file could not be opened.
    AppLogBroken(String),
    /// The store could not be read or written.
    InternalError(String),
}

/// The supervisor: the live process table and the operations on it.
pub struct Supervisor {
    table: ProcessTable,
}

impl View for Supervisor {
    type V = Seq<ProcessEntryV>;

    closed spec fn view(&self) -> Seq<ProcessEntryV> {
        self.table@
    }
}

impl Supervisor {
    /// A supervisor with no live processes.
    pub fn new() -> (r: Supervisor)
        ensures
            r@.len() == 0,
            table_wf(r@),
    {
        Supervisor { table: ProcessTable::new() }
    }

    /// How many live processes the supervisor holds handles for.
    pub fn process_count(&self) -> (r: usize)
        ensures
            r == self@.len(),
    {
        self.table.len()
    }

    /// Whether the supervisor holds a live handle for this name.
    pub fn is_app_running(&self, name: &str) -> (r: bool)
        ensures
            r == table_has(self@, name@),
    {
        self.table.contains(name)
    }

    /// Start an app. Refused when no record carries the name, when the
    /// table already holds a live handle for it, or when no binary is
    /// deployed. Otherwise the record is persisted `Starting`, the
    /// provider launches the process, and on success a history row is
    /// opened, the record is persisted `Running` with the new process
    /// id, and the handle enters the table; a provider failure is
    /// wrapped in `AppStartFailed` and leaves the record `Starting`.
    pub fn handle_start<P: Provider>(
        &mut self,
        store: &mut Store,
        provider: &mut P,
        name: &str,
        now: u64,
    ) -> (r: Result<u32, StartError>)
        requires
            old(store)@.wf(),
            table_wf(old(self)@),
        ensures
            final(store)@.wf(),
            table_wf(final(self)@),
            !old(store)@.has_name(name@) ==> (r matches Err(StartError::AppNotFound(s)) && s@
                == name@) && final(store)@ == old(store)@ && final(self)@ == old(self)@,
            old(store)@.has_name(name@) && table_has(old(self)@, name@) ==> (r matches Err(
                StartError::AppAlreadyRunning(s),
            ) && s@ == name@) && final(store)@ == old(store)@ && final(self)@ == old(self)@,
            old(store)@.has_name(name@) && !table_has(old(self)@, name@) && old(
                store,
            )@.app_named(name@).binary_path is None ==> (r matches Err(StartError::AppNotDeployed(
                s,
            )) && s@ == name@) && final(store)@ == old(store)@ && final(self)@ == old(self)@,
            r matches Err(e) ==> (e is AppNotFound || e is AppAlreadyRunning
                || e is AppNotDeployed || e is AppStartFailed),
            r is Err ==> final(self)@ == old(self)@,
            r matches Err(StartError::AppNotFound(_)) ==> !old(store)@.has_name(name@),
            r matches Err(StartError::AppAlreadyRunning(_)) ==> table_has(old(self)@, name@),
            r matches Err(StartError::AppNotDeployed(_)) ==> old(store)@.has_name(name@)
                && !table_has(old(self)@, name@) && old(store)@.app_named(
                name@,
            ).binary_path is None,
            r matches Err(StartError::AppStartFailed(_)) ==> old(store)@.has_name(name@)
                && !table_has(old(self)@, name@) && old(store)@.app_named(
                name@,
            ).binary_path is Some && final(store)@.apps == old(store)@.apps.update(
                old(store)@.index_of_name(name@),
                AppV {
                    state: AppState::Starting,
                    updated_at: now,
                    ..old(store)@.app_named(name@)
                },
            ) && final(store)@.history == old(store)@.history,
            r matches Ok(pid) ==> old(store)@.has_name(name@) && !table_has(old(self)@, name@)
                && old(store)@.app_named(name@).binary_path is Some && final(self)@ == old(
                self,
            )@.push(ProcessEntryV { name: name@, pid, started_at: now }) && final(store)@.apps
                == old(store)@.apps.update(
                old(store)@.index_of_name(name@),
                AppV {
                    state: AppState::Running,
                    process_id: Some(pid),
                    updated_at: now,
                    ..old(store)@.app_named(name@)
                },
            ) && (exists|row_id: Seq<char>|
                final(store)@.history == old(store)@.history.push(
                    ProcessHistoryV {
                        id: row_id,
                        app_id: old(store)@.app_named(name@).id,
                        started_at: now,
                        ended_at: None,
                        exit_code: None,
                        exit_reason: None,
                    },
                )),
    {
        let ghost pre = store@;
        let app = match store.get_by_name(name) {
            Some(app) => app,
            None => {
                return Err(StartError::AppNotFound(String::from_str(name)));
            },
        };
        if self.table.contains(name) {
            return Err(StartError::AppAlreadyRunning(String::from_str(name)));
        }
        if app.binary_path.is_none() {
            return Err(StartError::AppNotDeployed(String::from_str(name)));
        }
        let mut starting = app;
        starting.state = AppState::Starting;
        starting.updated_at = now;
        proof {
            assert(starting@ =~= AppV {
                state: AppState::Starting,
                updated_at: now,
                ..pre.app_named(name@)
            });
            lemma_same_record_save_ok(pre, name@, starting@);
            lemma_with_saved_at_name(pre, name@, starting@);
        }
        store.save(&starting);
        let ghost mid = store@;
        let handle = match provider.start(&starting) {
            Ok(handle) => handle,
            Err(e) => {
                return Err(StartError::AppStartFailed(e.message()));
            },
        };
        let pid = handle.id();
        let hist = ProcessHistory::new(starting.id.as_str(), now);
        store.save_history(&hist);
        let ghost mid2 = store@;
        let mut running = starting;
        running.process_id = Some(pid);
        running.state = AppState::Running;
        running.updated_at = now;
        proof {
            assert(running@ =~= AppV {
                state: AppState::Running,
                process_id: Some(pid),
                updated_at: now,
                ..pre.app_named(name@)
            });
            let idx = pre.index_of_name(name@);
            assert(mid2.apps == pre.apps.update(idx, AppV {
                state: AppState::Starting,
                updated_at: now,
                ..pre.app_named(name@)
            }));
            assert(mid2.apps[idx].name == name@);
            assert(mid2.has_name(name@));
            let k = mid2.index_of_name(name@);
            if k != idx {
                assert(mid2.apps[k].name != mid2.apps[idx].name);
            }
            assert(mid2.app_named(name@).id == running@.id);
            lemma_same_record_save_ok(mid2, name@, running@);
            lemma_with_saved_at_name(mid2, name@, running@);
        }
        store.save(&running);
        proof {
            let idx = pre.index_of_name(name@);
            assert(store@.apps =~= pre.apps.update(idx, running@));
        }
        self.table.insert(name, pid, now);
        Ok(pid)
    }
}

/// The record fields every unexpected exit sets, before the restart
/// policy decides the state.
pub open spec fn exited_record(a: AppV, exit_code: i64, now: u64) -> AppV {
    AppV {
        process_id: None,
        last_exit_code: Some(exit_code),
        last_exit_time: Some(now),
        updated_at: now,
        ..a
    }
}

/// The restart counter after one more attempt; it sticks at the top of
/// its range rather than wrap.
pub open spec fn bumped(c: u32) -> u32 {
    if c < u32::MAX {
        (c + 1) as u32
    } else {
        c
    }
}

/// The capped linear backoff, in seconds, before restart attempt `c`.
pub open spec fn backoff_secs(c: u32) -> u32 {
    if c < 5 {
        c
    } else {
        5
    }
}

/// The reason recorded on a history row when a process ends on its own.
pub open spec fn exit_reason_of(code: i64) -> Seq<char> {
    if code == 0 {
        "Clean exit"@
    } else {
        "Crashed"@
    }
}

/// A history row after closing: ended now, with the exit code and
/// reason filled in; its identity, app and start time are untouched.
pub open spec fn closed_row(
    l: ProcessHistoryV,
    code: Option<i64>,
    reason: Seq<char>,
    now: u64,
) -> ProcessHistoryV {
    ProcessHistoryV { ended_at: Some(now), exit_code: code, exit_reason: Some(reason), ..l }
}

/// How closing one run changes the history: if the app has rows, some
/// newest row of it (its `started_at` at least every other's) is
/// closed in place — only `ended_at`, `exit_code` and `exit_reason`
/// change; an app without rows changes nothing.
pub open spec fn history_closed(
    pre: StoreV,
    post: Seq<ProcessHistoryV>,
    app_id: Seq<char>,
    code: Option<i64>,
    reason: Seq<char>,
    now: u64,
) -> bool {
    if pre.has_hist_for(app_id) {
        exists|l: ProcessHistoryV|
            {
                &&& #[trigger] pre.has_hist_row(l)
                &&& l.app_id == app_id
                &&& forall|i: int|
                    0 <= i < pre.history.len() && (#[trigger] pre.history[i]).app_id == app_id
                        ==> pre.history[i].started_at <= l.started_at
                &&& post == Seq::new(
                    pre.history.len(),
                    |i: int|
                        if pre.history[i].id == l.id {
                            closed_row(pre.history[i], code, reason, now)
                        } else {
                            pre.history[i]
                        },
                )
            }
    } else {
        post == pre.history
    }
}

/// The whole exit decision as one transition: the record after a
/// process ended with `code`, and what the supervisor does next.
pub open spec fn exit_step(a: AppV, code: i64, now: u64) -> (AppV, ExitOutcome) {
    let base = exited_record(a, code, now);
    if base.should_restart() && base.reached_max_restarts() {
        (AppV { state: AppState::Crashed, ..base }, ExitOutcome::Crashed)
    } else if base.should_restart() {
        (
            AppV { state: AppState::Restarting, restart_count: bumped(base.restart_count), ..base },
            ExitOutcome::RestartAfter(backoff_secs(bumped(base.restart_count))),
        )
    } else if code == 0 {
        (AppV { state: AppState::Stopped, ..base }, ExitOutcome::Stopped)
    } else {
        (AppV { state: AppState::Failed, ..base }, ExitOutcome::Failed)
    }
}

/// The record after `k` failing exits in a row, each followed by the
/// automatic restart the policy asks for. Starting an app changes
/// neither its policy nor its restart count, so the exits compose.
pub open spec fn exits_iter(a: AppV, code: i64, now: u64, k: nat) -> AppV
    decreases k,
{
    if k == 0 {
        a
    } else {
        exit_step(exits_iter(a, code, now, (k - 1) as nat), code, now).0
    }
}

/// Law: under policy `OnFailure` with cap `m`, a process that keeps
/// exiting with a non-zero code is restarted with the count rising by
/// exactly one each time, until the count reaches the cap; the next
/// failing exit then yields the terminal state `Crashed`, and no
/// further start is issued for it.
pub proof fn lemma_repeated_failures_reach_crashed(a: AppV, code: i64, now: u64, k: nat)
    requires
        a.restart_policy == crate::models::RestartPolicy::OnFailure,
        a.max_restarts matches Some(m) && a.restart_count + k <= m,
        code != 0,
    ensures
        exits_iter(a, code, now, k).restart_count == a.restart_count + k,
        exits_iter(a, code, now, k).restart_policy == a.restart_policy,
        exits_iter(a, code, now, k).max_restarts == a.max_restarts,
        k > 0 ==> exits_iter(a, code, now, k).state == AppState::Restarting,
        k > 0 ==> exit_step(exits_iter(a, code, now, (k - 1) as nat), code, now).1
            == ExitOutcome::RestartAfter(backoff_secs((a.restart_count + k) as u32)),
        a.restart_count + k == a.max_restarts.unwrap() ==> exit_step(
            exits_iter(a, code, now, k),
            code,
            now,
        ).1 == ExitOutcome::Crashed && exit_step(exits_iter(a, code, now, k), code, now).0.state
            == AppState::Crashed,
    decreases k,
{
    let m = a.max_restarts.unwrap();
    if k > 0 {
        lemma_repeated_failures_reach_crashed(a, code, now, (k - 1) as nat);
        let prev = exits_iter(a, code, now, (k - 1) as nat);
        let base = exited_record(prev, code, now);
        assert(base.should_restart());
        assert(!base.reached_max_restarts());
        assert(bumped(base.restart_count) == base.restart_count + 1);
    }
    let last = exits_iter(a, code, now, k);
    if a.restart_count + k == m {
        let base = exited_record(last, code, now);
        assert(base.should_restart());
        assert(base.reached_max_restarts());
    }
}

/// Two stores with the same records agree on every lookup by name.
pub proof fn lemma_app_named_same_apps(s1: StoreV, s2: StoreV, name: Seq<char>)
    requires
        s1.apps == s2.apps,
        s1.wf(),
    ensures
        s1.has_name(name) == s2.has_name(name),
        s2.wf(),
        s1.has_name(name) ==> s1.index_of_name(name) == s2.index_of_name(name) && s1.app_named(
            name,
        ) == s2.app_named(name),
{
    if s1.has_name(name) {
        let k1 = s1.index_of_name(name);
        assert(0 <= k1 < s2.apps.len() && s2.apps[k1].name == name);
        assert(s2.has_name(name));
        let k2 = s2.index_of_name(name);
        assert(s1.apps[k2].name == name);
        if k1 != k2 {
            assert(s1.apps[k1].name != s1.apps[k2].name);
        }
    }
    if s2.has_name(name) {
        let k2 = s2.index_of_name(name);
        assert(s1.apps[k2].name == name);
        assert(s1.has_name(name));
    }
}

/// Close the newest history row of one app: ended now, with the exit
/// code and reason given. An app without rows is left as it is.
fn close_latest_history(
    store: &mut Store,
    app_id: &str,
    exit_code: Option<i64>,
    reason: &str,
    now: u64,
)
    requires
        old(store)@.wf(),
    ensures
        final(store)@.apps == old(store)@.apps,
        final(store)@.wf(),
        history_closed(old(store)@, final(store)@.history, app_id@, exit_code, reason@, now),
{
    let ghost pre = store@;
    match store.latest_history_for(app_id) {
        Some(latest) => {
            let mut closed = latest;
            closed.ended_at = Some(now);
            closed.exit_code = exit_code;
            closed.exit_reason = Some(String::from_str(reason));
            let ghost l = latest@;
            proof {
                assert(closed@.id == l.id);
                assert(closed@.ended_at == Some(now));
                assert(closed@.exit_code == exit_code);
                assert(closed@.exit_reason == Some(reason@));
            }
            store.save_history(&closed);
            proof {
                assert(store@.history =~= Seq::new(
                    pre.history.len(),
                    |i: int|
                        if pre.history[i].id == l.id {
                            closed_row(pre.history[i], exit_code, reason@, now)
                        } else {
                            pre.history[i]
                        },
                ));
            }
        },
        None => {},
    }
}

/// What the supervisor decided after a process ended on its own; the
/// caller performs the action.
#[derive(Clone, Copy, PartialEq, Eq, Structural, Debug)]
pub enum ExitOutcome {
    /// The policy asks for a restart: sleep this many seconds, then
    /// start the app again.
    RestartAfter(u32),
    /// The restart cap is reached: the app is terminal until an
    /// explicit start revives it.
    Crashed,
    /// A clean exit under a policy that does not restart it.
    Stopped,
    /// A failing exit under a policy that does not restart it.
    Failed,
}

impl Supervisor {
    /// A supervised process ended on its own. The live handle is
    /// dropped, the newest history row is closed with the exit code and
    /// a derived reason, the exit is recorded on the app, and the
    /// restart policy decides: `Crashed` when the cap is reached while
    /// a restart is wanted, `RestartAfter` with capped linear backoff
    /// when a restart is wanted, else `Stopped` on a clean exit or
    /// `Failed` on a failing one.
    pub fn handle_process_exit(
        &mut self,
        store: &mut Store,
        name: &str,
        exit_code: i64,
        now: u64,
    ) -> (r: Result<ExitOutcome, BinaryDropError>)
        requires
            old(store)@.wf(),
            table_wf(old(self)@),
        ensures
            final(store)@.wf(),
            table_wf(final(self)@),
            r is Err <==> !old(store)@.has_name(name@),
            r matches Err(e) ==> (e matches BinaryDropError::AppNotFound(s) && s@ == name@)
                && final(store)@ == old(store)@ && final(self)@ == old(self)@,
            r is Ok ==> final(self)@ == old(self)@.filter(|e: ProcessEntryV| e.name != name@),
            r is Ok ==> history_closed(
                old(store)@,
                final(store)@.history,
                old(store)@.app_named(name@).id,
                Some(exit_code),
                exit_reason_of(exit_code),
                now,
            ),
            r matches Ok(outcome) ==> outcome == exit_step(
                old(store)@.app_named(name@),
                exit_code,
                now,
            ).1 && final(store)@.apps == old(store)@.apps.update(
                old(store)@.index_of_name(name@),
                exit_step(old(store)@.app_named(name@), exit_code, now).0,
            ),
            r matches Ok(outcome) ==> ({
                let base = exited_record(old(store)@.app_named(name@), exit_code, now);
                let idx = old(store)@.index_of_name(name@);
                &&& (outcome == ExitOutcome::Crashed <==> base.should_restart()
                    && base.reached_max_restarts())
                &&& (outcome == ExitOutcome::Stopped <==> !base.should_restart() && exit_code
                    == 0)
                &&& (outcome == ExitOutcome::Failed <==> !base.should_restart() && exit_code != 0)
                &&& (base.should_restart() && base.reached_max_restarts() ==> final(store)@.apps
                    == old(store)@.apps.update(
                    idx,
                    AppV { state: AppState::Crashed, ..base },
                ))
                &&& (base.should_restart() && !base.reached_max_restarts() ==> outcome
                    == ExitOutcome::RestartAfter(backoff_secs(bumped(base.restart_count)))
                    && final(store)@.apps == old(store)@.apps.update(
                    idx,
                    AppV {
                        state: AppState::Restarting,
                        restart_count: bumped(base.restart_count),
                        ..base
                    },
                ))
                &&& (!base.should_restart() ==> final(store)@.apps == old(store)@.apps.update(
                    idx,
                    AppV {
                        state: if exit_code == 0 {
                            AppState::Stopped
                        } else {
                            AppState::Failed
                        },
                        ..base
                    },
                ))
            }),
    {
        let ghost pre = store@;
        let app = match store.get_by_name(name) {
            Some(app) => app,
            None => {
                return Err(BinaryDropError::AppNotFound(String::from_str(name)));
            },
        };
        self.table.remove(name);
        let mut base = app;
        base.process_id = None;
        base.last_exit_code = Some(exit_code);
        base.last_exit_time = Some(now);
        base.updated_at = now;
        proof {
            assert(base@ =~= exited_record(pre.app_named(name@), exit_code, now));
        }
        let reason: &str = if exit_code == 0 {
            "Clean exit"
        } else {
            "Crashed"
        };
        close_latest_history(store, base.id.as_str(), Some(exit_code), reason, now);
        let ghost mid = store@;
        proof {
            lemma_app_named_same_apps(pre, mid, name@);
        }
        if base.should_restart() {
            if base.reached_max_restarts() {
                base.state = AppState::Crashed;
                proof {
                    lemma_same_record_save_ok(mid, name@, base@);
                    lemma_with_saved_at_name(mid, name@, base@);
                }
                store.save(&base);
                proof {
                    assert(store@.apps =~= pre.apps.update(pre.index_of_name(name@), base@));
                }
                Ok(ExitOutcome::Crashed)
            } else {
                let c = if base.restart_count < u32::MAX {
                    base.restart_count + 1
                } else {
                    base.restart_count
                };
                base.restart_count = c;
                base.state = AppState::Restarting;
                proof {
                    lemma_same_record_save_ok(mid, name@, base@);
                    lemma_with_saved_at_name(mid, name@, base@);
                }
                store.save(&base);
                proof {
                    assert(store@.apps =~= pre.apps.update(pre.index_of_name(name@), base@));
                }
                let backoff = if c < 5 {
                    c
                } else {
                    5
                };
                Ok(ExitOutcome::RestartAfter(backoff))
            }
        } else {
            let failed = exit_code != 0;
            base.state = if failed {
                AppState::Failed
            } else {
                AppState::Stopped
            };
            proof {
                lemma_same_record_save_ok(mid, name@, base@);
                lemma_with_saved_at_name(mid, name@, base@);
            }
            store.save(&base);
            proof {
                assert(store@.apps =~= pre.apps.update(pre.index_of_name(name@), base@));
            }
            if failed {
                Ok(ExitOutcome::Failed)
            } else {
                Ok(ExitOutcome::Stopped)
            }
        }
    }
}

/// What a stop request asks of its caller.
#[derive(Clone, Copy, PartialEq, Eq, Structural, Debug)]
pub enum StopAction {
    /// A live process is held: send it the kill signal, wait for it to
    /// exit, then report back through `stop_finish`.
    Kill(u32),
    /// No live process despite the record: the record was reconciled to
    /// `Stopped` and nothing is left to do.
    AlreadyStopped,
}

impl Supervisor {
    /// Begin stopping an app. With a live handle, the record moves to
    /// `Stopping`, the handle leaves the table, and the caller must
    /// kill the process and wait for it; without one, the record is
    /// reconciled to `Stopped` with no process id — a recoverable
    /// inconsistency, not a failure.
    pub fn stop_begin(&mut self, store: &mut Store, name: &str, now: u64) -> (r: Result<
        StopAction,
        BinaryDropError,
    >)
        requires
            old(store)@.wf(),
            table_wf(old(self)@),
        ensures
            final(store)@.wf(),
            table_wf(final(self)@),
            r is Err <==> !old(store)@.has_name(name@),
            r matches Err(e) ==> (e matches BinaryDropError::AppNotFound(s) && s@ == name@)
                && final(store)@ == old(store)@ && final(self)@ == old(self)@,
            r is Ok ==> final(store)@.history == old(store)@.history,
            old(store)@.has_name(name@) && table_has(old(self)@, name@) ==> r == Ok::<
                StopAction,
                BinaryDropError,
            >(StopAction::Kill(table_entry(old(self)@, name@).pid)) && final(self)@ == old(
                self,
            )@.filter(|e: ProcessEntryV| e.name != name@) && final(store)@.apps == old(
                store,
            )@.apps.update(
                old(store)@.index_of_name(name@),
                AppV {
                    state: AppState::Stopping,
                    updated_at: now,
                    ..old(store)@.app_named(name@)
                },
            ),
            old(store)@.has_name(name@) && !table_has(old(self)@, name@) ==> r == Ok::<
                StopAction,
                BinaryDropError,
            >(StopAction::AlreadyStopped) && final(self)@ == old(self)@ && final(store)@.apps
                == old(store)@.apps.update(
                old(store)@.index_of_name(name@),
                AppV {
                    state: AppState::Stopped,
                    process_id: None,
                    updated_at: now,
                    ..old(store)@.app_named(name@)
                },
            ),
    {
        let ghost pre = store@;
        let app = match store.get_by_name(name) {
            Some(app) => app,
            None => {
                return Err(BinaryDropError::AppNotFound(String::from_str(name)));
            },
        };
        match self.table.get(name) {
            Some((pid, _started_at)) => {
                self.table.remove(name);
                let mut stopping = app;
                stopping.state = AppState::Stopping;
                stopping.updated_at = now;
                proof {
                    assert(stopping@ =~= AppV {
                        state: AppState::Stopping,
                        updated_at: now,
                        ..pre.app_named(name@)
                    });
                    lemma_same_record_save_ok(pre, name@, stopping@);
                    lemma_with_saved_at_name(pre, name@, stopping@);
                }
                store.save(&stopping);
                Ok(StopAction::Kill(pid))
            },
            None => {
                let mut stopped = app;
                stopped.state = AppState::Stopped;
                stopped.process_id = None;
                stopped.updated_at = now;
                proof {
                    assert(stopped@ =~= AppV {
                        state: AppState::Stopped,
                        process_id: None,
                        updated_at: now,
                        ..pre.app_named(name@)
                    });
                    lemma_same_record_save_ok(pre, name@, stopped@);
                    lemma_with_saved_at_name(pre, name@, stopped@);
                }
                store.save(&stopped);
                Ok(StopAction::AlreadyStopped)
            },
        }
    }

    /// Finish stopping an app once its process has been killed and
    /// waited for: the newest history row is closed with the observed
    /// exit code and the reason `Stopped by user`, and the record moves
    /// to `Stopped` with no process id and the exit recorded.
    pub fn stop_finish(
        &mut self,
        store: &mut Store,
        name: &str,
        exit_code: Option<i64>,
        now: u64,
    ) -> (r: Result<(), BinaryDropError>)
        requires
            old(store)@.wf(),
            table_wf(old(self)@),
        ensures
            final(store)@.wf(),
            table_wf(final(self)@),
            final(self)@ == old(self)@,
            r is Err <==> !old(store)@.has_name(name@),
            r matches Err(e) ==> (e matches BinaryDropError::AppNotFound(s) && s@ == name@)
                && final(store)@ == old(store)@,
            r is Ok ==> history_closed(
                old(store)@,
                final(store)@.history,
                old(store)@.app_named(name@).id,
                exit_code,
                "Stopped by user"@,
                now,
            ),
            r is Ok ==> final(store)@.apps == old(store)@.apps.update(
                old(store)@.index_of_name(name@),
                AppV {
                    state: AppState::Stopped,
                    process_id: None,
                    last_exit_code: exit_code,
                    last_exit_time: Some(now),
                    updated_at: now,
                    ..old(store)@.app_named(name@)
                },
            ),
    {
        let ghost pre = store@;
        let app = match store.get_by_name(name) {
            Some(app) => app,
            None => {
                return Err(BinaryDropError::AppNotFound(String::from_str(name)));
            },
        };
        close_latest_history(store, app.id.as_str(), exit_code, "Stopped by user", now);
        let ghost mid = store@;
        proof {
            lemma_app_named_same_apps(pre, mid, name@);
        }
        let mut stopped = app;
        stopped.state = AppState::Stopped;
        stopped.process_id = None;
        stopped.last_exit_code = exit_code;
        stopped.last_exit_time = Some(now);
        stopped.updated_at = now;
        proof {
            assert(stopped@ =~= AppV {
                state: AppState::Stopped,
                process_id: None,
                last_exit_code: exit_code,
                last_exit_time: Some(now),
                updated_at: now,
                ..pre.app_named(name@)
            });
            lemma_same_record_save_ok(mid, name@, stopped@);
            lemma_with_saved_at_name(mid, name@, stopped@);
        }
        store.save(&stopped);
        proof {
            assert(store@.apps =~= pre.apps.update(pre.index_of_name(name@), stopped@));
        }
        Ok(())
    }

    /// Whether a restart must stop the app first: exactly when the
    /// record's state is `Running`.
    pub fn restart_needs_stop(&self, store: &Store, name: &str) -> (r: Result<
        bool,
        BinaryDropError,
    >)
        requires
            store@.wf(),
        ensures
            r is Ok <==> store@.has_name(name@),
            r matches Err(e) ==> (e matches BinaryDropError::AppNotFound(s) && s@ == name@),
            r matches Ok(b) ==> b == (store@.app_named(name@).state == AppState::Running),
    {
        match store.get_by_name(name) {
            Some(app) => Ok(app.is_running()),
            None => Err(BinaryDropError::AppNotFound(String::from_str(name))),
        }
    }
}

/// What a health-check request asks of its caller.
#[derive(Clone, Debug)]
pub enum HealthPlan {
    /// The app is not running or has no health check: nothing to do.
    Skip,
    /// Send an HTTP GET to `http://<host>:<port><path>` with the given
    /// timeout in seconds; the check passes exactly when the response
    /// status equals `expected_status`.
    Probe { host: String, port: u16, path: String, timeout: u32, expected_status: u16 },
}

/// Whether a probe's observed status passes the check.
pub fn health_passed(expected_status: u16, got_status: u16) -> (r: bool)
    ensures
        r == (expected_status == got_status),
{
    expected_status == got_status
}

/// Whether the periodic driver owes this record a probe.
pub open spec fn needs_check(a: AppV) -> bool {
    a.state == AppState::Running && a.health_check is Some
}

impl Supervisor {
    /// Decide a health check: no record is an error; a record that is
    /// not `Running` or has no check configured is skipped; a `Running`
    /// record with a check but no live handle is an error; otherwise
    /// the configured probe is handed back for the caller to perform.
    pub fn health_check_plan(&self, store: &Store, name: &str) -> (r: Result<
        HealthPlan,
        BinaryDropError,
    >)
        requires
            store@.wf(),
            table_wf(self@),
        ensures
            r is Err <==> (!store@.has_name(name@) || (store@.has_name(name@) && needs_check(
                store@.app_named(name@),
            ) && !table_has(self@, name@))),
            !store@.has_name(name@) ==> (r matches Err(BinaryDropError::AppNotFound(s)) && s@
                == name@),
            store@.has_name(name@) && needs_check(store@.app_named(name@)) && !table_has(
                self@,
                name@,
            ) ==> (r matches Err(e) && e is ProcessError),
            store@.has_name(name@) && !needs_check(store@.app_named(name@)) ==> (r matches Ok(p)
                && p is Skip),
            store@.has_name(name@) && needs_check(store@.app_named(name@)) && table_has(
                self@,
                name@,
            ) ==> (r matches Ok(HealthPlan::Probe { host, port, path, timeout, expected_status })
                && ({
                let a = store@.app_named(name@);
                &&& host@ == a.host
                &&& port == a.port
                &&& a.health_check matches Some(hc) && timeout == hc.timeout
                    && (hc.check_type matches crate::models::HealthCheckTypeV::HttpGet {
                    path: spec_path,
                    expected_status: spec_status,
                } && path@ == spec_path && expected_status == spec_status)
            })),
    {
        let app = match store.get_by_name(name) {
            Some(app) => app,
            None => {
                return Err(BinaryDropError::AppNotFound(String::from_str(name)));
            },
        };
        if !app.is_running() {
            return Ok(HealthPlan::Skip);
        }
        let hc = match &app.health_check {
            Some(hc) => hc,
            None => {
                return Ok(HealthPlan::Skip);
            },
        };
        if !self.table.contains(name) {
            return Err(BinaryDropError::ProcessError(String::from_str(name)));
        }
        match &hc.check_type {
            crate::models::HealthCheckType::HttpGet { path, expected_status } => Ok(
                HealthPlan::Probe {
                    host: app.host.clone(),
                    port: app.port,
                    path: path.clone(),
                    timeout: hc.timeout,
                    expected_status: *expected_status,
                },
            ),
        }
    }
}

/// The names the periodic health checker must probe this tick: every
/// `Running` record with a configured check, in store order.
#[verifier::loop_isolation(false)]
pub fn apps_to_check(store: &Store) -> (r: Vec<String>)
    ensures
        Seq::new(r@.len(), |i: int| r@[i]@) == store@.apps.filter(
            |a: AppV| needs_check(a),
        ).map_values(|a: AppV| a.name),
{
    let n = store.count();
    let mut r: Vec<String> = Vec::new();
    let mut i: usize = 0;
    proof {
        assert(store@.apps.take(0) =~= Seq::<AppV>::empty());
        assert(Seq::new(r@.len(), |j: int| r@[j]@) =~= Seq::<Seq<char>>::empty());
        assert(store@.apps.take(0).filter(|a: AppV| needs_check(a)).map_values(
            |a: AppV| a.name,
        ) =~= Seq::<Seq<char>>::empty());
        reveal(Seq::filter);
    }
    while i < n
        invariant
            n == store@.apps.len(),
            0 <= i <= n,
            Seq::new(r@.len(), |j: int| r@[j]@) == store@.apps.take(i as int).filter(
                |a: AppV| needs_check(a),
            ).map_values(|a: AppV| a.name),
        decreases n - i,
    {
        proof {
            crate::lemma_filter_take_step(store@.apps, i as int, |a: AppV| needs_check(a));
        }
        let app = store.app_at(i);
        let ghost r_pre = r@;
        if app.is_running() && app.health_check.is_some() {
            r.push(app.name);
            proof {
                let p = |a: AppV| needs_check(a);
                let f = |a: AppV| a.name;
                let fp = store@.apps.take(i as int).filter(p);
                assert(store@.apps.take(i + 1).filter(p) == fp.push(store@.apps[i as int]));
                assert(fp.push(store@.apps[i as int]).map_values(f) =~= fp.map_values(f).push(
                    store@.apps[i as int].name,
                ));
                assert(Seq::new(r@.len(), |j: int| r@[j]@) =~= Seq::new(
                    r_pre.len(),
                    |j: int| r_pre[j]@,
                ).push(app@.name));
                assert(Seq::new(r@.len(), |j: int| r@[j]@) =~= store@.apps.take(i + 1).filter(
                    p,
                ).map_values(f));
            }
        } else {
            proof {
                assert(Seq::new(r@.len(), |j: int| r@[j]@) =~= store@.apps.take(i + 1).filter(
                    |a: AppV| needs_check(a),
                ).map_values(|a: AppV| a.name));
            }
        }
        i += 1;
    }
    proof {
        assert(store@.apps.take(n as int) =~= store@.apps);
    }
    r
}

/// The difference of two times, floored at zero.
pub open spec fn elapsed_secs(now: u64, since: u64) -> u64 {
    if now >= since {
        (now - since) as u64
    } else {
        0
    }
}

/// A point-in-time summary of one app.
pub struct AppStats {
    pub app_name: String,
    pub state: AppState,
    pub uptime_secs: Option<u64>,
    pub pid: Option<u32>,
    pub restart_count: u32,
    pub last_exit_code: Option<i64>,
    pub last_exit_time: Option<u64>,
    pub total_runs: usize,
}

impl Supervisor {
    /// Summarize one app: its record's state and exit bookkeeping, the
    /// uptime of its live process if one is held, and how many runs its
    /// history holds.
    pub fn get_app_stats(&self, store: &Store, name: &str, now: u64) -> (r: Option<AppStats>)
        requires
            store@.wf(),
            table_wf(self@),
        ensures
            r is Some <==> store@.has_name(name@),
            r matches Some(st) ==> ({
                let a = store@.app_named(name@);
                &&& st.app_name@ == a.name
                &&& st.state == a.state
                &&& st.pid == a.process_id
                &&& st.restart_count == a.restart_count
                &&& st.last_exit_code == a.last_exit_code
                &&& st.last_exit_time == a.last_exit_time
                &&& st.total_runs == store@.hist_for(a.id).len()
                &&& (table_has(self@, name@) ==> st.uptime_secs == Some(
                    elapsed_secs(now, table_entry(self@, name@).started_at),
                ))
                &&& (!table_has(self@, name@) ==> st.uptime_secs is None)
            }),
    {
        let app = match store.get_by_name(name) {
            Some(app) => app,
            None => {
                return None;
            },
        };
        let uptime_secs = match self.table.get(name) {
            Some((_pid, started_at)) => Some(
                if now >= started_at {
                    now - started_at
                } else {
                    0
                },
            ),
            None => None,
        };
        let history = store.get_by_app_id(app.id.as_str());
        Some(
            AppStats {
                app_name: app.name,
                state: app.state,
                uptime_secs,
                pid: app.process_id,
                restart_count: app.restart_count,
                last_exit_code: app.last_exit_code,
                last_exit_time: app.last_exit_time,
                total_runs: history.len(),
            },
        )
    }

    /// Warm restore at supervisor startup: every record persisted
    /// `Running` is relaunched through the provider; one that cannot be
    /// launched is demoted to `Failed` rather than left a dangling
    /// `Running` record with no backing process. A record that comes
    /// back `Running` holds a live handle in the table, a recorded
    /// process id and a freshly opened history row; the table holds
    /// nothing else, and the returned count is its size — the number of
    /// records relaunched. Records not persisted `Running` are
    /// untouched.
    pub fn warm_restore<P: Provider>(
        &mut self,
        store: &mut Store,
        provider: &mut P,
        now: u64,
    ) -> (count: usize)
        requires
            old(store)@.wf(),
            table_wf(old(self)@),
            old(self)@.len() == 0,
        ensures
            final(store)@.wf(),
            table_wf(final(self)@),
            final(store)@.apps.len() == old(store)@.apps.len(),
            count == final(self)@.len(),
            forall|k: int|
                0 <= k < old(store)@.apps.len() && (#[trigger] old(store)@.apps[k]).state
                    == AppState::Running ==> ({
                    let b = final(store)@.apps[k];
                    &&& (b.state == AppState::Running || b.state == AppState::Failed)
                    &&& b.name == old(store)@.apps[k].name
                    &&& b.id == old(store)@.apps[k].id
                    &&& (b.state == AppState::Running <==> table_has(final(self)@, b.name))
                    &&& (b.state == AppState::Running ==> b.process_id is Some && (exists|j: int|
                        0 <= j < final(store)@.history.len()
                            && (#[trigger] final(store)@.history[j]).app_id == b.id
                            && final(store)@.history[j].started_at == now
                            && final(store)@.history[j].ended_at is None))
                }),
            forall|k: int|
                0 <= k < old(store)@.apps.len() && (#[trigger] old(store)@.apps[k]).state
                    != AppState::Running ==> final(store)@.apps[k] == old(store)@.apps[k],
            forall|e: int|
                0 <= e < final(self)@.len() ==> old(store)@.has_name(
                    (#[trigger] final(self)@[e]).name,
                ) && old(store)@.app_named(final(self)@[e].name).state == AppState::Running
                    && final(store)@.has_name(final(self)@[e].name) && final(store)@.app_named(
                    final(self)@[e].name,
                ).state == AppState::Running,
    {
        let ghost pre = store@;
        // For each table entry, the position of the record it was
        // opened for.
        let ghost mut origins: Seq<int> = Seq::empty();
        let n = store.count();
        let mut count: usize = 0;
        let mut i: usize = 0;
        while i < n
            invariant
                n == pre.apps.len(),
                store@.wf(),
                table_wf(self@),
                store@.apps.len() == pre.apps.len(),
                0 <= i <= n,
                count <= i,
                count == self@.len(),
                forall|k: int|
                    0 <= k < i && (#[trigger] pre.apps[k]).state == AppState::Running ==> ({
                        let b = store@.apps[k];
                        &&& (b.state == AppState::Running || b.state == AppState::Failed)
                        &&& b.name == pre.apps[k].name
                        &&& b.id == pre.apps[k].id
                        &&& (b.state == AppState::Running <==> table_has(self@, b.name))
                        &&& (b.state == AppState::Running ==> b.process_id is Some && (exists|
                            j: int,
                        |
                            0 <= j < store@.history.len() && (#[trigger] store@.history[j]).app_id
                                == b.id && store@.history[j].started_at == now
                                && store@.history[j].ended_at is None))
                    }),
                forall|k: int|
                    0 <= k < i && (#[trigger] pre.apps[k]).state != AppState::Running
                        ==> store@.apps[k] == pre.apps[k],
                forall|k: int| i <= k < n ==> (#[trigger] store@.apps[k]) == pre.apps[k],
                forall|k: int| i <= k < n ==> !table_has(self@, (#[trigger] pre.apps[k]).name),
                origins.len() == self@.len(),
                forall|e: int| 0 <= e < self@.len() ==> 0 <= #[trigger] origins[e] < i,
                forall|e: int|
                    0 <= e < self@.len() ==> (#[trigger] pre.apps[origins[e]]).state
                        == AppState::Running && pre.apps[origins[e]].name == self@[e].name,
            decreases n - i,
        {
            let app = store.app_at(i);
            let ghost table_pre = self@;
            if app.is_running() {
                let ghost loop_pre = store@;
                proof {
                    assert(loop_pre.apps[i as int].name == app@.name);
                    assert(loop_pre.has_name(app@.name));
                    let k = loop_pre.index_of_name(app@.name);
                    if k != i as int {
                        assert(loop_pre.apps[k].name != loop_pre.apps[i as int].name);
                    }
                    assert(loop_pre.index_of_name(app@.name) == i as int);
                }
                match self.handle_start(store, provider, app.name.as_str(), now) {
                    Ok(_) => {
                        count += 1;
                        proof {
                            assert(store@.apps[i as int].state == AppState::Running);
                            assert(store@.apps[i as int].name == loop_pre.apps[i as int].name);
                            assert(self@ == table_pre.push(self@[table_pre.len() as int]));
                            assert(self@[table_pre.len() as int].name == app@.name);
                            assert(table_has(self@, app@.name));
                            let last = store@.history.len() - 1;
                            assert(store@.history[last].app_id == app@.id);
                            assert(store@.history[last].started_at == now);
                            assert(store@.history[last].ended_at is None);
                            assert forall|nm: Seq<char>| nm != app@.name implies table_has(
                                self@,
                                nm,
                            ) == table_has(table_pre, nm) by {
                                if table_has(self@, nm) {
                                    let e = choose|e: int|
                                        0 <= e < self@.len() && (#[trigger] self@[e]).name == nm;
                                    assert(e < table_pre.len() && table_pre[e].name == nm);
                                    assert(table_has(table_pre, nm));
                                }
                                if table_has(table_pre, nm) {
                                    let e = choose|e: int|
                                        0 <= e < table_pre.len() && (#[trigger] table_pre[e]).name
                                            == nm;
                                    assert(self@[e].name == nm);
                                    assert(table_has(self@, nm));
                                }
                            }
                            assert forall|k: int|
                                0 <= k < i && (#[trigger] pre.apps[k]).state == AppState::Running
                                    && loop_pre.apps[k].state == AppState::Running implies (exists|
                                j: int,
                            |
                                0 <= j < store@.history.len()
                                    && (#[trigger] store@.history[j]).app_id == store@.apps[k].id
                                    && store@.history[j].started_at == now
                                    && store@.history[j].ended_at is None) by {
                                let j = choose|j: int|
                                    0 <= j < loop_pre.history.len()
                                        && (#[trigger] loop_pre.history[j]).app_id
                                        == loop_pre.apps[k].id && loop_pre.history[j].started_at
                                        == now && loop_pre.history[j].ended_at is None;
                                assert(store@.history[j] == loop_pre.history[j]);
                                assert(store@.apps[k] == loop_pre.apps[k]);
                            }
                            assert forall|k: int|
                                0 <= k < i && (#[trigger] pre.apps[k]).state == AppState::Running
                                    && loop_pre.apps[k].state != AppState::Running implies
                                !table_has(self@, loop_pre.apps[k].name) by {
                                assert(pre.apps[k].name != pre.apps[i as int].name);
                                assert(loop_pre.apps[k].name == pre.apps[k].name);
                                assert(!table_has(table_pre, loop_pre.apps[k].name));
                            }
                            origins = origins.push(i as int);
                            assert(pre.apps[i as int].state == AppState::Running);
                            assert(pre.apps[i as int].name == app@.name);
                            assert(forall|e: int|
                                0 <= e < table_pre.len() ==> #[trigger] self@[e]
                                    == table_pre[e]);
                        }
                    },
                    Err(_) => {
                        let ghost mid = store@;
                        proof {
                            assert(mid.apps.len() == loop_pre.apps.len());
                            assert(mid.apps[i as int].name == app@.name);
                            assert(mid.apps[i as int].id == app@.id);
                            assert(forall|k: int|
                                0 <= k < mid.apps.len() && k != i as int
                                    ==> (#[trigger] mid.apps[k]) == loop_pre.apps[k]);
                            assert(mid.has_name(app@.name));
                            let k = mid.index_of_name(app@.name);
                            if k != i as int {
                                assert(mid.apps[k].name != mid.apps[i as int].name);
                            }
                            assert(mid.index_of_name(app@.name) == i as int);
                        }
                        match store.get_by_name(app.name.as_str()) {
                            Some(broken) => {
                                let mut failed = broken;
                                failed.state = AppState::Failed;
                                failed.updated_at = now;
                                proof {
                                    lemma_same_record_save_ok(mid, app@.name, failed@);
                                    lemma_with_saved_at_name(mid, app@.name, failed@);
                                }
                                store.save(&failed);
                                proof {
                                    assert(store@.apps[i as int].state == AppState::Failed);
                                    assert(store@.apps[i as int].name == app@.name);
                                    assert(store@.apps[i as int].id == app@.id);
                                    assert(self@ == table_pre);
                                    assert(!table_has(self@, pre.apps[i as int].name));
                                    assert(forall|k: int|
                                        0 <= k < store@.apps.len() && k != i as int
                                            ==> (#[trigger] store@.apps[k]) == loop_pre.apps[k]);
                                    assert(store@.history == loop_pre.history);
                                }
                            },
                            None => {
                                proof {
                                    assert(false);
                                }
                            },
                        }
                    },
                }
            }
            i += 1;
        }
        proof {
            assert forall|e: int|
                0 <= e < self@.len() implies pre.has_name((#[trigger] self@[e]).name)
                && pre.app_named(self@[e].name).state == AppState::Running && store@.has_name(
                self@[e].name,
            ) && store@.app_named(self@[e].name).state == AppState::Running by {
                let k = origins[e];
                assert(0 <= k < n && pre.apps[k].state == AppState::Running && pre.apps[k].name
                    == self@[e].name);
                assert(pre.has_name(self@[e].name));
                let k2 = pre.index_of_name(self@[e].name);
                if k2 != k {
                    assert(pre.apps[k2].name != pre.apps[k].name);
                }
                assert(pre.app_named(self@[e].name).state == AppState::Running);
                assert(store@.apps[k].name == pre.apps[k].name);
                assert(table_has(self@, store@.apps[k].name));
                assert(store@.apps[k].state == AppState::Running);
                assert(store@.has_name(self@[e].name));
                let k3 = store@.index_of_name(self@[e].name);
                if k3 != k {
                    assert(store@.apps[k3].name != store@.apps[k].name);
                }
                assert(store@.app_named(self@[e].name).state == AppState::Running);
            }
        }
        count
    }
}

} // verus!
