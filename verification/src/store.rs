//! In-memory model of the persistence store: the authoritative set of
//! app records and their run history. It mirrors the read/write
//! contract the supervisor and the gateway rely on: app records are
//! upserted keyed by id, names are unique, deleting a record cascades
//! to its history rows.

use vstd::prelude::*;
use crate::models::{App, AppState, AppV, ProcessHistory, ProcessHistoryV};
use crate::str_eq;
use crate::lemma_filter_take_step;
use vstd::multiset::Multiset;

verus! {

/// The durable state: app records and run-history rows.
pub struct Store {
    apps: Vec<App>,
    history: Vec<ProcessHistory>,
}

/// Mathematical model of the store's contents.
#[verifier::ext_equal]
pub ghost struct StoreV {
    pub apps: Seq<AppV>,
    pub history: Seq<ProcessHistoryV>,
}

/// The models of a sequence of app records.
pub open spec fn app_views(s: Seq<App>) -> Seq<AppV> {
    Seq::new(s.len(), |i: int| s[i]@)
}

/// The models of a sequence of history rows.
pub open spec fn history_views(s: Seq<ProcessHistory>) -> Seq<ProcessHistoryV> {
    Seq::new(s.len(), |i: int| s[i]@)
}

impl View for Store {
    type V = StoreV;

    closed spec fn view(&self) -> StoreV {
        StoreV { apps: app_views(self.apps@), history: history_views(self.history@) }
    }
}

impl StoreV {
    /// No two records carry the same name, and no two the same id.
    pub open spec fn wf(self) -> bool {
        forall|i: int, j: int|
            0 <= i < j < self.apps.len() ==> (#[trigger] self.apps[i]).name
                != (#[trigger] self.apps[j]).name && self.apps[i].id != self.apps[j].id
    }

    /// Whether a record with this name exists.
    pub open spec fn has_name(self, name: Seq<char>) -> bool {
        exists|i: int| 0 <= i < self.apps.len() && #[trigger] self.apps[i].name == name
    }

    /// The position of the record with this name.
    pub open spec fn index_of_name(self, name: Seq<char>) -> int {
        choose|i: int| 0 <= i < self.apps.len() && #[trigger] self.apps[i].name == name
    }

    /// The record with this name.
    pub open spec fn app_named(self, name: Seq<char>) -> AppV {
        self.apps[self.index_of_name(name)]
    }

    /// Whether a record with this id exists.
    pub open spec fn has_id(self, id: Seq<char>) -> bool {
        exists|i: int| 0 <= i < self.apps.len() && #[trigger] self.apps[i].id == id
    }

    /// The position of the first record with this id.
    pub open spec fn first_index_of_id(self, id: Seq<char>) -> int {
        choose|i: int|
            0 <= i < self.apps.len() && #[trigger] self.apps[i].id == id && forall|j: int|
                0 <= j < i ==> #[trigger] self.apps[j].id != id
    }

    /// The store after an upsert of one record, keyed by id.
    pub open spec fn with_saved(self, app: AppV) -> StoreV {
        if self.has_id(app.id) {
            StoreV { apps: self.apps.update(self.first_index_of_id(app.id), app), ..self }
        } else {
            StoreV { apps: self.apps.push(app), ..self }
        }
    }

    /// Whether a history row with this model is present.
    pub open spec fn has_hist_row(self, h: ProcessHistoryV) -> bool {
        exists|i: int| 0 <= i < self.history.len() && #[trigger] self.history[i] == h
    }

    /// Whether any history row belongs to this app.
    pub open spec fn has_hist_for(self, app_id: Seq<char>) -> bool {
        exists|i: int| 0 <= i < self.history.len() && #[trigger] self.history[i].app_id == app_id
    }

    /// The history rows of one app, in insertion order.
    pub open spec fn hist_for(self, app_id: Seq<char>) -> Seq<ProcessHistoryV> {
        self.history.filter(|h: ProcessHistoryV| h.app_id == app_id)
    }

    /// Whether some record already listens on this port.
    pub open spec fn port_used(self, p: u16) -> bool {
        exists|i: int| 0 <= i < self.apps.len() && #[trigger] self.apps[i].port == p
    }
}

impl Store {
    /// An empty store.
    pub fn new() -> (r: Store)
        ensures
            r@.apps.len() == 0,
            r@.history.len() == 0,
            r@.wf(),
    {
        let r = Store { apps: Vec::new(), history: Vec::new() };
        proof {
            assert(r@.apps =~= Seq::<AppV>::empty());
            assert(r@.history =~= Seq::<ProcessHistoryV>::empty());
        }
        r
    }

    /// The number of records.
    pub fn count(&self) -> (r: usize)
        ensures
            r == self@.apps.len(),
    {
        self.apps.len()
    }

    /// The record at one position, in insertion order.
    pub fn app_at(&self, i: usize) -> (r: App)
        requires
            i < self@.apps.len(),
        ensures
            r@ == self@.apps[i as int],
    {
        self.apps[i].duplicate()
    }

    /// Look a record up by name.
    #[verifier::loop_isolation(false)]
    pub fn get_by_name(&self, name: &str) -> (r: Option<App>)
        requires
            self@.wf(),
        ensures
            r is Some <==> self@.has_name(name@),
            r matches Some(app) ==> app@ == self@.app_named(name@) && app@.name == name@,
    {
        let n = self.apps.len();
        let mut i: usize = 0;
        while i < n
            invariant
                n == self.apps.len(),
                0 <= i <= n,
                forall|j: int| 0 <= j < i ==> #[trigger] self@.apps[j].name != name@,
            decreases n - i,
        {
            if str_eq(self.apps[i].name.as_str(), name) {
                let app = self.apps[i].duplicate();
                proof {
                    assert(self@.apps[i as int].name == name@);
                    assert(self@.has_name(name@));
                    let k = self@.index_of_name(name@);
                    assert(self@.apps[k].name == name@);
                    if k != i as int {
                        assert(self@.apps[k].name != self@.apps[i as int].name);
                    }
                }
                return Some(app);
            }
            i += 1;
        }
        None
    }

    /// Every record, in insertion order.
    #[verifier::loop_isolation(false)]
    pub fn get_all(&self) -> (r: Vec<App>)
        ensures
            app_views(r@) == self@.apps,
    {
        let n = self.apps.len();
        let mut r: Vec<App> = Vec::new();
        let mut i: usize = 0;
        while i < n
            invariant
                n == self.apps.len(),
                0 <= i <= n,
                r@.len() == i,
                forall|j: int| 0 <= j < i ==> #[trigger] r@[j]@ == self@.apps[j],
            decreases n - i,
        {
            r.push(self.apps[i].duplicate());
            i += 1;
        }
        proof {
            assert(app_views(r@) =~= self@.apps);
        }
        r
    }

    /// Every record in a given lifecycle state, in insertion order.
    #[verifier::loop_isolation(false)]
    pub fn get_by_state(&self, state: AppState) -> (r: Vec<App>)
        ensures
            app_views(r@) == self@.apps.filter(|a: AppV| a.state == state),
    {
        let n = self.apps.len();
        let mut r: Vec<App> = Vec::new();
        let mut i: usize = 0;
        proof {
            assert(self@.apps.take(0) =~= Seq::<AppV>::empty());
            reveal(Seq::filter);
        }
        while i < n
            invariant
                n == self.apps.len(),
                0 <= i <= n,
                app_views(r@) == self@.apps.take(i as int).filter(|a: AppV| a.state == state),
            decreases n - i,
        {
            proof {
                lemma_filter_take_step(self@.apps, i as int, |a: AppV| a.state == state);
            }
            if self.apps[i].state == state {
                let app = self.apps[i].duplicate();
                r.push(app);
                proof {
                    assert(app_views(r@) =~= self@.apps.take(i + 1).filter(
                        |a: AppV| a.state == state,
                    ));
                }
            } else {
                proof {
                    assert(app_views(r@) =~= self@.apps.take(i + 1).filter(
                        |a: AppV| a.state == state,
                    ));
                }
            }
            i += 1;
        }
        proof {
            assert(self@.apps.take(n as int) =~= self@.apps);
        }
        r
    }

    /// Upsert one record, keyed by id. The caller keeps names unique:
    /// the record's name may not be carried by a record with another id.
    #[verifier::loop_isolation(false)]
    pub fn save(&mut self, app: &App)
        requires
            old(self)@.wf(),
            forall|j: int|
                0 <= j < old(self)@.apps.len() && #[trigger] old(self)@.apps[j].id != app@.id
                    ==> old(self)@.apps[j].name != app@.name,
        ensures
            final(self)@ == old(self)@.with_saved(app@),
            final(self)@.wf(),
            final(self)@.has_name(app@.name),
    {
        let ghost pre = self@;
        let n = self.apps.len();
        let mut i: usize = 0;
        while i < n
            invariant
                n == self.apps.len(),
                self@ == pre,
                0 <= i <= n,
                forall|j: int| 0 <= j < i ==> #[trigger] pre.apps[j].id != app@.id,
            decreases n - i,
        {
            if str_eq(self.apps[i].id.as_str(), app.id.as_str()) {
                proof {
                    assert(pre.apps[i as int].id == app@.id);
                    assert(pre.has_id(app@.id));
                    let k = pre.first_index_of_id(app@.id);
                    assert(pre.apps[k].id == app@.id && (forall|j: int|
                        0 <= j < k ==> #[trigger] pre.apps[j].id != app@.id));
                    if k > i as int {
                        assert(pre.apps[i as int].id != app@.id);
                    }
                    assert(k == i as int);
                }
                self.apps.set(i, app.duplicate());
                proof {
                    assert(self@.apps =~= pre.apps.update(i as int, app@));
                    assert(self@.history =~= pre.history);
                    assert(self@ =~= pre.with_saved(app@));
                    assert(self@.apps[i as int].name == app@.name);
                    assert forall|a: int, b: int|
                        0 <= a < b < self@.apps.len() implies #[trigger] self@.apps[a].name
                        != #[trigger] self@.apps[b].name && self@.apps[a].id
                        != self@.apps[b].id by {
                        if a == i as int {
                            assert(pre.apps[b].id != pre.apps[i as int].id);
                            assert(pre.apps[b].name != app@.name);
                        } else if b == i as int {
                            assert(pre.apps[a].id != pre.apps[i as int].id);
                            assert(pre.apps[a].name != app@.name);
                        }
                    }
                }
                return;
            }
            i += 1;
        }
        self.apps.push(app.duplicate());
        proof {
            assert(!pre.has_id(app@.id));
            assert(self@.apps =~= pre.apps.push(app@));
            assert(self@.history =~= pre.history);
            assert(self@ =~= pre.with_saved(app@));
            assert(self@.apps[pre.apps.len() as int].name == app@.name);
            assert forall|a: int, b: int|
                0 <= a < b < self@.apps.len() implies #[trigger] self@.apps[a].name
                != #[trigger] self@.apps[b].name && self@.apps[a].id != self@.apps[b].id by {
                if b == pre.apps.len() as int {
                    assert(pre.apps[a].id != app@.id);
                    assert(pre.apps[a].name != app@.name);
                }
            }
        }
    }

    /// Remove the record with this id and every history row of that
    /// app. Records with other ids and their rows are untouched.
    #[verifier::loop_isolation(false)]
    pub fn delete_by_id(&mut self, id: &str)
        requires
            old(self)@.wf(),
        ensures
            final(self)@.apps == old(self)@.apps.filter(|a: AppV| a.id != id@),
            final(self)@.history == old(self)@.history.filter(
                |h: ProcessHistoryV| h.app_id != id@,
            ),
            final(self)@.wf(),
    {
        let ghost pre = self@;
        let n = self.apps.len();
        let mut kept: Vec<App> = Vec::new();
        let mut i: usize = 0;
        proof {
            assert(pre.apps.take(0) =~= Seq::<AppV>::empty());
            reveal(Seq::filter);
        }
        while i < n
            invariant
                n == self.apps.len(),
                self@.apps == pre.apps,
                pre.wf(),
                0 <= i <= n,
                app_views(kept@) == pre.apps.take(i as int).filter(|a: AppV| a.id != id@),
                forall|a: int|
                    0 <= a < kept@.len() ==> exists|j: int|
                        0 <= j < i && #[trigger] kept@[a]@ == pre.apps[j],
                forall|a: int, b: int|
                    0 <= a < b < kept@.len() ==> #[trigger] kept@[a]@.name
                        != #[trigger] kept@[b]@.name && kept@[a]@.id != kept@[b]@.id,
            decreases n - i,
        {
            proof {
                lemma_filter_take_step(pre.apps, i as int, |a: AppV| a.id != id@);
            }
            let ghost kept_pre = kept@;
            if !str_eq(self.apps[i].id.as_str(), id) {
                kept.push(self.apps[i].duplicate());
                proof {
                    assert(kept@[kept@.len() - 1]@ == pre.apps[i as int]);
                    assert forall|a: int| 0 <= a < kept@.len() - 1 implies #[trigger] kept@[a]@.name
                        != kept@[kept@.len() - 1]@.name && kept@[a]@.id
                        != kept@[kept@.len() - 1]@.id by {
                        assert(kept@[a] == kept_pre[a]);
                        let j = choose|j: int| 0 <= j < i && kept_pre[a]@ == pre.apps[j];
                        assert(pre.apps[j].name != pre.apps[i as int].name);
                        assert(pre.apps[j].id != pre.apps[i as int].id);
                    }
                }
            }
            proof {
                assert(app_views(kept@) =~= pre.apps.take(i + 1).filter(|a: AppV| a.id != id@));
            }
            i += 1;
        }
        self.apps = kept;

        let m = self.history.len();
        let mut kept_h: Vec<ProcessHistory> = Vec::new();
        let mut k: usize = 0;
        proof {
            assert(pre.history.take(0) =~= Seq::<ProcessHistoryV>::empty());
        }
        while k < m
            invariant
                m == self.history.len(),
                history_views(self.history@) == pre.history,
                0 <= k <= m,
                history_views(kept_h@) == pre.history.take(k as int).filter(
                    |h: ProcessHistoryV| h.app_id != id@,
                ),
            decreases m - k,
        {
            proof {
                lemma_filter_take_step(pre.history, k as int, |h: ProcessHistoryV| h.app_id != id@);
            }
            if !str_eq(self.history[k].app_id.as_str(), id) {
                kept_h.push(self.history[k].duplicate());
            }
            proof {
                assert(history_views(kept_h@) =~= pre.history.take(k + 1).filter(
                    |h: ProcessHistoryV| h.app_id != id@,
                ));
            }
            k += 1;
        }
        self.history = kept_h;
        proof {
            assert(pre.apps.take(n as int) =~= pre.apps);
            assert(pre.history.take(m as int) =~= pre.history);
        }
    }

    /// Record one history row: a row not yet ended is a new run and is
    /// appended; an ended row closes the stored rows carrying its id,
    /// setting only `ended_at`, `exit_code` and `exit_reason` — a
    /// row's identity, app and start time are never rewritten.
    #[verifier::loop_isolation(false)]
    pub fn save_history(&mut self, h: &ProcessHistory)
        ensures
            h@.ended_at is None ==> final(self)@ == (StoreV {
                history: old(self)@.history.push(h@),
                ..old(self)@
            }),
            h@.ended_at is Some ==> final(self)@ == (StoreV {
                history: Seq::new(
                    old(self)@.history.len(),
                    |i: int|
                        if old(self)@.history[i].id == h@.id {
                            ProcessHistoryV {
                                ended_at: h@.ended_at,
                                exit_code: h@.exit_code,
                                exit_reason: h@.exit_reason,
                                ..old(self)@.history[i]
                            }
                        } else {
                            old(self)@.history[i]
                        },
                ),
                ..old(self)@
            }),
            final(self)@.apps == old(self)@.apps,
    {
        let ghost pre = self@;
        if h.ended_at.is_none() {
            self.history.push(h.duplicate());
            proof {
                assert(self@.history =~= pre.history.push(h@));
                assert(self@.apps =~= pre.apps);
                assert(self@ =~= (StoreV { history: pre.history.push(h@), ..pre }));
            }
        } else {
            let n = self.history.len();
            let mut i: usize = 0;
            while i < n
                invariant
                    n == self.history.len(),
                    self@.apps == pre.apps,
                    0 <= i <= n,
                    self@.history.len() == pre.history.len(),
                    forall|j: int|
                        0 <= j < i && pre.history[j].id == h@.id ==> #[trigger] self@.history[j]
                            == (ProcessHistoryV {
                            ended_at: h@.ended_at,
                            exit_code: h@.exit_code,
                            exit_reason: h@.exit_reason,
                            ..pre.history[j]
                        }),
                    forall|j: int|
                        0 <= j < i && pre.history[j].id != h@.id ==> #[trigger] self@.history[j]
                            == pre.history[j],
                    forall|j: int|
                        i <= j < pre.history.len() ==> #[trigger] self@.history[j]
                            == pre.history[j],
                decreases n - i,
            {
                let ghost before = self@.history;
                if str_eq(self.history[i].id.as_str(), h.id.as_str()) {
                    let mut updated = self.history[i].duplicate();
                    proof {
                        assert(before[i as int] == pre.history[i as int]);
                        assert(updated@ == pre.history[i as int]);
                    }
                    updated.ended_at = h.ended_at;
                    updated.exit_code = h.exit_code;
                    updated.exit_reason = crate::models::clone_opt_string(&h.exit_reason);
                    proof {
                        assert(updated@.id == pre.history[i as int].id);
                        assert(updated@.app_id == pre.history[i as int].app_id);
                        assert(updated@.started_at == pre.history[i as int].started_at);
                        assert(updated@.ended_at == h@.ended_at);
                        assert(updated@.exit_code == h@.exit_code);
                        assert(updated@.exit_reason == h@.exit_reason);
                    }
                    self.history.set(i, updated);
                    proof {
                        assert(self@.history[i as int] =~= ProcessHistoryV {
                            ended_at: h@.ended_at,
                            exit_code: h@.exit_code,
                            exit_reason: h@.exit_reason,
                            ..pre.history[i as int]
                        });
                        assert(forall|j: int|
                            0 <= j < pre.history.len() && j != i ==> #[trigger] self@.history[j]
                                == before[j]);
                    }
                }
                i += 1;
            }
            proof {
                let closed = |i: int|
                    if pre.history[i].id == h@.id {
                        ProcessHistoryV {
                            ended_at: h@.ended_at,
                            exit_code: h@.exit_code,
                            exit_reason: h@.exit_reason,
                            ..pre.history[i]
                        }
                    } else {
                        pre.history[i]
                    };
                assert(self@.history =~= Seq::new(pre.history.len(), closed));
                assert(self@.apps =~= pre.apps);
                assert(self@ =~= (StoreV { history: Seq::new(pre.history.len(), closed), ..pre }));
            }
        }
    }

    /// The most recent history row of one app: its `started_at` is at
    /// least that of every other row of the app.
    #[verifier::loop_isolation(false)]
    pub fn latest_history_for(&self, app_id: &str) -> (r: Option<ProcessHistory>)
        ensures
            r is Some <==> self@.has_hist_for(app_id@),
            r matches Some(h) ==> {
                &&& self@.has_hist_row(h@)
                &&& h@.app_id == app_id@
                &&& forall|i: int|
                    0 <= i < self@.history.len() && #[trigger] self@.history[i].app_id == app_id@
                        ==> self@.history[i].started_at <= h@.started_at
            },
    {
        let n = self.history.len();
        let mut best: Option<usize> = None;
        let mut i: usize = 0;
        while i < n
            invariant
                n == self.history.len(),
                0 <= i <= n,
                best matches Some(b) ==> b < i && self@.history[b as int].app_id == app_id@,
                best is Some <==> (exists|j: int|
                    0 <= j < i && #[trigger] self@.history[j].app_id == app_id@),
                best matches Some(b) ==> forall|j: int|
                    0 <= j < i && #[trigger] self@.history[j].app_id == app_id@
                        ==> self@.history[j].started_at <= self@.history[b as int].started_at,
            decreases n - i,
        {
            if str_eq(self.history[i].app_id.as_str(), app_id) {
                proof {
                    assert(self@.history[i as int].app_id == app_id@);
                }
                match best {
                    Some(b) => {
                        if self.history[i].started_at >= self.history[b].started_at {
                            best = Some(i);
                        }
                    },
                    None => {
                        best = Some(i);
                    },
                }
            } else {
                proof {
                    assert(self@.history[i as int].app_id != app_id@);
                }
            }
            i += 1;
        }
        match best {
            Some(b) => Some(self.history[b].duplicate()),
            None => None,
        }
    }

    /// Whether some record already listens on this port.
    #[verifier::loop_isolation(false)]
    pub fn port_in_use(&self, p: u16) -> (r: bool)
        ensures
            r == self@.port_used(p),
    {
        let n = self.apps.len();
        let mut i: usize = 0;
        while i < n
            invariant
                n == self.apps.len(),
                0 <= i <= n,
                forall|j: int| 0 <= j < i ==> #[trigger] self@.apps[j].port != p,
            decreases n - i,
        {
            if self.apps[i].port == p {
                proof {
                    assert(self@.apps[i as int].port == p);
                }
                return true;
            }
            i += 1;
        }
        false
    }

    /// The history rows of one app, newest first.
    pub fn get_by_app_id(&self, app_id: &str) -> (r: Vec<ProcessHistory>)
        ensures
            history_views(r@).to_multiset() == self@.hist_for(app_id@).to_multiset(),
            r@.len() == self@.hist_for(app_id@).len(),
            sorted_newest_first(history_views(r@)),
    {
        let rows = self.collect_for_app(app_id);
        proof {
            broadcast use vstd::seq_lib::group_to_multiset_ensures;
        }
        sort_newest_first(rows)
    }

    /// The newest history rows across every app, newest first, at most
    /// `limit` of them: a prefix of the whole history sorted newest
    /// first.
    pub fn get_recent(&self, limit: usize) -> (r: Vec<ProcessHistory>)
        ensures
            r@.len() == (if self@.history.len() < limit {
                self@.history.len() as int
            } else {
                limit as int
            }),
            sorted_newest_first(history_views(r@)),
            exists|full: Seq<ProcessHistoryV>|
                {
                    &&& #[trigger] full.to_multiset() == self@.history.to_multiset()
                    &&& sorted_newest_first(full)
                    &&& history_views(r@) == full.take(r@.len() as int)
                },
    {
        let n = self.history.len();
        let mut rows: Vec<ProcessHistory> = Vec::new();
        let mut i: usize = 0;
        while i < n
            invariant
                n == self.history.len(),
                0 <= i <= n,
                rows@.len() == i,
                forall|j: int| 0 <= j < i ==> #[trigger] rows@[j]@ == self@.history[j],
            decreases n - i,
        {
            rows.push(self.history[i].duplicate());
            i += 1;
        }
        proof {
            assert(history_views(rows@) =~= self@.history);
        }
        let mut sorted = sort_newest_first(rows);
        let ghost full = history_views(sorted@);
        proof {
            broadcast use vstd::seq_lib::group_to_multiset_ensures;
            assert(full.len() == self@.history.len());
        }
        if sorted.len() > limit {
            sorted.truncate(limit);
        }
        proof {
            assert(history_views(sorted@) =~= full.take(sorted@.len() as int));
        }
        sorted
    }

    /// The history rows of one app, in insertion order.
    #[verifier::loop_isolation(false)]
    fn collect_for_app(&self, app_id: &str) -> (r: Vec<ProcessHistory>)
        ensures
            history_views(r@) == self@.hist_for(app_id@),
    {
        let n = self.history.len();
        let mut r: Vec<ProcessHistory> = Vec::new();
        let mut i: usize = 0;
        proof {
            assert(self@.history.take(0) =~= Seq::<ProcessHistoryV>::empty());
            reveal(Seq::filter);
        }
        while i < n
            invariant
                n == self.history.len(),
                0 <= i <= n,
                history_views(r@) == self@.history.take(i as int).filter(
                    |h: ProcessHistoryV| h.app_id == app_id@,
                ),
            decreases n - i,
        {
            proof {
                lemma_filter_take_step(
                    self@.history,
                    i as int,
                    |h: ProcessHistoryV| h.app_id == app_id@,
                );
            }
            if str_eq(self.history[i].app_id.as_str(), app_id) {
                r.push(self.history[i].duplicate());
            }
            proof {
                assert(history_views(r@) =~= self@.history.take(i + 1).filter(
                    |h: ProcessHistoryV| h.app_id == app_id@,
                ));
            }
            i += 1;
        }
        proof {
            assert(self@.history.take(n as int) =~= self@.history);
        }
        r
    }
}

/// Newest-first ordering: no row starts earlier than a later one.
pub open spec fn sorted_newest_first(rows: Seq<ProcessHistoryV>) -> bool {
    forall|i: int, j: int|
        0 <= i < j < rows.len() ==> (#[trigger] rows[i]).started_at
            >= (#[trigger] rows[j]).started_at
}

/// Reorder history rows newest first, keeping exactly the same rows.
#[verifier::loop_isolation(false)]
fn sort_newest_first(rows: Vec<ProcessHistory>) -> (r: Vec<ProcessHistory>)
    ensures
        history_views(r@).to_multiset() == history_views(rows@).to_multiset(),
        r@.len() == rows@.len(),
        sorted_newest_first(history_views(r@)),
{
    broadcast use vstd::seq_lib::group_to_multiset_ensures;

    let ghost orig = history_views(rows@);
    let mut remaining = rows;
    let mut out: Vec<ProcessHistory> = Vec::new();
    proof {
        assert(history_views(out@) =~= Seq::<ProcessHistoryV>::empty());
        assert(history_views(out@).to_multiset().add(history_views(remaining@).to_multiset())
            =~= orig.to_multiset());
    }
    while remaining.len() > 0
        invariant
            out@.len() + remaining@.len() == orig.len(),
            sorted_newest_first(history_views(out@)),
            forall|a: int, b: int|
                0 <= a < out@.len() && 0 <= b < remaining@.len() ==> (#[trigger] out@[a])@
                    .started_at >= (#[trigger] remaining@[b])@.started_at,
            history_views(out@).to_multiset().add(history_views(remaining@).to_multiset())
                == orig.to_multiset(),
        decreases remaining.len(),
    {
        let mut m: usize = 0;
        let mut i: usize = 1;
        let len = remaining.len();
        while i < len
            invariant
                len == remaining@.len(),
                0 <= m < i <= len,
                forall|j: int|
                    0 <= j < i ==> (#[trigger] remaining@[j])@.started_at
                        <= remaining@[m as int]@.started_at,
            decreases len - i,
        {
            if remaining[i].started_at > remaining[m].started_at {
                m = i;
            }
            i += 1;
        }
        let ghost out_pre = history_views(out@);
        let ghost rem_pre = history_views(remaining@);
        let row = remaining.remove(m);
        out.push(row);
        proof {
            assert(history_views(out@) =~= out_pre.push(rem_pre[m as int]));
            assert(history_views(remaining@) =~= rem_pre.remove(m as int));
            assert(history_views(out@).to_multiset() =~= out_pre.to_multiset().insert(
                rem_pre[m as int],
            ));
            assert(history_views(remaining@).to_multiset() =~= rem_pre.to_multiset().remove(
                rem_pre[m as int],
            ));
            assert(rem_pre.to_multiset().count(rem_pre[m as int]) > 0);
            assert(history_views(out@).to_multiset().add(
                history_views(remaining@).to_multiset(),
            ) =~= orig.to_multiset());
        }
    }
    proof {
        assert(history_views(remaining@).to_multiset() =~= Multiset::<ProcessHistoryV>::empty());
        assert(history_views(out@).to_multiset() =~= orig.to_multiset());
        assert(out@.len() == orig.len());
    }
    out
}

/// Upserting a record that keeps the id of the record named `name`
/// rewrites exactly that record's position.
pub proof fn lemma_with_saved_at_name(s: StoreV, name: Seq<char>, app: AppV)
    requires
        s.wf(),
        s.has_name(name),
        app.id == s.app_named(name).id,
    ensures
        s.with_saved(app) == (StoreV { apps: s.apps.update(s.index_of_name(name), app), ..s }),
{
    let idx = s.index_of_name(name);
    assert(0 <= idx < s.apps.len() && s.apps[idx].name == name);
    assert(s.apps[idx].id == app.id);
    assert(s.has_id(app.id));
    let fi = s.first_index_of_id(app.id);
    assert(s.apps[fi].id == app.id && (forall|j: int|
        0 <= j < fi ==> #[trigger] s.apps[j].id != app.id));
    if fi < idx {
        assert(s.apps[fi].name != s.apps[idx].name && s.apps[fi].id != s.apps[idx].id);
    } else if fi > idx {
        assert(s.apps[idx].id != app.id);
    }
    assert(fi == idx);
}

/// A record read from the store and written back under its own id
/// meets the upsert's name-uniqueness demand.
pub proof fn lemma_same_record_save_ok(s: StoreV, name: Seq<char>, app: AppV)
    requires
        s.wf(),
        s.has_name(name),
        app.id == s.app_named(name).id,
        app.name == name,
    ensures
        forall|j: int|
            0 <= j < s.apps.len() && (#[trigger] s.apps[j]).id != app.id ==> s.apps[j].name
                != app.name,
{
    let idx = s.index_of_name(name);
    assert(0 <= idx < s.apps.len() && s.apps[idx].name == name);
    assert forall|j: int|
        0 <= j < s.apps.len() && (#[trigger] s.apps[j]).id != app.id implies s.apps[j].name
        != app.name by {
        if j != idx {
            assert(s.apps[j].name != s.apps[idx].name);
        }
    }
}

} // verus!
