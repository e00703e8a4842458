//! The usage state store: per-application accrued time, keyed by name.

use vstd::prelude::*;

use crate::window::{SerializableActiveWindow, SerializableAppUsage};

verus! {

/// Window identity of an entry whose identity has not been resolved yet.
pub const UNRESOLVED_WINDOW: i64 = 0;

/// Accounting state of one application.
#[derive(Clone, Copy, Debug, PartialEq, Eq, Structural)]
pub struct UsageEntry {
    /// Identity assigned by the storage resolver, `UNRESOLVED_WINDOW` before that.
    pub window_id: i64,
    /// Seconds accumulated since the entry was last flushed.
    pub accrued: u64,
}

/// The entry an application gets when it is first observed.
pub open spec fn fresh_entry() -> UsageEntry {
    UsageEntry { window_id: UNRESOLVED_WINDOW, accrued: 0 }
}

/// Map from application name to entry, built from parallel sequences of names
/// and entries; a later name overrides an earlier equal one.
pub open spec fn entries_map(names: Seq<String>, recs: Seq<UsageEntry>) -> Map<Seq<char>, UsageEntry>
    decreases names.len(),
{
    if names.len() == 0 || recs.len() == 0 {
        Map::empty()
    } else {
        entries_map(names.drop_last(), recs.drop_last()).insert(names.last()@, recs.last())
    }
}

/// No two names of the sequence are equal.
pub open spec fn names_unique(names: Seq<String>) -> bool {
    forall|i: int, j: int| 0 <= i < j < names.len() ==> names[i]@ != names[j]@
}

proof fn lemma_entries_map_domain(names: Seq<String>, recs: Seq<UsageEntry>, k: Seq<char>)
    requires
        names.len() == recs.len(),
    ensures
        entries_map(names, recs).contains_key(k) <==> exists|i: int|
            0 <= i < names.len() && names[i]@ == k,
    decreases names.len(),
{
    if names.len() > 0 {
        lemma_entries_map_domain(names.drop_last(), recs.drop_last(), k);
        if entries_map(names, recs).contains_key(k) && names.last()@ != k {
            let i = choose|i: int| 0 <= i < names.len() - 1 && names.drop_last()[i]@ == k;
            assert(names[i]@ == k);
        }
        if exists|i: int| 0 <= i < names.len() && names[i]@ == k {
            let i = choose|i: int| 0 <= i < names.len() && names[i]@ == k;
            if i < names.len() - 1 {
                assert(names.drop_last()[i]@ == k);
            }
        }
    }
}

proof fn lemma_entries_map_at(names: Seq<String>, recs: Seq<UsageEntry>, i: int)
    requires
        names.len() == recs.len(),
        names_unique(names),
        0 <= i < names.len(),
    ensures
        entries_map(names, recs).contains_key(names[i]@),
        entries_map(names, recs)[names[i]@] == recs[i],
    decreases names.len(),
{
    if i < names.len() - 1 {
        lemma_entries_map_at(names.drop_last(), recs.drop_last(), i);
    }
}

proof fn lemma_entries_map_update(names: Seq<String>, recs: Seq<UsageEntry>, i: int, e: UsageEntry)
    requires
        names.len() == recs.len(),
        names_unique(names),
        0 <= i < names.len(),
    ensures
        entries_map(names, recs.update(i, e)) == entries_map(names, recs).insert(names[i]@, e),
    decreases names.len(),
{
    let upd = recs.update(i, e);
    if i == names.len() - 1 {
        assert(upd.drop_last() =~= recs.drop_last());
        assert(entries_map(names, upd) =~= entries_map(names, recs).insert(names[i]@, e));
    } else {
        assert(upd.drop_last() =~= recs.drop_last().update(i, e));
        lemma_entries_map_update(names.drop_last(), recs.drop_last(), i, e);
        assert(names[i]@ != names.last()@);
        assert(entries_map(names, upd) =~= entries_map(names, recs).insert(names[i]@, e));
    }
}

proof fn lemma_entries_map_push(names: Seq<String>, recs: Seq<UsageEntry>, n: String, e: UsageEntry)
    requires
        names.len() == recs.len(),
    ensures
        entries_map(names.push(n), recs.push(e)) == entries_map(names, recs).insert(n@, e),
{
    assert(names.push(n).drop_last() =~= names);
    assert(recs.push(e).drop_last() =~= recs);
}


/// What the store holds, as mathematical values.
pub ghost struct UsageModel {
    /// Clock reading, in seconds, of the last accounting update.
    pub last_active: u64,
    /// Application reported on the last successful sampling step.
    pub current_app: Option<Seq<char>>,
    /// Entry of every application observed so far.
    pub entries: Map<Seq<char>, UsageEntry>,
}

/// Finitely many applications have an entry, and the application reported
/// last, if any, has one.
pub open spec fn model_wf(m: UsageModel) -> bool {
    &&& m.entries.dom().finite()
    &&& m.current_app is Some ==> m.entries.contains_key(m.current_app->0)
}

/// The entry of `app`, or the fresh entry if it has none yet.
pub open spec fn entry_or_fresh(entries: Map<Seq<char>, UsageEntry>, app: Seq<char>) -> UsageEntry {
    if entries.contains_key(app) {
        entries[app]
    } else {
        fresh_entry()
    }
}

/// `entries` with `app` present: unchanged if it was, else with a fresh entry.
pub open spec fn with_entry(entries: Map<Seq<char>, UsageEntry>, app: Seq<char>) -> Map<Seq<char>, UsageEntry> {
    entries.insert(app, entry_or_fresh(entries, app))
}


/// Seconds from `last` to `now`, zero if the clock went backwards.
pub open spec fn elapsed_between(last: u64, now: u64) -> u64 {
    if now >= last {
        (now - last) as u64
    } else {
        0
    }
}

/// `a + b`, capped at the largest `u64`.
pub open spec fn sat_add(a: u64, b: u64) -> u64 {
    if a + b <= u64::MAX {
        (a + b) as u64
    } else {
        u64::MAX
    }
}

/// The entry of the application reported last, charged with the seconds
/// elapsed up to `now`.
pub open spec fn charged_entry(m: UsageModel, now: u64) -> UsageEntry {
    let e = m.entries[m.current_app->0];
    UsageEntry { window_id: e.window_id, accrued: sat_add(e.accrued, elapsed_between(m.last_active, now)) }
}

/// The store after a sampling step at clock reading `now` that observed `app`
/// in the foreground: the elapsed time goes to the application reported last,
/// `app` gets an entry if it had none, and `app` becomes the one reported last.
pub open spec fn tick_model(m: UsageModel, now: u64, app: Seq<char>) -> UsageModel {
    let charged = if m.current_app is Some {
        m.entries.insert(m.current_app->0, charged_entry(m, now))
    } else {
        m.entries
    };
    UsageModel { last_active: now, current_app: Some(app), entries: with_entry(charged, app) }
}

/// The segment that a sampling step observing `app` asks to flush: on a switch
/// away from the application reported last, its charged time, when that is
/// positive.
pub open spec fn switch_segment(m: UsageModel, now: u64, app: Seq<char>) -> Option<(Seq<char>, i64, u64)> {
    if m.current_app is Some && m.current_app->0 != app && charged_entry(m, now).accrued > 0 {
        Some((m.current_app->0, charged_entry(m, now).window_id, charged_entry(m, now).accrued))
    } else {
        None
    }
}

/// The store after the segment of `app` was appended to the log: its entry,
/// if any, is zeroed.
pub open spec fn flushed_model(m: UsageModel, app: Seq<char>) -> UsageModel {
    if m.entries.contains_key(app) {
        UsageModel { entries: m.entries.insert(app, UsageEntry { accrued: 0, ..m.entries[app] }), ..m }
    } else {
        m
    }
}

/// The store after the resolver gave `app` the identity `id`.
pub open spec fn identified_model(m: UsageModel, app: Seq<char>, id: i64) -> UsageModel {
    if m.entries.contains_key(app) {
        UsageModel { entries: m.entries.insert(app, UsageEntry { window_id: id, ..m.entries[app] }), ..m }
    } else {
        m
    }
}

/// The store after `get_or_create(app)`.
pub open spec fn created_model(m: UsageModel, app: Seq<char>) -> UsageModel {
    UsageModel { entries: with_entry(m.entries, app), ..m }
}

/// `r` lists each entry of `entries` exactly once, in some order.
pub open spec fn snapshot_of(r: Seq<SerializableAppUsage>, entries: Map<Seq<char>, UsageEntry>) -> bool {
    &&& forall|i: int, j: int| 0 <= i < j < r.len() ==> r[i].app_name@ != r[j].app_name@
    &&& forall|i: int|
        0 <= i < r.len() ==> {
            &&& #[trigger] entries.contains_key(r[i].app_name@)
            &&& entries[r[i].app_name@].window_id == r[i].window_id
            &&& entries[r[i].app_name@].accrued == r[i].duration
        }
    &&& forall|k: Seq<char>| #[trigger]
        entries.contains_key(k) ==> exists|i: int| 0 <= i < r.len() && r[i].app_name@ == k
}

/// A segment to append to the log.
#[derive(Clone, Debug, PartialEq, Eq)]
pub struct PendingSegment {
    pub app_name: String,
    /// `UNRESOLVED_WINDOW` when the application has no identity yet.
    pub window_id: i64,
    /// Seconds.
    pub duration: u64,
    /// The identity must be resolved first (and reported with
    /// `assign_window_id`); the append then uses the resolved identity.
    pub resolve_first: bool,
}

impl View for PendingSegment {
    type V = (Seq<char>, i64, u64);

    open spec fn view(&self) -> (Seq<char>, i64, u64) {
        (self.app_name@, self.window_id, self.duration)
    }
}

/// The view of an optional segment.
pub open spec fn segment_view(s: Option<PendingSegment>) -> Option<(Seq<char>, i64, u64)> {
    match s {
        Some(seg) => Some(seg@),
        None => None,
    }
}

/// The storage work that a sampling step leaves to its caller.
#[derive(Clone, Debug, PartialEq, Eq)]
pub struct TickPlan {
    /// Segment to append; on success the caller reports it with `mark_flushed`.
    pub flush: Option<PendingSegment>,
    /// The observed application has no window identity yet; the caller resolves
    /// it and reports it with `assign_window_id`.
    pub resolve_identity: bool,
}

/// The usage state store.
///
/// Entries are kept in two parallel vectors with unique names rather than in a
/// `HashMap<String, _>`: vstd gives hash maps a meaning only for keys with a
/// key model, which `String` lacks.
pub struct AppUsageData {
    last_active: u64,
    current_app: Option<String>,
    names: Vec<String>,
    entries: Vec<UsageEntry>,
}

impl View for AppUsageData {
    type V = UsageModel;

    closed spec fn view(&self) -> UsageModel {
        UsageModel {
            last_active: self.last_active,
            current_app: match self.current_app {
                Some(a) => Some(a@),
                None => None,
            },
            entries: entries_map(self.names@, self.entries@),
        }
    }
}

impl AppUsageData {
    /// The representation is consistent with the model.
    pub closed spec fn wf(&self) -> bool {
        &&& self.names@.len() == self.entries@.len()
        &&& names_unique(self.names@)
        &&& model_wf(self@)
    }

    /// The model of a well-formed store is well formed, so the properties
    /// stated over models hold of every store.
    pub proof fn lemma_model_wf(&self)
        requires
            self.wf(),
        ensures
            model_wf(self@),
    {
    }

    /// An empty store whose clock reading is `now`.
    pub fn new(now: u64) -> (r: Self)
        ensures
            r.wf(),
            r@.last_active == now,
            r@.current_app is None,
            r@.entries == Map::<Seq<char>, UsageEntry>::empty(),
    {
        AppUsageData { last_active: now, current_app: None, names: Vec::new(), entries: Vec::new() }
    }

    /// Sampling step at clock reading `now` (seconds, from a monotonic clock).
    /// A failed observation changes nothing. Otherwise the seconds elapsed
    /// since the last update go to the application reported last; on a switch
    /// to another application its charged time is handed out for flushing, and
    /// the newly observed application starts with its own entry unchanged (a
    /// fresh one if it was never seen).
    pub fn tick(&mut self, now: u64, observed: &Result<SerializableActiveWindow, String>) -> (plan: TickPlan)
        requires
            old(self).wf(),
        ensures
            final(self).wf(),
            match observed {
                Ok(w) => {
                    &&& final(self)@ == tick_model(old(self)@, now, w.app_name@)
                    &&& segment_view(plan.flush) == switch_segment(old(self)@, now, w.app_name@)
                    &&& plan.flush matches Some(seg) ==> seg.resolve_first == (seg.window_id
                        == UNRESOLVED_WINDOW)
                    &&& plan.resolve_identity == (final(self)@.entries[w.app_name@].window_id
                        == UNRESOLVED_WINDOW)
                },
                Err(_) => final(self)@ == old(self)@ && plan.flush is None && !plan.resolve_identity,
            },
    {
        let w = match observed {
            Ok(w) => w,
            Err(_) => {
                return TickPlan { flush: None, resolve_identity: false };
            },
        };
        let elapsed: u64 = if now >= self.last_active {
            now - self.last_active
        } else {
            0
        };
        let mut flush: Option<PendingSegment> = None;
        let prev: Option<String> = match &self.current_app {
            Some(p) => Some(p.clone()),
            None => None,
        };
        let ghost charged_entries = self@.entries;
        if let Some(p) = prev {
            let pi = self.locate(&p);
            let e = self.entries[pi];
            let charged = UsageEntry { window_id: e.window_id, accrued: e.accrued.saturating_add(elapsed) };
            self.set_entry(pi, charged);
            proof {
                charged_entries = self@.entries;
            }
            if !(p == w.app_name) && charged.accrued > 0 {
                flush = Some(
                    PendingSegment {
                        app_name: p,
                        window_id: charged.window_id,
                        duration: charged.accrued,
                        resolve_first: charged.window_id == UNRESOLVED_WINDOW,
                    },
                );
            }
        }
        let ai = self.ensure_entry(&w.app_name);
        self.last_active = now;
        self.current_app = Some(w.app_name.clone());
        let resolve_identity = self.entries[ai].window_id == UNRESOLVED_WINDOW;
        proof {
            assert(self@.entries == with_entry(charged_entries, w.app_name@));
        }
        TickPlan { flush, resolve_identity }
    }

    /// Records that the pending segment of `app_name` was appended to the log:
    /// its entry, if it has one, is zeroed.
    pub fn mark_flushed(&mut self, app_name: &str)
        requires
            old(self).wf(),
        ensures
            final(self).wf(),
            final(self)@ == flushed_model(old(self)@, app_name@),
    {
        let name = app_name.to_owned();
        match self.find(&name) {
            Some(i) => {
                let e = self.entries[i];
                self.set_entry(i, UsageEntry { window_id: e.window_id, accrued: 0 });
            },
            None => {},
        }
    }

    /// Records the window identity that the resolver gave `app_name`, if it has
    /// an entry.
    pub fn assign_window_id(&mut self, app_name: &str, window_id: i64)
        requires
            old(self).wf(),
        ensures
            final(self).wf(),
            final(self)@ == identified_model(old(self)@, app_name@, window_id),
    {
        let name = app_name.to_owned();
        match self.find(&name) {
            Some(i) => {
                let e = self.entries[i];
                self.set_entry(i, UsageEntry { window_id, accrued: e.accrued });
            },
            None => {},
        }
    }

    /// The entry of `app_name`, created fresh if it has none.
    pub fn get_or_create(&mut self, app_name: &str) -> (r: UsageEntry)
        requires
            old(self).wf(),
        ensures
            final(self).wf(),
            final(self)@ == created_model(old(self)@, app_name@),
            r == entry_or_fresh(old(self)@.entries, app_name@),
    {
        let name = app_name.to_owned();
        let i = self.ensure_entry(&name);
        self.entries[i]
    }

    /// Accrued seconds of `app_name`; `None` if it was never observed.
    pub fn lookup(&self, app_name: &str) -> (r: Option<u64>)
        requires
            self.wf(),
        ensures
            r is Some <==> self@.entries.contains_key(app_name@),
            r matches Some(d) ==> d == self@.entries[app_name@].accrued,
    {
        let name = app_name.to_owned();
        match self.find(&name) {
            Some(i) => Some(self.entries[i].accrued),
            None => None,
        }
    }

    /// Point-in-time copy of every entry.
    pub fn snapshot(&self) -> (r: Vec<SerializableAppUsage>)
        requires
            self.wf(),
        ensures
            snapshot_of(r@, self@.entries),
    {
        let mut r: Vec<SerializableAppUsage> = Vec::new();
        let mut i: usize = 0;
        while i < self.names.len()
            invariant
                self.wf(),
                i <= self.names@.len(),
                r@.len() == i,
                forall|j: int|
                    0 <= j < i ==> {
                        &&& #[trigger] r@[j].app_name@ == self.names@[j]@
                        &&& r@[j].window_id == self.entries@[j].window_id
                        &&& r@[j].duration == self.entries@[j].accrued
                    },
            decreases self.names@.len() - i,
        {
            let e = self.entries[i];
            let ghost prev = r@;
            r.push(SerializableAppUsage { app_name: self.names[i].clone(), window_id: e.window_id, duration: e.accrued });
            proof {
                assert forall|j: int| 0 <= j < i + 1 implies {
                    &&& #[trigger] r@[j].app_name@ == self.names@[j]@
                    &&& r@[j].window_id == self.entries@[j].window_id
                    &&& r@[j].duration == self.entries@[j].accrued
                } by {
                    if j < i {
                        assert(r@[j] == prev[j]);
                    }
                }
            }
            i = i + 1;
        }
        proof {
            assert forall|j: int| 0 <= j < r@.len() implies {
                &&& #[trigger] self@.entries.contains_key(r@[j].app_name@)
                &&& self@.entries[r@[j].app_name@].window_id == r@[j].window_id
                &&& self@.entries[r@[j].app_name@].accrued == r@[j].duration
            } by {
                lemma_entries_map_at(self.names@, self.entries@, j);
            }
            assert forall|k: Seq<char>| #[trigger] self@.entries.contains_key(k) implies exists|j: int|
                0 <= j < r@.len() && r@[j].app_name@ == k by {
                lemma_entries_map_domain(self.names@, self.entries@, k);
                let j = choose|j: int| 0 <= j < self.names@.len() && self.names@[j]@ == k;
                assert(r@[j].app_name@ == k);
            }
        }
        r
    }

    /// Clock reading, in seconds, of the last accounting update.
    pub fn last_active(&self) -> (r: u64)
        ensures
            r == self@.last_active,
    {
        self.last_active
    }

    /// Position of `name` among the stored names.
    fn find(&self, name: &String) -> (r: Option<usize>)
        requires
            self.wf(),
        ensures
            r is Some <==> self@.entries.contains_key(name@),
            r matches Some(i) ==> i < self.names@.len() && self.names@[i as int]@ == name@
                && self@.entries[name@] == self.entries@[i as int],
    {
        let mut i: usize = 0;
        while i < self.names.len()
            invariant
                self.wf(),
                i <= self.names@.len(),
                forall|j: int| 0 <= j < i ==> self.names@[j]@ != name@,
            decreases self.names@.len() - i,
        {
            if self.names[i] == *name {
                proof {
                    lemma_entries_map_at(self.names@, self.entries@, i as int);
                }
                return Some(i);
            }
            i = i + 1;
        }
        proof {
            lemma_entries_map_domain(self.names@, self.entries@, name@);
        }
        None
    }

    /// Position of `name`, which has an entry.
    fn locate(&self, name: &String) -> (r: usize)
        requires
            self.wf(),
            self@.entries.contains_key(name@),
        ensures
            r < self.names@.len(),
            self.names@[r as int]@ == name@,
            self@.entries[name@] == self.entries@[r as int],
    {
        match self.find(name) {
            Some(i) => i,
            None => unreached(),
        }
    }

    /// Replaces the entry at position `i`.
    fn set_entry(&mut self, i: usize, e: UsageEntry)
        requires
            old(self).wf(),
            i < old(self).names@.len(),
        ensures
            final(self).wf(),
            final(self).names@ == old(self).names@,
            final(self)@ == (UsageModel {
                entries: old(self)@.entries.insert(old(self).names@[i as int]@, e),
                ..old(self)@
            }),
    {
        proof {
            lemma_entries_map_update(self.names@, self.entries@, i as int, e);
            lemma_entries_map_at(self.names@, self.entries@, i as int);
        }
        self.entries.set(i, e);
    }

    /// Makes sure `name` has an entry, adding a fresh one if it has none, and
    /// returns its position.
    fn ensure_entry(&mut self, name: &String) -> (r: usize)
        requires
            old(self).wf(),
        ensures
            final(self).wf(),
            final(self)@ == (UsageModel { entries: with_entry(old(self)@.entries, name@), ..old(self)@ }),
            r < final(self).names@.len(),
            final(self).names@[r as int]@ == name@,
            final(self)@.entries[name@] == final(self).entries@[r as int],
    {
        match self.find(name) {
            Some(i) => {
                assert(self@.entries =~= with_entry(self@.entries, name@));
                i
            },
            None => {
                let owned = name.clone();
                proof {
                    lemma_entries_map_push(self.names@, self.entries@, owned, fresh_entry());
                    lemma_entries_map_domain(self.names@, self.entries@, name@);
                }
                let ghost old_names = self.names@;
                self.names.push(owned);
                self.entries.push(UsageEntry { window_id: UNRESOLVED_WINDOW, accrued: 0 });
                proof {
                    assert forall|i: int, j: int| 0 <= i < j < self.names@.len() implies self.names@[i]@
                        != self.names@[j]@ by {
                        if j == old_names.len() {
                            assert(old_names[i] == self.names@[i]);
                        } else {
                            assert(old_names[i] == self.names@[i] && old_names[j] == self.names@[j]);
                        }
                    }
                    if self@.current_app is Some {
                        assert(self@.entries.contains_key(self@.current_app->0));
                    }
                    assert(self@.entries =~= with_entry(old(self)@.entries, name@));
                }
                self.names.len() - 1
            },
        }
    }
}

impl Default for AppUsageData {
    /// An empty store whose clock reading is the clock's origin.
    fn default() -> (r: Self)
        ensures
            r.wf(),
            r@.last_active == 0,
            r@.current_app is None,
            r@.entries == Map::<Seq<char>, UsageEntry>::empty(),
    {
        AppUsageData::new(0)
    }
}

} // verus!
