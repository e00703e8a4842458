//! Properties of the accounting rules that hold across several operations.

use vstd::prelude::*;

use crate::window::SerializableAppUsage;

use crate::usage::{
    snapshot_of,
    charged_entry, created_model, elapsed_between, entry_or_fresh, flushed_model, identified_model, model_wf,
    sat_add, switch_segment, tick_model, with_entry, UsageEntry, UsageModel, UNRESOLVED_WINDOW,
};

verus! {

/// `x`, capped at the largest `u64`.
pub open spec fn capped(x: int) -> int {
    if x <= u64::MAX {
        x
    } else {
        u64::MAX as int
    }
}

/// The clock reading after sampling steps at `nows`, starting from `last`.
pub open spec fn clock_after(last: u64, nows: Seq<u64>) -> u64 {
    if nows.len() == 0 {
        last
    } else {
        nows.last()
    }
}

/// Sum of the seconds elapsed over sampling steps at `nows`, starting from the
/// clock reading `last`, each step clamped at zero.
pub open spec fn elapsed_total(last: u64, nows: Seq<u64>) -> int
    decreases nows.len(),
{
    if nows.len() == 0 {
        0
    } else {
        elapsed_total(last, nows.drop_last()) + elapsed_between(clock_after(last, nows.drop_last()), nows.last())
    }
}

/// The store after sampling steps at `nows` that all observed `app`.
pub open spec fn run_ticks(m: UsageModel, nows: Seq<u64>, app: Seq<char>) -> UsageModel
    decreases nows.len(),
{
    if nows.len() == 0 {
        m
    } else {
        tick_model(run_ticks(m, nows.drop_last(), app), nows.last(), app)
    }
}

proof fn lemma_sat_add_capped(x: int, e: u64)
    requires
        x >= 0,
    ensures
        sat_add(capped(x) as u64, e) == capped(x + e),
{
}

/// While the foreground application does not change, each sampling step adds
/// its elapsed seconds (zero when the clock went backwards) to that
/// application's accrued time, capped at the largest `u64`; no other entry
/// changes and no segment is flushed. Below the cap the accrued time is exactly
/// the sum of the elapsed seconds.
pub proof fn lemma_steady_ticks_accrue_elapsed(m: UsageModel, nows: Seq<u64>, app: Seq<char>)
    requires
        model_wf(m),
        m.current_app == Some(app),
    ensures
        elapsed_total(m.last_active, nows) >= 0,
        run_ticks(m, nows, app).current_app == Some(app),
        run_ticks(m, nows, app).last_active == clock_after(m.last_active, nows),
        run_ticks(m, nows, app).entries == m.entries.insert(
            app,
            UsageEntry {
                accrued: capped(m.entries[app].accrued + elapsed_total(m.last_active, nows)) as u64,
                ..m.entries[app]
            },
        ),
        forall|now: u64| switch_segment(run_ticks(m, nows, app), now, app) is None,
        m.entries[app].accrued + elapsed_total(m.last_active, nows) <= u64::MAX ==> run_ticks(
            m,
            nows,
            app,
        ).entries[app].accrued == m.entries[app].accrued + elapsed_total(m.last_active, nows),
    decreases nows.len(),
{
    if nows.len() == 0 {
        assert(m.entries.insert(app, m.entries[app]) =~= m.entries);
        assert(UsageEntry { accrued: capped(m.entries[app].accrued + 0) as u64, ..m.entries[app] }
            == m.entries[app]);
    } else {
        let dl = nows.drop_last();
        lemma_steady_ticks_accrue_elapsed(m, dl, app);
        let r = run_ticks(m, dl, app);
        let e = elapsed_between(clock_after(m.last_active, dl), nows.last());
        lemma_sat_add_capped(m.entries[app].accrued + elapsed_total(m.last_active, dl), e);
        let charged = r.entries.insert(app, charged_entry(r, nows.last()));
        assert(with_entry(charged, app) =~= charged);
        assert(charged =~= m.entries.insert(
            app,
            UsageEntry {
                accrued: capped(m.entries[app].accrued + elapsed_total(m.last_active, nows)) as u64,
                ..m.entries[app]
            },
        ));
    }
}

/// On a switch from `a` to `b`, the sampling step hands out exactly one
/// segment: `a`'s accrued time together with the seconds just elapsed, when
/// that is positive, under `a`'s identity (unresolved or not). Once it is flushed, `a`'s
/// entry is zero, `b` keeps the entry it had (a zero one if it was never seen,
/// the elapsed seconds are not given to it), and no other entry changes.
pub proof fn lemma_switch_flushes_once(m: UsageModel, now: u64, a: Seq<char>, b: Seq<char>)
    requires
        model_wf(m),
        m.current_app == Some(a),
        a != b,
    ensures
        ({
            let charged = sat_add(m.entries[a].accrued, elapsed_between(m.last_active, now));
            let id = m.entries[a].window_id;
            &&& switch_segment(m, now, b) == if charged > 0 {
                Some((a, id, charged))
            } else {
                None::<(Seq<char>, i64, u64)>
            }
            &&& flushed_model(tick_model(m, now, b), a).entries == m.entries.insert(
                a,
                UsageEntry { accrued: 0, ..m.entries[a] },
            ).insert(b, entry_or_fresh(m.entries, b))
            &&& flushed_model(tick_model(m, now, b), a).entries[a].accrued == 0
            &&& flushed_model(tick_model(m, now, b), a).entries[b] == entry_or_fresh(m.entries, b)
        }),
        !m.entries.contains_key(b) ==> flushed_model(tick_model(m, now, b), a).entries[b].accrued == 0,
{
    let t = tick_model(m, now, b);
    assert(t.entries.contains_key(a));
    assert(flushed_model(t, a).entries =~= m.entries.insert(a, UsageEntry { accrued: 0, ..m.entries[a] }).insert(
        b,
        entry_or_fresh(m.entries, b),
    ));
}

/// Before any sampling step has observed `app` it has no entry; one step that
/// observes it gives it an entry with zero accrued seconds.
pub proof fn lemma_first_observation(m: UsageModel, now: u64, app: Seq<char>)
    requires
        model_wf(m),
        !m.entries.contains_key(app),
    ensures
        tick_model(m, now, app).entries.contains_key(app),
        tick_model(m, now, app).entries[app] == (UsageEntry { window_id: UNRESOLVED_WINDOW, accrued: 0 }),
{
    if m.current_app is Some {
        assert(m.current_app->0 != app);
    }
}

/// `get_or_create` twice on the same name gives the same entry and the same
/// store as once: a name never gets a second entry.
pub proof fn lemma_get_or_create_idempotent(m: UsageModel, app: Seq<char>)
    ensures
        created_model(created_model(m, app), app) == created_model(m, app),
        entry_or_fresh(created_model(m, app).entries, app) == entry_or_fresh(m.entries, app),
{
    assert(created_model(created_model(m, app), app).entries =~= created_model(m, app).entries);
}

/// After steady sampling steps, a snapshot of the store lists `app` with its
/// accrued seconds plus the seconds elapsed over the steps, capped at the
/// largest `u64`.
pub proof fn lemma_steady_ticks_in_snapshot(
    m: UsageModel,
    nows: Seq<u64>,
    app: Seq<char>,
    r: Seq<SerializableAppUsage>,
)
    requires
        model_wf(m),
        m.current_app == Some(app),
        snapshot_of(r, run_ticks(m, nows, app).entries),
    ensures
        exists|i: int|
            0 <= i < r.len() && r[i].app_name@ == app && r[i].duration == capped(
                m.entries[app].accrued + elapsed_total(m.last_active, nows),
            ),
        m.entries[app].accrued + elapsed_total(m.last_active, nows) <= u64::MAX ==> exists|i: int|
            0 <= i < r.len() && r[i].app_name@ == app && r[i].duration == m.entries[app].accrued
                + elapsed_total(m.last_active, nows),
{
    lemma_steady_ticks_accrue_elapsed(m, nows, app);
    let t = run_ticks(m, nows, app);
    assert(t.entries.contains_key(app));
    let i = choose|i: int| 0 <= i < r.len() && r[i].app_name@ == app;
    assert(t.entries.contains_key(r[i].app_name@));
}

/// Sum of the accrued seconds of the entries named in `keys`.
pub open spec fn accrued_over(entries: Map<Seq<char>, UsageEntry>, keys: Set<Seq<char>>) -> int
    decreases keys.len(),
    when keys.finite()
{
    if keys.len() == 0 {
        0
    } else {
        let k = keys.choose();
        entries[k].accrued + accrued_over(entries, keys.remove(k))
    }
}

/// Sum of the accrued seconds of all entries.
pub open spec fn total_accrued(entries: Map<Seq<char>, UsageEntry>) -> int {
    accrued_over(entries, entries.dom())
}

proof fn lemma_accrued_over_remove(entries: Map<Seq<char>, UsageEntry>, keys: Set<Seq<char>>, k: Seq<char>)
    requires
        keys.finite(),
        keys.contains(k),
    ensures
        accrued_over(entries, keys) == entries[k].accrued + accrued_over(entries, keys.remove(k)),
    decreases keys.len(),
{
    let c = keys.choose();
    if c != k {
        lemma_accrued_over_remove(entries, keys.remove(c), k);
        lemma_accrued_over_remove(entries, keys.remove(k), c);
        assert(keys.remove(c).remove(k) =~= keys.remove(k).remove(c));
    }
}

proof fn lemma_accrued_over_frame(
    e1: Map<Seq<char>, UsageEntry>,
    e2: Map<Seq<char>, UsageEntry>,
    keys: Set<Seq<char>>,
)
    requires
        keys.finite(),
        forall|k: Seq<char>| keys.contains(k) ==> e1[k].accrued == e2[k].accrued,
    ensures
        accrued_over(e1, keys) == accrued_over(e2, keys),
    decreases keys.len(),
{
    if keys.len() > 0 {
        lemma_accrued_over_frame(e1, e2, keys.remove(keys.choose()));
    }
}

/// The segment a sampling step hands out, in seconds (zero if none).
pub open spec fn flushed_seconds(m: UsageModel, now: u64, app: Seq<char>) -> int {
    match switch_segment(m, now, app) {
        Some(seg) => seg.2 as int,
        None => 0,
    }
}

/// The store after a sampling step and the flush of the segment it handed out.
pub open spec fn after_flush(m: UsageModel, now: u64, app: Seq<char>) -> UsageModel {
    match switch_segment(m, now, app) {
        Some(seg) => flushed_model(tick_model(m, now, app), seg.0),
        None => tick_model(m, now, app),
    }
}

/// Time is neither lost nor counted twice: over one sampling step after an
/// application was reported, switch or not, the seconds flushed plus the
/// seconds left accrued in the store equal the seconds accrued before plus the
/// seconds just elapsed (as long as the charged time does not reach the cap).
pub proof fn lemma_tick_conserves_time(m: UsageModel, now: u64, app: Seq<char>)
    requires
        model_wf(m),
        m.current_app is Some,
        m.entries[m.current_app->0].accrued + elapsed_between(m.last_active, now) <= u64::MAX,
    ensures
        flushed_seconds(m, now, app) + total_accrued(after_flush(m, now, app).entries) == total_accrued(
            m.entries,
        ) + elapsed_between(m.last_active, now),
{
    let p = m.current_app->0;
    let d = m.entries.dom();
    let c = charged_entry(m, now);
    assert(c.accrued == m.entries[p].accrued + elapsed_between(m.last_active, now));
    let a = after_flush(m, now, app).entries;
    let rest = d.remove(p);
    lemma_accrued_over_remove(m.entries, d, p);
    if app == p || d.contains(app) {
        assert(a.dom() =~= d);
        lemma_accrued_over_remove(a, d, p);
        lemma_accrued_over_frame(a, m.entries, rest);
    } else {
        assert(a.dom() =~= d.insert(app));
        lemma_accrued_over_remove(a, d.insert(app), app);
        assert(d.insert(app).remove(app) =~= d);
        lemma_accrued_over_remove(a, d, p);
        lemma_accrued_over_frame(a, m.entries, rest);
    }
}

/// One change of the usage store.
pub ghost enum StoreEvent {
    /// A sampling step at `now` that observed `app`.
    Tick { now: u64, app: Seq<char> },
    /// A sampling step whose observation failed.
    FailedTick,
    /// `app`'s segment was appended to the log.
    Flushed { app: Seq<char> },
    /// The resolver gave `app` the identity `id`.
    Identified { app: Seq<char>, id: i64 },
    /// `get_or_create(app)`.
    Created { app: Seq<char> },
}

/// The store after one event.
pub open spec fn apply_event(m: UsageModel, ev: StoreEvent) -> UsageModel {
    match ev {
        StoreEvent::Tick { now, app } => tick_model(m, now, app),
        StoreEvent::FailedTick => m,
        StoreEvent::Flushed { app } => flushed_model(m, app),
        StoreEvent::Identified { app, id } => identified_model(m, app, id),
        StoreEvent::Created { app } => created_model(m, app),
    }
}

/// The store after a sequence of events.
pub open spec fn apply_events(m: UsageModel, evs: Seq<StoreEvent>) -> UsageModel
    decreases evs.len(),
{
    if evs.len() == 0 {
        m
    } else {
        apply_event(apply_events(m, evs.drop_last()), evs.last())
    }
}

/// Whatever order the events come in, the store stays well formed, keeps the
/// entry of every application it ever had (flushing only zeroes it), and has
/// an entry for every application that a sampling step observed.
pub proof fn lemma_events_keep_entries(m: UsageModel, evs: Seq<StoreEvent>)
    requires
        model_wf(m),
    ensures
        model_wf(apply_events(m, evs)),
        m.entries.dom().subset_of(apply_events(m, evs).entries.dom()),
        forall|i: int|
            0 <= i < evs.len() && (#[trigger] evs[i]) is Tick ==> apply_events(m, evs).entries.contains_key(
                evs[i]->Tick_app,
            ),
    decreases evs.len(),
{
    if evs.len() > 0 {
        let dl = evs.drop_last();
        lemma_events_keep_entries(m, dl);
        let r = apply_events(m, dl);
        assert forall|i: int| 0 <= i < evs.len() && (#[trigger] evs[i]) is Tick implies apply_events(
            m,
            evs,
        ).entries.contains_key(evs[i]->Tick_app) by {
            if i < evs.len() - 1 {
                assert(dl[i] == evs[i]);
            }
        }
    }
}

} // verus!
