use window_tracker::usage::{AppUsageData, PendingSegment, UsageEntry, UNRESOLVED_WINDOW};
use window_tracker::window::SerializableActiveWindow;

fn seen(app: &str) -> Result<SerializableActiveWindow, String> {
    Ok(SerializableActiveWindow { title: format!("{} window", app), app_name: app.to_string() })
}

fn failed() -> Result<SerializableActiveWindow, String> {
    Err("no foreground window".to_string())
}

#[test]
fn default_store_is_empty() {
    let data = AppUsageData::default();
    assert!(data.snapshot().is_empty());
    assert_eq!(data.lookup("Editor"), None);
}

#[test]
fn first_tick_creates_unresolved_entry() {
    let mut data = AppUsageData::new(10);
    assert_eq!(data.last_active(), 10);
    let plan = data.tick(12, &seen("Editor"));
    assert_eq!(data.last_active(), 12);
    assert_eq!(plan.flush, None);
    assert!(plan.resolve_identity);
    assert_eq!(data.lookup("Editor"), Some(0));
    data.assign_window_id("Editor", 7);
    let plan = data.tick(13, &seen("Editor"));
    assert!(!plan.resolve_identity);
    assert_eq!(data.get_or_create("Editor"), UsageEntry { window_id: 7, accrued: 1 });
}

#[test]
fn steady_ticks_sum_elapsed_time() {
    let mut data = AppUsageData::new(0);
    data.tick(0, &seen("Editor"));
    data.assign_window_id("Editor", 3);
    let mut total: u64 = 0;
    let mut last: u64 = 0;
    for now in [1u64, 2, 4, 9, 10, 15] {
        let plan = data.tick(now, &seen("Editor"));
        assert_eq!(plan.flush, None);
        total += now - last;
        last = now;
    }
    assert_eq!(total, 15);
    assert_eq!(data.lookup("Editor"), Some(15));
}

#[test]
fn clock_going_back_adds_nothing() {
    let mut data = AppUsageData::new(0);
    data.tick(0, &seen("Editor"));
    data.tick(5, &seen("Editor"));
    data.tick(3, &seen("Editor"));
    assert_eq!(data.lookup("Editor"), Some(5));
    data.tick(4, &seen("Editor"));
    assert_eq!(data.lookup("Editor"), Some(6));
}

#[test]
fn accrued_time_saturates_at_largest_value() {
    let mut data = AppUsageData::new(0);
    data.tick(0, &seen("Editor"));
    data.tick(u64::MAX, &seen("Editor"));
    data.tick(0, &seen("Editor"));
    data.tick(10, &seen("Editor"));
    assert_eq!(data.lookup("Editor"), Some(u64::MAX));
}

#[test]
fn failed_observation_changes_nothing() {
    let mut data = AppUsageData::new(0);
    data.tick(0, &seen("Editor"));
    data.tick(4, &seen("Editor"));
    let plan = data.tick(6, &failed());
    assert_eq!(data.last_active(), 4);
    assert_eq!(plan.flush, None);
    assert!(!plan.resolve_identity);
    assert_eq!(data.lookup("Editor"), Some(4));
    // the failed step did not advance the clock reading: 4 -> 7 counts whole
    data.tick(7, &seen("Editor"));
    assert_eq!(data.lookup("Editor"), Some(7));
}

#[test]
fn failed_observation_is_not_a_switch() {
    let mut data = AppUsageData::new(0);
    data.tick(0, &seen("Editor"));
    data.assign_window_id("Editor", 1);
    data.tick(2, &failed());
    let plan = data.tick(3, &seen("Editor"));
    assert_eq!(plan.flush, None);
    assert_eq!(data.lookup("Editor"), Some(3));
}

#[test]
fn switch_flushes_previous_application_once() {
    let mut data = AppUsageData::new(0);
    data.tick(0, &seen("Editor"));
    data.assign_window_id("Editor", 7);
    data.tick(3, &seen("Editor"));
    let plan = data.tick(5, &seen("Browser"));
    assert_eq!(
        plan.flush,
        Some(PendingSegment { app_name: "Editor".to_string(), window_id: 7, duration: 5, resolve_first: false })
    );
    assert!(plan.resolve_identity);
    // elapsed time of the switching step is not given to the new application
    assert_eq!(data.lookup("Browser"), Some(0));
    // until the flush is confirmed the time stays with the old application
    assert_eq!(data.lookup("Editor"), Some(5));
    data.mark_flushed("Editor");
    assert_eq!(data.lookup("Editor"), Some(0));
    data.assign_window_id("Browser", 8);
    let plan = data.tick(6, &seen("Browser"));
    assert_eq!(plan.flush, None);
    assert_eq!(data.lookup("Browser"), Some(1));
    assert_eq!(data.lookup("Editor"), Some(0));
}

#[test]
fn switch_with_nothing_accrued_flushes_nothing() {
    let mut data = AppUsageData::new(0);
    data.tick(0, &seen("Editor"));
    data.assign_window_id("Editor", 7);
    let plan = data.tick(0, &seen("Browser"));
    assert_eq!(plan.flush, None);
}

#[test]
fn failed_flush_keeps_time_for_next_switch() {
    let mut data = AppUsageData::new(0);
    data.tick(0, &seen("Editor"));
    data.assign_window_id("Editor", 7);
    let plan = data.tick(4, &seen("Browser"));
    assert_eq!(plan.flush.as_ref().map(|s| s.duration), Some(4));
    // the append failed: mark_flushed is not called
    data.tick(6, &seen("Editor"));
    assert_eq!(data.lookup("Editor"), Some(4));
    data.tick(9, &seen("Editor"));
    let plan = data.tick(10, &seen("Browser"));
    assert_eq!(
        plan.flush,
        Some(PendingSegment { app_name: "Editor".to_string(), window_id: 7, duration: 8, resolve_first: false })
    );
}

#[test]
fn unresolved_identity_flushes_after_resolution() {
    let mut data = AppUsageData::new(0);
    data.tick(0, &seen("Editor"));
    // the identity lookup failed: no assign_window_id
    let plan = data.tick(4, &seen("Browser"));
    assert_eq!(
        plan.flush,
        Some(PendingSegment {
            app_name: "Editor".to_string(),
            window_id: UNRESOLVED_WINDOW,
            duration: 4,
            resolve_first: true,
        })
    );
    assert_eq!(data.get_or_create("Editor").window_id, UNRESOLVED_WINDOW);
    data.assign_window_id("Editor", 9);
    data.mark_flushed("Editor");
    assert_eq!(data.get_or_create("Editor"), UsageEntry { window_id: 9, accrued: 0 });
}

#[test]
fn switch_conserves_time() {
    let mut data = AppUsageData::new(0);
    data.tick(0, &seen("Editor"));
    data.assign_window_id("Editor", 1);
    data.tick(6, &seen("Editor"));
    data.tick(7, &seen("Mail"));
    data.assign_window_id("Mail", 2);
    data.tick(9, &seen("Mail"));
    let before: u64 = data.snapshot().iter().map(|u| u.duration).sum();
    assert_eq!(before, 9);
    let plan = data.tick(12, &seen("Editor"));
    let flushed = plan.flush.as_ref().map(|s| s.duration).unwrap_or(0);
    assert_eq!(flushed, 5);
    data.mark_flushed("Mail");
    let after: u64 = data.snapshot().iter().map(|u| u.duration).sum();
    assert_eq!(flushed + after, before + 3);
}

#[test]
fn get_or_create_twice_gives_one_entry() {
    let mut data = AppUsageData::new(0);
    let first = data.get_or_create("Editor");
    assert_eq!(first, UsageEntry { window_id: UNRESOLVED_WINDOW, accrued: 0 });
    data.assign_window_id("Editor", 5);
    let second = data.get_or_create("Editor");
    let third = data.get_or_create("Editor");
    assert_eq!(second, UsageEntry { window_id: 5, accrued: 0 });
    assert_eq!(second, third);
    assert_eq!(data.snapshot().len(), 1);
}

#[test]
fn marks_for_unknown_applications_are_ignored() {
    let mut data = AppUsageData::new(0);
    data.mark_flushed("Nobody");
    data.assign_window_id("Nobody", 3);
    assert!(data.snapshot().is_empty());
}

#[test]
fn snapshot_keeps_zeroed_entries() {
    let mut data = AppUsageData::new(0);
    data.tick(0, &seen("Editor"));
    data.assign_window_id("Editor", 1);
    data.tick(2, &seen("Editor"));
    data.tick(3, &seen("Browser"));
    data.mark_flushed("Editor");
    data.assign_window_id("Browser", 2);
    data.tick(7, &seen("Browser"));
    let mut snap = data.snapshot();
    snap.sort_by(|a, b| a.app_name.cmp(&b.app_name));
    assert_eq!(snap.len(), 2);
    assert_eq!(snap[0].app_name, "Browser");
    assert_eq!(snap[0].window_id, 2);
    assert_eq!(snap[0].duration, 4);
    assert_eq!(snap[1].app_name, "Editor");
    assert_eq!(snap[1].window_id, 1);
    assert_eq!(snap[1].duration, 0);
}
