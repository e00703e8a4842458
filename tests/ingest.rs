use window_tracker::ingest::{handle_frame, parse_report, report_from_members, DurationReport, Frame, FrameAction};
use window_tracker::usage::AppUsageData;
use window_tracker::window::SerializableActiveWindow;

fn report(app: &str, duration: i64) -> DurationReport {
    DurationReport { app_name: app.to_string(), duration }
}

#[test]
fn editor_report_is_decoded() {
    assert_eq!(parse_report(r#"{"app_name":"Editor","duration":42}"#), Some(report("Editor", 42)));
}

#[test]
fn member_order_and_extra_members_do_not_matter() {
    assert_eq!(
        parse_report(r#"{ "duration": 7, "source": "ext", "app_name": "Mail" }"#),
        Some(report("Mail", 7))
    );
    assert_eq!(parse_report(r#"{"app_name":"Idle","duration":0}"#), Some(report("Idle", 0)));
    assert_eq!(parse_report(r#"{"app_name":"Editor","duration":-3}"#), Some(report("Editor", -3)));
}

#[test]
fn malformed_reports_are_rejected() {
    assert_eq!(parse_report(r#"{"app_name":"Editor"}"#), None);
    assert_eq!(parse_report(r#"{"duration":42}"#), None);
    assert_eq!(parse_report(r#"{"app_name":42,"duration":42}"#), None);
    assert_eq!(parse_report(r#"{"app_name":"Editor","duration":"42"}"#), None);
    assert_eq!(parse_report(r#"{"app_name":"Editor","duration":4.5}"#), None);
    assert_eq!(parse_report(r#"["Editor",42]"#), None);
    assert_eq!(parse_report("not json"), None);
    assert_eq!(parse_report(""), None);
}

#[test]
fn report_from_members_needs_both() {
    assert_eq!(report_from_members(Some("A".to_string()), Some(5)), Some(report("A", 5)));
    assert_eq!(report_from_members(Some("A".to_string()), Some(-1)), Some(report("A", -1)));
    assert_eq!(report_from_members(None, Some(5)), None);
    assert_eq!(report_from_members(Some("A".to_string()), None), None);
    assert_eq!(
        report_from_members(Some("A".to_string()), Some(i64::MAX)),
        Some(report("A", i64::MAX))
    );
}

#[test]
fn frames_lead_to_actions() {
    let text = Frame::Text(r#"{"app_name":"Editor","duration":42}"#.to_string());
    assert_eq!(handle_frame(&text), FrameAction::Record(report("Editor", 42)));
    assert_eq!(handle_frame(&Frame::Text("{".to_string())), FrameAction::Malformed);
    assert_eq!(handle_frame(&Frame::Close), FrameAction::Stop);
    assert_eq!(handle_frame(&Frame::Failed), FrameAction::Stop);
    assert_eq!(handle_frame(&Frame::Other), FrameAction::Ignore);
}

#[test]
fn ingestion_leaves_the_store_alone() {
    let mut data = AppUsageData::new(0);
    let editor = Ok(SerializableActiveWindow { title: "e".to_string(), app_name: "Editor".to_string() });
    data.tick(0, &editor);
    let before = data.snapshot();
    let action = handle_frame(&Frame::Text(r#"{"app_name":"Editor","duration":42}"#.to_string()));
    assert_eq!(action, FrameAction::Record(report("Editor", 42)));
    data.tick(2, &editor);
    assert_eq!(before.len(), 1);
    assert_eq!(before[0].duration, 0);
    assert_eq!(data.lookup("Editor"), Some(2));
}
