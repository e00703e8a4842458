use window_tracker::query::{get_current_window_time, QueryError};
use window_tracker::usage::AppUsageData;
use window_tracker::window::SerializableActiveWindow;

fn seen(app: &str) -> Result<SerializableActiveWindow, String> {
    Ok(SerializableActiveWindow { title: String::new(), app_name: app.to_string() })
}

#[test]
fn current_window_time_before_first_observation_has_no_data() {
    let data = AppUsageData::new(0);
    assert_eq!(get_current_window_time(&data, &seen("Editor")), Err(QueryError::NoData));
}

#[test]
fn current_window_time_after_one_observation() {
    let mut data = AppUsageData::new(0);
    data.tick(1, &seen("Editor"));
    assert_eq!(get_current_window_time(&data, &seen("Editor")), Ok(0));
    data.tick(4, &seen("Editor"));
    assert_eq!(get_current_window_time(&data, &seen("Editor")), Ok(3));
    assert_eq!(get_current_window_time(&data, &seen("Browser")), Err(QueryError::NoData));
}

#[test]
fn current_window_time_without_window() {
    let mut data = AppUsageData::new(0);
    data.tick(1, &seen("Editor"));
    let observed: Result<SerializableActiveWindow, String> = Err("failed".to_string());
    assert_eq!(get_current_window_time(&data, &observed), Err(QueryError::NoWindow));
}
