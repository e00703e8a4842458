//! Records exchanged with the surrounding application.

use vstd::prelude::*;

verus! {

/// The focused window as reported by the foreground-window provider.
#[derive(Clone, Debug, PartialEq, Eq)]
pub struct SerializableActiveWindow {
    pub title: String,
    pub app_name: String,
}

/// One application's line in a usage snapshot.
#[derive(Clone, Debug, PartialEq, Eq)]
pub struct SerializableAppUsage {
    pub app_name: String,
    pub window_id: i64,
    /// Accrued seconds.
    pub duration: u64,
}

} // verus!
