//! Read queries against the usage store.

use vstd::prelude::*;

use crate::usage::AppUsageData;
use crate::window::SerializableActiveWindow;

verus! {

/// Why a duration query gave no answer.
#[derive(Clone, Copy, Debug, PartialEq, Eq, Structural)]
pub enum QueryError {
    /// The foreground window could not be determined.
    NoWindow,
    /// The foreground application was never observed.
    NoData,
}

/// Accrued seconds of the foreground application `observed`.
pub fn get_current_window_time(data: &AppUsageData, observed: &Result<SerializableActiveWindow, String>) -> (r: Result<u64, QueryError>)
    requires
        data.wf(),
    ensures
        match observed {
            Err(_) => r == Err::<u64, QueryError>(QueryError::NoWindow),
            Ok(w) => if data@.entries.contains_key(w.app_name@) {
                r == Ok::<u64, QueryError>(data@.entries[w.app_name@].accrued)
            } else {
                r == Err::<u64, QueryError>(QueryError::NoData)
            },
        },
{
    match observed {
        Ok(w) => match data.lookup(w.app_name.as_str()) {
            Some(d) => Ok(d),
            None => Err(QueryError::NoData),
        },
        Err(_) => Err(QueryError::NoWindow),
    }
}

} // verus!
