//! Native desktop notifications.

use vstd::prelude::*;

use crate::error::{AppError, AppResult};

verus! {

/// How long a notification stays on screen, in milliseconds.
pub const TIMEOUT_MS: u32 = 6000;

/// Thin wrapper around the system notification daemon.
#[derive(Debug)]
pub struct Notifier {
    app_name: String,
}

/// A notification to show.
#[derive(Debug)]
pub struct Notification {
    pub app_name: String,
    pub summary: String,
    pub body: String,
    pub timeout_ms: u32,
}

impl Notifier {
    /// The application that notifications are shown for.
    pub closed spec fn app(self) -> Seq<char> {
        self.app_name@
    }

    pub fn new(app_name: String) -> (r: Self)
        ensures
            r.app() == app_name@,
    {
        Notifier { app_name }
    }

    /// The notification to fire.
    pub fn notify(&self, summary: &str, body: &str) -> (r: Notification)
        ensures
            r.app_name@ == self.app(),
            r.summary@ == summary@,
            r.body@ == body@,
            r.timeout_ms == TIMEOUT_MS,
    {
        Notification {
            app_name: self.app_name.clone(),
            summary: summary.to_string(),
            body: body.to_string(),
            timeout_ms: TIMEOUT_MS,
        }
    }
}

impl Default for Notifier {
    fn default() -> (r: Self)
        ensures
            r.app() == "Kensho"@,
    {
        Notifier::new("Kensho".to_string())
    }
}

/// What came of showing a notification; the daemon's failure becomes an error of
/// the backend.
pub fn shown(result: Result<(), String>) -> (r: AppResult<()>)
    ensures
        match result {
            Ok(_) => r is Ok,
            Err(why) => r == Err::<(), AppError>(AppError::Notify(why)),
        },
{
    match result {
        Ok(_) => Ok(()),
        Err(why) => Err(AppError::Notify(why)),
    }
}

} // verus!
