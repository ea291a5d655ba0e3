//! What the frontend asks for and is answered.

use vstd::prelude::*;

use crate::error::{join_err, AppError, AppResult, CommandError};

verus! {

/// Event that asks the user to approve a command.
pub const EVENT_APPROVAL: &'static str = "ui://require-approval";

/// How long the user has to answer, in seconds; after that the command is denied.
pub const APPROVAL_TIMEOUT_SECS: u64 = 60;

/// Basic app metadata for the frontend.
#[derive(Debug)]
pub struct AppInfo {
    pub name: String,
    pub version: String,
}

/// Basic app metadata for the frontend, given the version of the build.
pub fn app_info(version: String) -> (r: AppInfo)
    ensures
        r.name@ == "Kensho"@,
        r.version == version,
{
    AppInfo { name: "Kensho".to_string(), version }
}

/// The answer to a command whose work was done on another thread: what the work
/// came to, or why the thread did not hand it back.
pub fn settle<T>(joined: Result<AppResult<T>, String>) -> (r: Result<T, CommandError>)
    ensures
        match joined {
            Ok(Ok(v)) => r == Ok::<T, CommandError>(v),
            Ok(Err(e)) => r matches Err(c) && c.message@ == e.says() && c.kind@ == e.kind_name(),
            Err(why) => r matches Err(c) && c.message == why && c.kind@ == "join"@,
        },
{
    match joined {
        Ok(Ok(v)) => Ok(v),
        Ok(Err(e)) => Err(CommandError::from(e)),
        Err(why) => Err(join_err(why)),
    }
}

/// The answer to a request queued for the worker: the queue takes it unless the
/// worker is gone.
pub fn queued(accepted: bool) -> (r: AppResult<()>)
    ensures
        if accepted {
            r is Ok
        } else {
            r == Err::<(), AppError>(AppError::WorkerUnavailable)
        },
{
    if accepted {
        Ok(())
    } else {
        Err(AppError::WorkerUnavailable)
    }
}

/// The user is asked on one event, and has a minute to answer.
pub proof fn law_user_has_a_minute_to_answer()
    ensures
        EVENT_APPROVAL@ == "ui://require-approval"@,
        APPROVAL_TIMEOUT_SECS == 60,
{
}

} // verus!
