//! Connecting to the Windows daemon's named pipe: which failures are retried
//! and for how long.
use vstd::prelude::*;

verus! {

/// Windows error code: the pipe does not exist (yet).
pub const ERROR_FILE_NOT_FOUND: i32 = 2;

/// Windows error code: every instance of the pipe is busy.
pub const ERROR_PIPE_BUSY: i32 = 231;

/// How many times a connection is tried.
pub const CONNECT_RETRY_ATTEMPTS: usize = 20;

/// Milliseconds between two tries.
pub const CONNECT_RETRY_DELAY_MS: u64 = 50;

/// What the client does after one try to open the pipe.
#[derive(Clone, Copy, Debug, PartialEq, Eq, Structural)]
pub enum ConnectStep {
    /// The pipe is open.
    Connected,
    /// Wait `CONNECT_RETRY_DELAY_MS` and make try `next_attempt`.
    RetryAfterDelay { next_attempt: usize },
    /// Report the error of this try.
    GiveUp,
}

/// Whether an error code means that the daemon may still come up.
pub open spec fn is_transient_pipe_error(code: Option<i32>) -> bool {
    code == Some(ERROR_FILE_NOT_FOUND) || code == Some(ERROR_PIPE_BUSY)
}

/// Decides what follows try number `attempt` (counted from 1). `failure` is
/// `None` when the pipe opened, else the operating system's error code, if any.
pub fn connect_step(attempt: usize, failure: Option<Option<i32>>) -> (r: ConnectStep)
    requires
        1 <= attempt <= CONNECT_RETRY_ATTEMPTS,
    ensures
        failure is None ==> r == ConnectStep::Connected,
        failure matches Some(code) ==> {
            &&& (is_transient_pipe_error(code) && attempt < CONNECT_RETRY_ATTEMPTS) ==> r == (ConnectStep::RetryAfterDelay { next_attempt: (attempt + 1) as usize })
            &&& (is_transient_pipe_error(code) && attempt == CONNECT_RETRY_ATTEMPTS) ==> r == ConnectStep::GiveUp
            &&& !is_transient_pipe_error(code) ==> r == ConnectStep::GiveUp
        },
        r matches ConnectStep::RetryAfterDelay { next_attempt } ==> next_attempt == attempt + 1 && next_attempt <= CONNECT_RETRY_ATTEMPTS,
{
    match failure {
        None => ConnectStep::Connected,
        Some(code) => {
            let transient = match code {
                Some(c) => c == ERROR_FILE_NOT_FOUND || c == ERROR_PIPE_BUSY,
                None => false,
            };
            if transient && attempt < CONNECT_RETRY_ATTEMPTS {
                ConnectStep::RetryAfterDelay { next_attempt: attempt + 1 }
            } else {
                ConnectStep::GiveUp
            }
        },
    }
}

} // verus!
