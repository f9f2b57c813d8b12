use vstd::prelude::*;

use crate::text::{decimal, decimal_string};

verus! {

/// Whether the program keeps running in the foreground or detaches.
#[derive(Debug, Clone, Copy, PartialEq, Eq, Structural)]
pub enum DaemonStep {
    /// Stay attached to the terminal.
    Stay,
    /// Detach into the background, locking the pid file and logging to a file.
    Detach,
}

/// The program detaches exactly when running as a daemon was asked for.
pub fn maybe_daemonize(enable: bool) -> (step: DaemonStep)
    ensures
        step == (if enable { DaemonStep::Detach } else { DaemonStep::Stay }),
{
    if !enable {
        return DaemonStep::Stay;
    }
    DaemonStep::Detach
}

/// The line written to the log when the daemon starts.
pub fn daemon_start_line(unix_seconds: u64) -> (s: String)
    ensures
        s@ == "\n["@ + decimal(unix_seconds as nat) + "] starting whisper-write daemon"@,
{
    let digits = decimal_string(unix_seconds);
    let mut s = String::from_str("\n[");
    s.append(digits.as_str());
    s.append("] starting whisper-write daemon");
    s
}

/// The contents of the pid file: the process id and a newline.
pub fn pid_file_contents(pid: u32) -> (s: String)
    ensures
        s@ == decimal(pid as nat) + "\n"@,
{
    let digits = decimal_string(pid as u64);
    digits.concat("\n")
}

/// Whether a failure to lock the pid file means another daemon holds it:
/// the error code is `EWOULDBLOCK` or `EAGAIN` (given as `would_block` and `again`).
pub fn pid_lock_contended(code: Option<i32>, would_block: i32, again: i32) -> (r: bool)
    ensures
        r == (match code {
            Some(c) => c == would_block || c == again,
            None => false,
        }),
{
    match code {
        Some(c) => c == would_block || c == again,
        None => false,
    }
}

} // verus!
