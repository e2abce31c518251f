//! Waiting for the window session: where its socket lies, and what to make
//! of each look at it.

use crate::duration::{append_decimal, decimal};
use vstd::prelude::*;
use vstd::string::*;

verus! {

/// What one look at the socket comes to.
#[derive(Debug, Clone, Copy, PartialEq, Eq)]
pub enum Readiness {
    /// The socket is there: the session can be polled.
    Ready,
    /// The socket is not there yet, and there is time left to look again.
    Retry,
    /// The socket is not there, and the time to wait for it is over.
    TimedOut,
}

/// The path of the session's socket, from the runtime directory and the
/// signature of the running instance.
pub open spec fn socket_path_of(runtime_dir: Seq<char>, instance: Seq<char>) -> Seq<char> {
    runtime_dir + "/hypr/"@ + instance + "/.socket.sock"@
}

/// What one look at the socket comes to, `elapsed_millis` after the wait
/// began: the socket counts first, the time second. The wait is over once
/// more than `timeout_secs` seconds have passed.
pub open spec fn readiness_of(socket_found: bool, elapsed_millis: u64, timeout_secs: u64) -> Readiness {
    if socket_found {
        Readiness::Ready
    } else if elapsed_millis > timeout_secs * 1000 {
        Readiness::TimedOut
    } else {
        Readiness::Retry
    }
}

/// The message for a wait that ended without a socket.
pub open spec fn timeout_message_of(timeout_secs: nat) -> Seq<char> {
    "Timed out after "@ + decimal(timeout_secs)
        + " seconds waiting for Hyprland socket (checked XDG_RUNTIME_DIR path). Required env vars might be missing."@
}

/// The path of the session's socket.
pub fn socket_path(runtime_dir: &str, instance: &str) -> (path: String)
    ensures
        path@ == socket_path_of(runtime_dir@, instance@),
{
    let mut path = String::from_str(runtime_dir);
    path.append("/hypr/");
    path.append(instance);
    path.append("/.socket.sock");
    path
}

/// What one look at the socket comes to, `elapsed_millis` after the wait
/// began.
pub fn readiness(socket_found: bool, elapsed_millis: u64, timeout_secs: u64) -> (outcome: Readiness)
    ensures
        outcome == readiness_of(socket_found, elapsed_millis, timeout_secs),
{
    if socket_found {
        Readiness::Ready
    } else if elapsed_millis / 1000 > timeout_secs || (elapsed_millis / 1000 == timeout_secs
        && elapsed_millis % 1000 > 0) {
        Readiness::TimedOut
    } else {
        Readiness::Retry
    }
}

/// The message for a wait that ended without a socket.
pub fn timeout_message(timeout_secs: u64) -> (message: String)
    ensures
        message@ == timeout_message_of(timeout_secs as nat),
{
    let mut message = String::from_str("Timed out after ");
    append_decimal(&mut message, timeout_secs);
    message.append(
        " seconds waiting for Hyprland socket (checked XDG_RUNTIME_DIR path). Required env vars might be missing.",
    );
    message
}

} // verus!
