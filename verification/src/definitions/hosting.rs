//! The hosting steps: serving a sandbox directory over HTTP. Binding the
//! server happens at the program's edge; here stands the retry policy — up to
//! five attempts, each on a freshly picked port after a failed bind — and the
//! bookkeeping of the handles a successful bind leaves behind.

use vstd::prelude::*;

use crate::civilization::{Civilization, ServerState, TaskState};
use crate::errors::{ToolproofStepError, ToolproofTestFailure};
use crate::text::extend_str;

verus! {

/// `I serve the directory {dir}`.
pub struct HostDir;

impl HostDir {
    /// The pattern this instruction registers under.
    pub fn segments(&self) -> &'static str {
        "I serve the directory {dir}"
    }
}

/// `I serve the directory {dir} and debug`.
pub struct DebugHostDir;

impl DebugHostDir {
    /// The pattern this instruction registers under.
    pub fn segments(&self) -> &'static str {
        "I serve the directory {dir} and debug"
    }
}

/// How many times a failed bind is retried with a fresh port.
pub const MAX_BIND_ATTEMPTS: u8 = 5;

/// What the shell must do next while bringing a server up.
#[derive(Debug, Clone, Copy, PartialEq, Eq, Structural)]
pub enum HostAction {
    /// Try to bind on the sandbox's current port.
    Bind,
    /// Give up: every attempt failed.
    GiveUp,
}

/// Decide the next move after `attempts` failed binds: keep trying below the
/// limit, give up at it.
pub fn next_bind_action(attempts: u8) -> (r: HostAction)
    ensures
        r == (if attempts < MAX_BIND_ATTEMPTS {
            HostAction::Bind
        } else {
            HostAction::GiveUp
        }),
{
    if attempts < MAX_BIND_ATTEMPTS {
        HostAction::Bind
    } else {
        HostAction::GiveUp
    }
}

/// Record a failed bind: the port is purged so the next attempt picks a
/// fresh one.
pub fn record_bind_failure(civ: &mut Civilization)
    ensures
        final(civ).assigned_server_port is None,
        final(civ).tmp_dir == old(civ).tmp_dir,
        final(civ).last_command_output == old(civ).last_command_output,
        final(civ).window == old(civ).window,
        final(civ).threads@ == old(civ).threads@,
        final(civ).handles@ == old(civ).handles@,
        final(civ).env_vars@ == old(civ).env_vars@,
{
    civ.purge_port();
}

/// Record a successful bind: the server handle and its background task join
/// the sandbox's owned resources, for shutdown to release.
pub fn record_bind_success(civ: &mut Civilization)
    ensures
        final(civ).handles@ == old(civ).handles@.push(ServerState::Running),
        final(civ).threads@ == old(civ).threads@.push(TaskState::Running),
        final(civ).tmp_dir == old(civ).tmp_dir,
        final(civ).assigned_server_port == old(civ).assigned_server_port,
        final(civ).last_command_output == old(civ).last_command_output,
        final(civ).window == old(civ).window,
        final(civ).env_vars@ == old(civ).env_vars@,
{
    civ.handles.push(ServerState::Running);
    civ.threads.push(TaskState::Running);
}

/// The failure reported when no bind succeeded within the limit.
pub fn bind_gave_up_error() -> (r: ToolproofStepError)
    ensures
        r matches ToolproofStepError::Assertion(ToolproofTestFailure::Custom { msg }) && msg@
            == "Failed to bind the directory server to any port"@,
{
    let mut msg: Vec<char> = Vec::new();
    extend_str(&mut msg, "Failed to bind the directory server to any port");
    proof {
        assert(msg@ =~= "Failed to bind the directory server to any port"@);
    }
    ToolproofStepError::Assertion(
        ToolproofTestFailure::Custom { msg: crate::text::string_from_chars(&msg) },
    )
}

} // verus!
