//! The native ops: `run` and `kill` answer at once, `status` answers once
//! the resource has exited.

use crate::state::{ResourceStatus, State};
use vstd::prelude::*;

verus! {

/// The exit code recorded for a resource that `kill` ended.
pub const KILLED_EXIT_CODE: u8 = 137;

/// Why an op could not be carried out. None of this crosses to the script:
/// every failure reaches it as a result of -1.
#[derive(Clone, Copy, Debug, PartialEq, Eq, Structural)]
pub enum OpError {
    /// `run` on a resource id that is already tracked.
    AlreadyTracked,
    /// The resource id is not tracked.
    NotFound,
    /// `kill` on a resource that has already exited.
    NotRunning,
}

/// Where a deferred op stands after one poll.
#[derive(Clone, Copy, Debug)]
pub enum OpPoll {
    Pending,
    Ready(Result<u32, OpError>),
}

/// The table and outcome of `run`.
pub open spec fn run_spec(m: Map<u32, ResourceStatus>, rid: u32) -> (Map<u32, ResourceStatus>, Result<u32, OpError>) {
    if m.contains_key(rid) {
        (m, Err(OpError::AlreadyTracked))
    } else {
        (m.insert(rid, ResourceStatus::Running), Ok(0))
    }
}

/// The table and outcome of `kill`.
pub open spec fn kill_spec(m: Map<u32, ResourceStatus>, rid: u32) -> (Map<u32, ResourceStatus>, Result<u32, OpError>) {
    if !m.contains_key(rid) {
        (m, Err(OpError::NotFound))
    } else if m[rid] != ResourceStatus::Running {
        (m, Err(OpError::NotRunning))
    } else {
        (m.insert(rid, ResourceStatus::Exited(KILLED_EXIT_CODE)), Ok(0))
    }
}

/// Where `status` stands for `rid` on the table `m`.
pub open spec fn status_spec(m: Map<u32, ResourceStatus>, rid: u32) -> OpPoll {
    if !m.contains_key(rid) {
        OpPoll::Ready(Err(OpError::NotFound))
    } else {
        match m[rid] {
            ResourceStatus::Running => OpPoll::Pending,
            ResourceStatus::Exited(code) => OpPoll::Ready(Ok(code as u32)),
        }
    }
}

/// Starts tracking `rid` as a running resource.
pub fn op_run(state: &mut State, rid: u32, _buf: Option<&[u8]>) -> (r: Result<u32, OpError>)
    ensures
        (final(state)@, r) == run_spec(old(state)@, rid),
{
    match state.lookup(rid) {
        Some(_) => Err(OpError::AlreadyTracked),
        None => {
            state.set(rid, ResourceStatus::Running);
            Ok(0)
        },
    }
}

/// Ends the running resource `rid`.
pub fn op_kill(state: &mut State, rid: u32, _buf: Option<&[u8]>) -> (r: Result<u32, OpError>)
    ensures
        (final(state)@, r) == kill_spec(old(state)@, rid),
{
    match state.lookup(rid) {
        None => Err(OpError::NotFound),
        Some(ResourceStatus::Exited(_)) => Err(OpError::NotRunning),
        Some(ResourceStatus::Running) => {
            state.set(rid, ResourceStatus::Exited(KILLED_EXIT_CODE));
            Ok(0)
        },
    }
}

/// One poll of `status` on `rid`: ready with the exit code once the
/// resource has exited, ready with a failure if it is not tracked, and
/// pending while it runs.
pub fn op_status(state: &State, rid: u32, _buf: Option<&[u8]>) -> (r: OpPoll)
    ensures
        r == status_spec(state@, rid),
{
    match state.lookup(rid) {
        None => OpPoll::Ready(Err(OpError::NotFound)),
        Some(ResourceStatus::Running) => OpPoll::Pending,
        Some(ResourceStatus::Exited(code)) => OpPoll::Ready(Ok(code as u32)),
    }
}

} // verus!
