//! The shared resource table handed to every op: which resource ids are
//! tracked, and whether each is still running or has exited.

use std::collections::HashMap;
use vstd::prelude::*;

verus! {

broadcast use vstd::std_specs::hash::group_hash_axioms;

/// What is known of one tracked resource.
#[derive(Clone, Copy, Debug, PartialEq, Eq, Structural)]
pub enum ResourceStatus {
    Running,
    Exited(u8),
}

/// The context shared by all ops, synchronous and asynchronous: each of
/// them sees the changes the others made.
pub struct State {
    resources: HashMap<u32, ResourceStatus>,
}

impl View for State {
    type V = Map<u32, ResourceStatus>;

    closed spec fn view(&self) -> Map<u32, ResourceStatus> {
        self.resources@
    }
}

impl State {
    /// A table that tracks nothing.
    pub fn new() -> (r: State)
        ensures
            r@ == Map::<u32, ResourceStatus>::empty(),
    {
        State { resources: HashMap::new() }
    }

    /// What is known of `rid`, if it is tracked.
    pub fn lookup(&self, rid: u32) -> (r: Option<ResourceStatus>)
        ensures
            r == (if self@.contains_key(rid) {
                Some(self@[rid])
            } else {
                None
            }),
    {
        match self.resources.get(&rid) {
            Some(s) => Some(*s),
            None => None,
        }
    }

    /// Records `status` for `rid`, tracked or not.
    pub fn set(&mut self, rid: u32, status: ResourceStatus)
        ensures
            final(self)@ == old(self)@.insert(rid, status),
    {
        self.resources.insert(rid, status);
    }
}

} // verus!
