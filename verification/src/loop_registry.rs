//! Per-thread event-loop registry: at most one loop per thread.
use std::collections::HashMap;

use vstd::prelude::*;

verus! {

broadcast use vstd::std_specs::hash::group_hash_axioms;

/// Error returned when a thread already has an installed event loop.
#[derive(Clone, Copy, Debug, PartialEq, Eq, Structural)]
pub struct LoopAlreadyInstalled;

impl LoopAlreadyInstalled {
    /// The human-readable message of the error.
    pub fn message(&self) -> (r: &'static str)
        ensures
            r@ == "an EventLoop is already installed for this thread"@,
    {
        "an EventLoop is already installed for this thread"
    }
}

/// Registry mapping a thread (by its numeric key) to its installed loop handle.
pub struct LoopRegistry<V> {
    loops: HashMap<u64, V>,
}

impl<V> View for LoopRegistry<V> {
    type V = Map<u64, V>;

    closed spec fn view(&self) -> Map<u64, V> {
        self.loops@
    }
}

impl<V> LoopRegistry<V> {
    /// An empty registry.
    pub fn new() -> (r: LoopRegistry<V>)
        ensures
            r@ == Map::<u64, V>::empty(),
    {
        LoopRegistry { loops: HashMap::new() }
    }

    /// Registers `handle` for thread `id`; fails without change when `id` already has one.
    pub fn install(&mut self, id: u64, handle: V) -> (r: Result<(), LoopAlreadyInstalled>)
        ensures
            old(self)@.contains_key(id) ==> r == Err::<(), LoopAlreadyInstalled>(LoopAlreadyInstalled)
                && final(self)@ == old(self)@,
            !old(self)@.contains_key(id) ==> r is Ok && final(self)@ == old(self)@.insert(id, handle),
    {
        if self.loops.contains_key(&id) {
            return Err(LoopAlreadyInstalled);
        }
        self.loops.insert(id, handle);
        Ok(())
    }

    /// Removes the entry of thread `id`; no effect when there is none.
    pub fn uninstall(&mut self, id: u64)
        ensures
            final(self)@ == old(self)@.remove(id),
    {
        self.loops.remove(&id);
    }

    /// The handle registered for thread `id`, if any.
    pub fn get(&self, id: u64) -> (r: Option<&V>)
        ensures
            r is Some <==> self@.contains_key(id),
            r matches Some(v) ==> *v == self@[id],
    {
        self.loops.get(&id)
    }
}

} // verus!
