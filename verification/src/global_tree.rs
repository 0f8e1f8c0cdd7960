//! Liveness flag of the global object tree: set when the application is built,
//! cleared when it is dropped.
use vstd::prelude::*;

verus! {

/// Whether the application's object tree may currently be accessed.
#[derive(Debug)]
pub struct TreeLiveness {
    live: bool,
}

impl TreeLiveness {
    /// True while the tree is live.
    pub closed spec fn spec_live(&self) -> bool {
        self.live
    }

    /// A flag that is not live.
    pub fn new() -> (r: TreeLiveness)
        ensures
            !r.spec_live(),
    {
        TreeLiveness { live: false }
    }
}

/// Marks the tree live.
pub fn register(flag: &mut TreeLiveness)
    ensures
        final(flag).spec_live(),
{
    flag.live = true;
}

/// Marks the tree not live.
pub fn deregister(flag: &mut TreeLiveness)
    ensures
        !final(flag).spec_live(),
{
    flag.live = false;
}

/// Whether the tree is live.
pub fn is_live(flag: &TreeLiveness) -> (r: bool)
    ensures
        r == flag.spec_live(),
{
    flag.live
}

} // verus!
