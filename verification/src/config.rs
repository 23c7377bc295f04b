//! The configuration of the responder.

use vstd::prelude::*;

verus! {

/// What the responder is configured with.
#[derive(Clone, Debug, PartialEq, Eq)]
pub struct Config {
    /// The name of the interface. With an empty name the system picks one.
    pub dev_name: String,
    /// The number of queues of the interface, each served by a worker.
    pub queues: usize,
}

/// The device name that a configuration has where it gives none: the empty
/// name.
pub fn default_dev_name() -> (name: String)
    ensures
        name@ == Seq::<char>::empty(),
{
    proof {
        reveal_strlit("");
    }
    let name = "".to_string();
    assert(name@ =~= Seq::<char>::empty());
    name
}

/// The number of queues that a configuration has where it gives none: one.
pub fn default_queues() -> (queues: usize)
    ensures
        queues == 1,
{
    1
}

} // verus!
