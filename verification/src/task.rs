//! A pending unit of backing work.  Spawning wraps the work's outcome at
//! once — the backing store is synchronous and in memory, so the eager
//! completion shortcut preserves the asynchronous contract without adding
//! latency — while the two-state shape leaves room for backing stores
//! that are not.

use vstd::prelude::*;

verus! {

/// One in-flight unit of work: still waiting, or completed with its
/// result.  The transition is one-directional and terminal.
pub enum PeekableTask<T> {
    Waiting,
    Complete(T),
}

impl<T> PeekableTask<T> {
    /// Spawns a unit of work whose outcome is already known; it completes
    /// eagerly.
    pub fn spawn(value: T) -> (r: Self)
        ensures
            r == PeekableTask::Complete(value),
    {
        PeekableTask::Complete(value)
    }

    /// Reports completion without blocking or consuming.
    pub fn is_ready(&self) -> (r: bool)
        ensures
            r == (self is Complete),
    {
        match self {
            PeekableTask::Waiting => false,
            PeekableTask::Complete(_) => true,
        }
    }

    /// Retrieves the result, consuming the task: this can happen at most
    /// once, since the task is moved out of its registry slot to be
    /// received.
    pub fn recv(self) -> (r: T)
        requires
            self is Complete,
        ensures
            r == self->Complete_0,
    {
        match self {
            PeekableTask::Complete(v) => v,
            PeekableTask::Waiting => {
                proof {
                    assert(false);
                }
                unreached()
            },
        }
    }
}

} // verus!
