//! The supervision of the workers: one runs per queue, and the first that
//! fails ends them all.

use vstd::prelude::*;

verus! {

/// How a worker ended.
#[derive(Clone, Copy, Debug, PartialEq, Eq)]
pub enum WorkerExit {
    /// The worker returned without an error.
    Completed,
    /// The worker returned an error, or could not be joined.
    Failed,
}

/// What the router does once a worker has ended.
#[derive(Clone, Copy, Debug, PartialEq, Eq)]
pub enum Supervision {
    /// Other workers still run: wait for the next to end.
    Wait,
    /// Every worker has ended without an error: the router is done.
    Finish,
    /// A worker has failed: end the whole process now, whatever the other
    /// workers do.
    Terminate,
}

/// The router's account of its workers.
#[derive(Clone, Copy, Debug, PartialEq, Eq)]
pub struct Router {
    /// The number of queues, and so of workers that were started.
    pub queues: usize,
    /// The number of workers that have ended.
    pub ended: usize,
}

impl Router {
    /// No more workers have ended than were started.
    pub open spec fn wf(&self) -> bool {
        self.ended <= self.queues
    }

    /// The number of workers that still run.
    pub open spec fn running(&self) -> int {
        self.queues - self.ended
    }

    /// The account of a router that has started one worker for each of
    /// `queues` queues.
    pub fn new(queues: usize) -> (router: Router)
        ensures
            router.wf(),
            router.queues == queues,
            router.ended == 0,
    {
        Router { queues, ended: 0 }
    }

    /// Whether any worker still runs.
    pub fn is_running(&self) -> (running: bool)
        requires
            self.wf(),
        ensures
            running == (self.running() > 0),
    {
        self.ended < self.queues
    }

    /// Takes note that one of the running workers has ended, and says what
    /// follows: the first failure terminates the process at once, also while
    /// other workers run without fault; the router finishes once the last
    /// worker has completed, and waits until then.
    pub fn on_exit(&mut self, exit: WorkerExit) -> (next: Supervision)
        requires
            old(self).wf(),
            old(self).running() > 0,
        ensures
            final(self).wf(),
            final(self).queues == old(self).queues,
            final(self).ended == old(self).ended + 1,
            next == match exit {
                WorkerExit::Failed => Supervision::Terminate,
                WorkerExit::Completed => if final(self).running() == 0 {
                    Supervision::Finish
                } else {
                    Supervision::Wait
                },
            },
    {
        self.ended = self.ended + 1;
        match exit {
            WorkerExit::Failed => Supervision::Terminate,
            WorkerExit::Completed => if self.ended == self.queues {
                Supervision::Finish
            } else {
                Supervision::Wait
            },
        }
    }
}

} // verus!
